[package]
name = "verilog_lexer"
version = "0.1.0"
edition = "2021"
publish = false

[dependencies]
nom = "7.1"
