use verilog_lexer::lexer::{tokenize, tokens};
use verilog_lexer::Token;

const COUNTER: &str = "module test(input clk, input [7:0] data_in, output [7:0] data_out);
                      reg [7:0] count;
                      always @(posedge clk) begin
                          if (count == 8'hff) begin
                              count <= 8'h00;
                          end else begin
                              count <= count + 1;
                          end
                      end
                      assign data_out = count + data_in;
                      endmodule";

fn counter_tokens() -> Vec<Token<'static>> {
    vec![
        Token::Module,
        Token::Identifier("test"),
        Token::LParen,
        Token::Input,
        Token::Identifier("clk"),
        Token::Comma,
        Token::Input,
        Token::LBracket,
        Token::Number("7"),
        Token::Colon,
        Token::Number("0"),
        Token::RBracket,
        Token::Identifier("data_in"),
        Token::Comma,
        Token::Output,
        Token::LBracket,
        Token::Number("7"),
        Token::Colon,
        Token::Number("0"),
        Token::RBracket,
        Token::Identifier("data_out"),
        Token::RParen,
        Token::Semicolon,
        Token::Reg,
        Token::LBracket,
        Token::Number("7"),
        Token::Colon,
        Token::Number("0"),
        Token::RBracket,
        Token::Identifier("count"),
        Token::Semicolon,
        Token::Always,
        Token::At,
        Token::LParen,
        Token::Posedge,
        Token::Identifier("clk"),
        Token::RParen,
        Token::Begin,
        Token::If,
        Token::LParen,
        Token::Identifier("count"),
        Token::EQ,
        Token::Number("8'hff"),
        Token::RParen,
        Token::Begin,
        Token::Identifier("count"),
        Token::NonBlockAssign,
        Token::Number("8'h00"),
        Token::Semicolon,
        Token::End,
        Token::Else,
        Token::Begin,
        Token::Identifier("count"),
        Token::NonBlockAssign,
        Token::Identifier("count"),
        Token::Plus,
        Token::Number("1"),
        Token::Semicolon,
        Token::End,
        Token::End,
        Token::Assign,
        Token::Identifier("data_out"),
        Token::BlockAssign,
        Token::Identifier("count"),
        Token::Plus,
        Token::Identifier("data_in"),
        Token::Semicolon,
        Token::EndModule,
    ]
}

#[test]
fn test_tokens() {
    let input = "module test(input clk, input [7:0] data_in, output [7:0] data_out);
                      reg [7:0] count;
                      always @(posedge clk) begin
                          if (count == 8'hff) begin
                              count <= 8'h00;
                          end else begin
                              count <= count + 1;
                          end
                      end
                      assign data_out = count + data_in;
                      endmodule";
    let expected = vec![
        Token::Module,
        Token::Identifier("test"),
        Token::LParen,
        Token::Input,
        Token::Identifier("clk"),
        Token::Comma,
        Token::Input,
        Token::LBracket,
        Token::Number("7"),
        Token::Colon,
        Token::Number("0"),
        Token::RBracket,
        Token::Identifier("data_in"),
        Token::Comma,
        Token::Output,
        Token::LBracket,
        Token::Number("7"),
        Token::Colon,
        Token::Number("0"),
        Token::RBracket,
        Token::Identifier("data_out"),
        Token::RParen,
        Token::Semicolon,
        Token::Reg,
        Token::LBracket,
        Token::Number("7"),
        Token::Colon,
        Token::Number("0"),
        Token::RBracket,
        Token::Identifier("count"),
        Token::Semicolon,
        Token::Always,
        Token::At,
        Token::LParen,
        Token::Posedge,
        Token::Identifier("clk"),
        Token::RParen,
        Token::Begin,
        Token::If,
        Token::LParen,
        Token::Identifier("count"),
        Token::EQ,
        Token::Number("8'hff"),
        Token::RParen,
        Token::Begin,
        Token::Identifier("count"),
        Token::NonBlockAssign,
        Token::Number("8'h00"),
        Token::Semicolon,
        Token::End,
        Token::Else,
        Token::Begin,
        Token::Identifier("count"),
        Token::NonBlockAssign,
        Token::Identifier("count"),
        Token::Plus,
        Token::Number("1"),
        Token::Semicolon,
        Token::End,
        Token::End,
        Token::Assign,
        Token::Identifier("data_out"),
        Token::BlockAssign,
        Token::Identifier("count"),
        Token::Plus,
        Token::Identifier("data_in"),
        Token::Semicolon,
        Token::EndModule,
    ];
    let result = tokens(input).1;
    assert_eq!(result, expected);
}

#[test]
fn counter_module_leaves_no_text() {
    let (rest, found) = tokens(COUNTER);
    assert_eq!(rest, "");
    assert_eq!(found.len(), 68);
    assert_eq!(tokenize(COUNTER), Ok((counter_tokens(), "")));
}

#[test]
fn counter_module_on_one_line() {
    let line = "module test(input clk, input [7:0] data_in, output [7:0] data_out); reg [7:0] count; always @(posedge clk) begin if (count == 8'hff) begin count <= 8'h00; end else begin count <= count + 1; end end assign data_out = count + data_in; endmodule";
    assert_eq!(tokenize(line), Ok((counter_tokens(), "")));
}
