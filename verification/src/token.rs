//! The tokens and their mathematical values.

use vstd::prelude::*;

verus! {

/// One lexical unit. `Identifier` and `Number` borrow the matched text from
/// the source buffer; every other variant stands for one fixed spelling.
#[allow(non_camel_case_types)]
#[derive(Debug, PartialEq, Clone)]
pub enum Token<'a> {
    Module,
    Input,
    Output,
    Reg,
    Wire,
    Identifier(&'a str),
    Number(&'a str),
    Comma,
    Semicolon,
    LParen,
    RParen,
    LBracket,
    RBracket,
    Plus,
    Minus,
    Star,
    Slash,
    Percent,
    Ampersand,
    Pipe,
    Caret,
    LT,
    GT,
    EQ,
    NOT_EQ,
    LT_EQ,
    GT_EQ,
    AND,
    OR,
    LSHIFT,
    RSHIFT,
    NonBlockAssign,
    BlockAssign,
    Assign,
    Colon,
    At,
    Begin,
    End,
    If,
    Else,
    Always,
    Posedge,
    Negedge,
    EndModule,
}

/// What a token is, independent of where its text is stored: the same
/// variants as [`Token`], with the text of identifiers and numbers as a
/// sequence of characters.
#[allow(non_camel_case_types)]
pub ghost enum Lexeme {
    Module,
    Input,
    Output,
    Reg,
    Wire,
    Identifier(Seq<char>),
    Number(Seq<char>),
    Comma,
    Semicolon,
    LParen,
    RParen,
    LBracket,
    RBracket,
    Plus,
    Minus,
    Star,
    Slash,
    Percent,
    Ampersand,
    Pipe,
    Caret,
    LT,
    GT,
    EQ,
    NOT_EQ,
    LT_EQ,
    GT_EQ,
    AND,
    OR,
    LSHIFT,
    RSHIFT,
    NonBlockAssign,
    BlockAssign,
    Assign,
    Colon,
    At,
    Begin,
    End,
    If,
    Else,
    Always,
    Posedge,
    Negedge,
    EndModule,
}

impl Lexeme {
    /// The text that a token is written as: its own text for an identifier
    /// or a number, the fixed spelling for every other token.
    pub open spec fn spelling(self) -> Seq<char> {
        match self {
            Lexeme::Identifier(text) => text,
            Lexeme::Number(text) => text,
            Lexeme::Module => "module"@,
            Lexeme::Input => "input"@,
            Lexeme::Output => "output"@,
            Lexeme::Reg => "reg"@,
            Lexeme::Wire => "wire"@,
            Lexeme::Comma => ","@,
            Lexeme::Semicolon => ";"@,
            Lexeme::LParen => "("@,
            Lexeme::RParen => ")"@,
            Lexeme::LBracket => "["@,
            Lexeme::RBracket => "]"@,
            Lexeme::Plus => "+"@,
            Lexeme::Minus => "-"@,
            Lexeme::Star => "*"@,
            Lexeme::Slash => "/"@,
            Lexeme::Percent => "%"@,
            Lexeme::Ampersand => "&"@,
            Lexeme::Pipe => "|"@,
            Lexeme::Caret => "^"@,
            Lexeme::LT => "<"@,
            Lexeme::GT => ">"@,
            Lexeme::EQ => "=="@,
            Lexeme::NOT_EQ => "!="@,
            Lexeme::LT_EQ => "=<"@,
            Lexeme::GT_EQ => "=>"@,
            Lexeme::AND => "&&"@,
            Lexeme::OR => "||"@,
            Lexeme::LSHIFT => "<<"@,
            Lexeme::RSHIFT => ">>"@,
            Lexeme::NonBlockAssign => "<="@,
            Lexeme::BlockAssign => "="@,
            Lexeme::Assign => "assign"@,
            Lexeme::Colon => ":"@,
            Lexeme::At => "@"@,
            Lexeme::Begin => "begin"@,
            Lexeme::End => "end"@,
            Lexeme::If => "if"@,
            Lexeme::Else => "else"@,
            Lexeme::Always => "always"@,
            Lexeme::Posedge => "posedge"@,
            Lexeme::Negedge => "negedge"@,
            Lexeme::EndModule => "endmodule"@,
        }
    }

    /// Whether the token is made of a word: a keyword, a number or an
    /// identifier.
    pub open spec fn is_word(self) -> bool {
        match self {
            Lexeme::Identifier(_) | Lexeme::Number(_) | Lexeme::Module | Lexeme::Input
            | Lexeme::Output | Lexeme::Reg | Lexeme::Wire | Lexeme::Begin | Lexeme::End | Lexeme::If
            | Lexeme::Else | Lexeme::Always | Lexeme::Posedge | Lexeme::Negedge | Lexeme::EndModule
            | Lexeme::Assign => true,
            _ => false,
        }
    }
}

impl<'a> View for Token<'a> {
    type V = Lexeme;

    open spec fn view(&self) -> Lexeme {
        match *self {
            Token::Module => Lexeme::Module,
            Token::Input => Lexeme::Input,
            Token::Output => Lexeme::Output,
            Token::Reg => Lexeme::Reg,
            Token::Wire => Lexeme::Wire,
            Token::Identifier(text) => Lexeme::Identifier(text@),
            Token::Number(text) => Lexeme::Number(text@),
            Token::Comma => Lexeme::Comma,
            Token::Semicolon => Lexeme::Semicolon,
            Token::LParen => Lexeme::LParen,
            Token::RParen => Lexeme::RParen,
            Token::LBracket => Lexeme::LBracket,
            Token::RBracket => Lexeme::RBracket,
            Token::Plus => Lexeme::Plus,
            Token::Minus => Lexeme::Minus,
            Token::Star => Lexeme::Star,
            Token::Slash => Lexeme::Slash,
            Token::Percent => Lexeme::Percent,
            Token::Ampersand => Lexeme::Ampersand,
            Token::Pipe => Lexeme::Pipe,
            Token::Caret => Lexeme::Caret,
            Token::LT => Lexeme::LT,
            Token::GT => Lexeme::GT,
            Token::EQ => Lexeme::EQ,
            Token::NOT_EQ => Lexeme::NOT_EQ,
            Token::LT_EQ => Lexeme::LT_EQ,
            Token::GT_EQ => Lexeme::GT_EQ,
            Token::AND => Lexeme::AND,
            Token::OR => Lexeme::OR,
            Token::LSHIFT => Lexeme::LSHIFT,
            Token::RSHIFT => Lexeme::RSHIFT,
            Token::NonBlockAssign => Lexeme::NonBlockAssign,
            Token::BlockAssign => Lexeme::BlockAssign,
            Token::Assign => Lexeme::Assign,
            Token::Colon => Lexeme::Colon,
            Token::At => Lexeme::At,
            Token::Begin => Lexeme::Begin,
            Token::End => Lexeme::End,
            Token::If => Lexeme::If,
            Token::Else => Lexeme::Else,
            Token::Always => Lexeme::Always,
            Token::Posedge => Lexeme::Posedge,
            Token::Negedge => Lexeme::Negedge,
            Token::EndModule => Lexeme::EndModule,
        }
    }
}

impl<'a> DeepView for Token<'a> {
    type V = Lexeme;

    open spec fn deep_view(&self) -> Lexeme {
        self@
    }
}

} // verus!
