//! Words: a scanned run of word characters is a keyword, a numeric literal
//! or an identifier.

use vstd::prelude::*;
use crate::chars::{is_number_char, number_char};
use crate::scan::{identifier, scanned, word_len};
use crate::token::{Lexeme, Token};

verus! {

/// The keyword that `word` spells, if it spells one. The match is exact:
/// a longer or shorter word is no keyword.
pub open spec fn keyword(word: Seq<char>) -> Option<Lexeme> {
    if word == "module"@ {
        Some(Lexeme::Module)
    } else if word == "input"@ {
        Some(Lexeme::Input)
    } else if word == "output"@ {
        Some(Lexeme::Output)
    } else if word == "reg"@ {
        Some(Lexeme::Reg)
    } else if word == "wire"@ {
        Some(Lexeme::Wire)
    } else if word == "begin"@ {
        Some(Lexeme::Begin)
    } else if word == "end"@ {
        Some(Lexeme::End)
    } else if word == "if"@ {
        Some(Lexeme::If)
    } else if word == "else"@ {
        Some(Lexeme::Else)
    } else if word == "always"@ {
        Some(Lexeme::Always)
    } else if word == "posedge"@ {
        Some(Lexeme::Posedge)
    } else if word == "negedge"@ {
        Some(Lexeme::Negedge)
    } else if word == "endmodule"@ {
        Some(Lexeme::EndModule)
    } else if word == "assign"@ {
        Some(Lexeme::Assign)
    } else {
        None
    }
}

/// Whether every character of `text` may stand in a numeric literal. This is
/// a test on the characters alone, not a grammar of numbers: a name spelled
/// from hexadecimal digits and radix letters passes it too.
pub open spec fn is_number_text(text: Seq<char>) -> bool {
    forall|i: int| 0 <= i < text.len() ==> is_number_char(#[trigger] text[i])
}

/// The token that a scanned word stands for: its keyword if it spells one,
/// else a number if all its characters are number characters, else an
/// identifier.
pub open spec fn classify(word: Seq<char>) -> Lexeme {
    match keyword(word) {
        Some(k) => k,
        None => if is_number_text(word) {
            Lexeme::Number(word)
        } else {
            Lexeme::Identifier(word)
        },
    }
}

/// The word token at the start of `s` with its length in characters, or
/// `None` where `s` does not begin with a word character.
pub open spec fn word_token(s: Seq<char>) -> Option<(Lexeme, nat)> {
    let n = word_len(s);
    if n > 0 {
        Some((classify(s.take(n as int)), n))
    } else {
        None
    }
}

/// `str`'s equality of the standard library: two strings are equal exactly
/// when they hold the same characters.
#[verifier::external_body]
fn same_text(a: &str, b: &str) -> (r: bool)
    ensures
        r == (a@ == b@),
{
    a == b
}

/// Tests whether every character of `s` may stand in a numeric literal.
pub fn is_number(s: &str) -> (r: bool)
    ensures
        r == is_number_text(s@),
{
    for c in it: s.chars()
        invariant
            it.seq() == s@,
            forall|i: int| 0 <= i < it.index() ==> is_number_char(#[trigger] s@[i]),
    {
        if !number_char(c) {
            return false;
        }
    }
    true
}

/// Classifies a scanned word: a keyword where it spells one, else a number
/// where all its characters are number characters, else an identifier.
pub fn classify_word<'a>(word: &'a str) -> (token: Token<'a>)
    ensures
        token@ == classify(word@),
{
    if same_text(word, "module") {
        Token::Module
    } else if same_text(word, "input") {
        Token::Input
    } else if same_text(word, "output") {
        Token::Output
    } else if same_text(word, "reg") {
        Token::Reg
    } else if same_text(word, "wire") {
        Token::Wire
    } else if same_text(word, "begin") {
        Token::Begin
    } else if same_text(word, "end") {
        Token::End
    } else if same_text(word, "if") {
        Token::If
    } else if same_text(word, "else") {
        Token::Else
    } else if same_text(word, "always") {
        Token::Always
    } else if same_text(word, "posedge") {
        Token::Posedge
    } else if same_text(word, "negedge") {
        Token::Negedge
    } else if same_text(word, "endmodule") {
        Token::EndModule
    } else if same_text(word, "assign") {
        Token::Assign
    } else if is_number(word) {
        Token::Number(word)
    } else {
        Token::Identifier(word)
    }
}

/// Scans one word at the start of `input` and classifies it.
pub fn token_identifier<'a>(input: &'a str) -> (r: Option<(&'a str, Token<'a>)>)
    ensures
        scanned(r, input@, word_token(input@)),
{
    match identifier(input) {
        Ok((rest, word)) => Some((rest, classify_word(word))),
        Err(_) => None,
    }
}

} // verus!
