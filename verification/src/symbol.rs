//! Punctuation and operators: fixed spellings of one or two characters, the
//! longer tried first.

use vstd::prelude::*;
use crate::scan::{literal, scanned, starts_with};
use crate::token::{Lexeme, Token};

verus! {

/// The token spelled by the two characters `a`, `b`, if they spell one.
/// `=<` and `=>` are the two relational operators; `<=` is the non-blocking
/// assignment.
pub open spec fn double_symbol(a: char, b: char) -> Option<Lexeme> {
    if a == '=' && b == '=' {
        Some(Lexeme::EQ)
    } else if a == '!' && b == '=' {
        Some(Lexeme::NOT_EQ)
    } else if a == '=' && b == '<' {
        Some(Lexeme::LT_EQ)
    } else if a == '=' && b == '>' {
        Some(Lexeme::GT_EQ)
    } else if a == '&' && b == '&' {
        Some(Lexeme::AND)
    } else if a == '|' && b == '|' {
        Some(Lexeme::OR)
    } else if a == '<' && b == '<' {
        Some(Lexeme::LSHIFT)
    } else if a == '>' && b == '>' {
        Some(Lexeme::RSHIFT)
    } else if a == '<' && b == '=' {
        Some(Lexeme::NonBlockAssign)
    } else {
        None
    }
}

/// The token spelled by the single character `a`, if it spells one.
pub open spec fn single_symbol(a: char) -> Option<Lexeme> {
    if a == ',' {
        Some(Lexeme::Comma)
    } else if a == ';' {
        Some(Lexeme::Semicolon)
    } else if a == '(' {
        Some(Lexeme::LParen)
    } else if a == ')' {
        Some(Lexeme::RParen)
    } else if a == '[' {
        Some(Lexeme::LBracket)
    } else if a == ']' {
        Some(Lexeme::RBracket)
    } else if a == '+' {
        Some(Lexeme::Plus)
    } else if a == '-' {
        Some(Lexeme::Minus)
    } else if a == '*' {
        Some(Lexeme::Star)
    } else if a == '/' {
        Some(Lexeme::Slash)
    } else if a == '%' {
        Some(Lexeme::Percent)
    } else if a == '&' {
        Some(Lexeme::Ampersand)
    } else if a == '|' {
        Some(Lexeme::Pipe)
    } else if a == '^' {
        Some(Lexeme::Caret)
    } else if a == '<' {
        Some(Lexeme::LT)
    } else if a == '>' {
        Some(Lexeme::GT)
    } else if a == '=' {
        Some(Lexeme::BlockAssign)
    } else if a == ':' {
        Some(Lexeme::Colon)
    } else if a == '@' {
        Some(Lexeme::At)
    } else {
        None
    }
}

/// The two-character symbol at the start of `s`, with its length.
pub open spec fn double_token(s: Seq<char>) -> Option<(Lexeme, nat)> {
    if s.len() >= 2 && double_symbol(s[0], s[1]) is Some {
        Some((double_symbol(s[0], s[1])->0, 2))
    } else {
        None
    }
}

/// The one-character symbol at the start of `s`, with its length.
pub open spec fn single_token(s: Seq<char>) -> Option<(Lexeme, nat)> {
    if s.len() >= 1 && single_symbol(s[0]) is Some {
        Some((single_symbol(s[0])->0, 1))
    } else {
        None
    }
}

/// The symbol at the start of `s`, with its length: the two-character
/// spelling where there is one, else the one-character spelling, so that the
/// longest spelling wins.
pub open spec fn symbol_token(s: Seq<char>) -> Option<(Lexeme, nat)> {
    if double_token(s) is Some {
        double_token(s)
    } else {
        single_token(s)
    }
}

/// Yields `token` if `input` begins with `spelling`.
fn spelled<'a>(input: &'a str, spelling: &str, token: Token<'a>) -> (r: Option<
    (&'a str, Token<'a>),
>)
    ensures
        match r {
            Some((rest, found)) => {
                &&& starts_with(input@, spelling@)
                &&& found == token
                &&& rest@ == input@.skip(spelling@.len() as int)
            },
            None => !starts_with(input@, spelling@),
        },
{
    match literal(spelling, input) {
        Ok((rest, _)) => Some((rest, token)),
        Err(_) => None,
    }
}

/// Matches one of the two-character spellings at the start of `input`.
pub fn token_double<'a>(input: &'a str) -> (r: Option<(&'a str, Token<'a>)>)
    ensures
        scanned(r, input@, double_token(input@)),
{
    proof {
        reveal_strlit("==");
        reveal_strlit("!=");
        reveal_strlit("=<");
        reveal_strlit("=>");
        reveal_strlit("&&");
        reveal_strlit("||");
        reveal_strlit("<<");
        reveal_strlit(">>");
        reveal_strlit("<=");
    }
    if let Some(found) = spelled(input, "==", Token::EQ) {
        Some(found)
    } else if let Some(found) = spelled(input, "!=", Token::NOT_EQ) {
        Some(found)
    } else if let Some(found) = spelled(input, "=<", Token::LT_EQ) {
        Some(found)
    } else if let Some(found) = spelled(input, "=>", Token::GT_EQ) {
        Some(found)
    } else if let Some(found) = spelled(input, "&&", Token::AND) {
        Some(found)
    } else if let Some(found) = spelled(input, "||", Token::OR) {
        Some(found)
    } else if let Some(found) = spelled(input, "<<", Token::LSHIFT) {
        Some(found)
    } else if let Some(found) = spelled(input, ">>", Token::RSHIFT) {
        Some(found)
    } else {
        spelled(input, "<=", Token::NonBlockAssign)
    }
}

/// Matches one of the one-character spellings at the start of `input`.
pub fn token_single<'a>(input: &'a str) -> (r: Option<(&'a str, Token<'a>)>)
    ensures
        scanned(r, input@, single_token(input@)),
{
    proof {
        reveal_strlit(",");
        reveal_strlit(";");
        reveal_strlit("(");
        reveal_strlit(")");
        reveal_strlit("[");
        reveal_strlit("]");
        reveal_strlit("+");
        reveal_strlit("-");
        reveal_strlit("*");
        reveal_strlit("/");
        reveal_strlit("%");
        reveal_strlit("&");
        reveal_strlit("|");
        reveal_strlit("^");
        reveal_strlit("<");
        reveal_strlit(">");
        reveal_strlit("=");
        reveal_strlit(":");
        reveal_strlit("@");
    }
    if let Some(found) = spelled(input, ",", Token::Comma) {
        Some(found)
    } else if let Some(found) = spelled(input, ";", Token::Semicolon) {
        Some(found)
    } else if let Some(found) = spelled(input, "(", Token::LParen) {
        Some(found)
    } else if let Some(found) = spelled(input, ")", Token::RParen) {
        Some(found)
    } else if let Some(found) = spelled(input, "[", Token::LBracket) {
        Some(found)
    } else if let Some(found) = spelled(input, "]", Token::RBracket) {
        Some(found)
    } else if let Some(found) = spelled(input, "+", Token::Plus) {
        Some(found)
    } else if let Some(found) = spelled(input, "-", Token::Minus) {
        Some(found)
    } else if let Some(found) = spelled(input, "*", Token::Star) {
        Some(found)
    } else if let Some(found) = spelled(input, "/", Token::Slash) {
        Some(found)
    } else if let Some(found) = spelled(input, "%", Token::Percent) {
        Some(found)
    } else if let Some(found) = spelled(input, "&", Token::Ampersand) {
        Some(found)
    } else if let Some(found) = spelled(input, "|", Token::Pipe) {
        Some(found)
    } else if let Some(found) = spelled(input, "^", Token::Caret) {
        Some(found)
    } else if let Some(found) = spelled(input, "<", Token::LT) {
        Some(found)
    } else if let Some(found) = spelled(input, ">", Token::GT) {
        Some(found)
    } else if let Some(found) = spelled(input, "=", Token::BlockAssign) {
        Some(found)
    } else if let Some(found) = spelled(input, ":", Token::Colon) {
        Some(found)
    } else {
        spelled(input, "@", Token::At)
    }
}

/// Matches the longest symbol spelling at the start of `input`.
pub fn token_symbol<'a>(input: &'a str) -> (r: Option<(&'a str, Token<'a>)>)
    ensures
        scanned(r, input@, symbol_token(input@)),
{
    if let Some(found) = token_double(input) {
        Some(found)
    } else {
        token_single(input)
    }
}

} // verus!
