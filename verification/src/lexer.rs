//! The driver: tokens one after another, whitespace skipped around each,
//! until the text ends or nothing can be scanned.

use vstd::prelude::*;
use crate::chars::is_space;
use crate::scan::{
    lemma_space_len_bound, lemma_word_len_bound, scanned, skip_space, space_len,
};
use crate::symbol::{symbol_token, token_symbol};
use crate::token::{Lexeme, Token};
use crate::word::{token_identifier, word_token};

verus! {

/// Why a text could not be tokenized.
#[derive(Debug, Clone, Copy, PartialEq, Eq, Structural)]
pub enum LexError {
    /// No word and no symbol starts at this position, counted in characters
    /// from the start of the text.
    UnrecognizedInputAt(usize),
}

/// The token at the start of `s` with its length in characters: a word where
/// `s` begins with a word character, else a symbol.
pub open spec fn token_at(s: Seq<char>) -> Option<(Lexeme, nat)> {
    if word_token(s) is Some {
        word_token(s)
    } else {
        symbol_token(s)
    }
}

/// The first token of `s` with the whitespace before and after it. The
/// length counts the whitespace on both sides and the token.
pub open spec fn spaced_token(s: Seq<char>) -> Option<(Lexeme, nat)> {
    let lead = space_len(s);
    match token_at(s.skip(lead as int)) {
        Some((lexeme, n)) => Some((lexeme, lead + n + space_len(s.skip((lead + n) as int)))),
        None => None,
    }
}

/// The tokens of `s` in source order, up to the first place where none can
/// be scanned.
pub open spec fn lexemes(s: Seq<char>) -> Seq<Lexeme>
    decreases s.len(),
{
    match spaced_token(s) {
        Some((lexeme, n)) => {
            proof {
                lemma_spaced_token_bounds(s);
            }
            seq![lexeme] + lexemes(s.skip(n as int))
        },
        None => Seq::empty(),
    }
}

/// How many characters of `s` the tokens of [`lexemes`] take up, with the
/// whitespace around them.
pub open spec fn consumed(s: Seq<char>) -> nat
    decreases s.len(),
{
    match spaced_token(s) {
        Some((_, n)) => {
            proof {
                lemma_spaced_token_bounds(s);
            }
            n + consumed(s.skip(n as int))
        },
        None => 0,
    }
}

/// The text that is left after the last token and the whitespace behind it.
pub open spec fn remainder(s: Seq<char>) -> Seq<char> {
    s.skip(consumed(s) as int)
}

/// Whether `s` holds nothing but whitespace.
pub open spec fn is_blank(s: Seq<char>) -> bool {
    forall|i: int| 0 <= i < s.len() ==> is_space(#[trigger] s[i])
}

/// Whether the whole of `s` can be tokenized: nothing but whitespace is left
/// where scanning stops.
pub open spec fn complete(s: Seq<char>) -> bool {
    is_blank(remainder(s))
}

/// The position of the first character of `s`, counted from 0, at which no
/// token starts. It is meaningful where `s` is not `complete`.
pub open spec fn failure_position(s: Seq<char>) -> nat {
    consumed(s) + space_len(remainder(s))
}

/// What tokenizing `s` gives: where `s` is complete, its tokens and the
/// whitespace left behind the last of them; otherwise the position at which
/// it fails.
pub open spec fn tokenization(s: Seq<char>) -> Result<(Seq<Lexeme>, Seq<char>), nat> {
    if complete(s) {
        Ok((lexemes(s), remainder(s)))
    } else {
        Err(failure_position(s))
    }
}

/// A token takes at least one character and no more than there are.
pub proof fn lemma_token_bounds(s: Seq<char>)
    ensures
        token_at(s) matches Some((_, n)) ==> 0 < n <= s.len(),
{
    lemma_word_len_bound(s);
}

/// A token with its whitespace takes at least one character and no more than
/// there are.
pub proof fn lemma_spaced_token_bounds(s: Seq<char>)
    ensures
        spaced_token(s) matches Some((_, n)) ==> 0 < n <= s.len(),
{
    let lead = space_len(s);
    lemma_space_len_bound(s);
    lemma_token_bounds(s.skip(lead as int));
    if let Some((_, n)) = token_at(s.skip(lead as int)) {
        lemma_space_len_bound(s.skip((lead + n) as int));
    }
}

/// Scans one token at the start of `input`: a word first, so that no word is
/// taken for the start of a symbol, then a symbol.
pub fn token<'a>(input: &'a str) -> (r: Option<(&'a str, Token<'a>)>)
    ensures
        scanned(r, input@, token_at(input@)),
{
    if let Some(found) = token_identifier(input) {
        Some(found)
    } else {
        token_symbol(input)
    }
}

/// Scans one token with the whitespace before and after it.
pub fn whitespace<'a>(input: &'a str) -> (r: Option<(&'a str, Token<'a>)>)
    ensures
        scanned(r, input@, spaced_token(input@)),
{
    let start = skip_space(input);
    match token(start) {
        Some((end, found)) => {
            let rest = skip_space(end);
            proof {
                let s = input@;
                let lead = space_len(s);
                let (_, n) = token_at(s.skip(lead as int)).unwrap();
                lemma_space_len_bound(s);
                lemma_token_bounds(s.skip(lead as int));
                lemma_space_len_bound(s.skip((lead + n) as int));
                assert(s.skip(lead as int).skip(n as int) == s.skip((lead + n) as int));
                let trail = space_len(s.skip((lead + n) as int));
                assert(s.skip((lead + n) as int).skip(trail as int) == s.skip(
                    (lead + n + trail) as int,
                ));
            }
            Some((rest, found))
        },
        None => None,
    }
}

/// No more characters are consumed than there are.
pub proof fn lemma_consumed_bound(s: Seq<char>)
    ensures
        consumed(s) <= s.len(),
    decreases s.len(),
{
    lemma_spaced_token_bounds(s);
    if let Some((_, n)) = spaced_token(s) {
        lemma_consumed_bound(s.skip(n as int));
    }
}

/// Scans tokens from `input` until none can be scanned, and returns the text
/// that is left together with the tokens in source order.
pub fn tokens<'a>(input: &'a str) -> (r: (&'a str, Vec<Token<'a>>))
    ensures
        r.0@ == remainder(input@),
        r.1.deep_view() == lexemes(input@),
{
    let mut found: Vec<Token<'a>> = Vec::new();
    let mut rest = input;
    loop
        invariant
            rest@.len() <= input@.len(),
            rest@ == input@.skip(input@.len() - rest@.len()),
            consumed(input@) == input@.len() - rest@.len() + consumed(rest@),
            lexemes(input@) == found.deep_view() + lexemes(rest@),
        ensures
            rest@ == remainder(input@),
            found.deep_view() == lexemes(input@),
        decreases rest@.len(),
    {
        match whitespace(rest) {
            Some((next, token)) => {
                proof {
                    lemma_spaced_token_bounds(rest@);
                    let (lexeme, n) = spaced_token(rest@).unwrap();
                    assert(next@ == input@.skip(input@.len() - next@.len()));
                    assert(found.deep_view().push(lexeme) + lexemes(next@) == found.deep_view()
                        + lexemes(rest@));
                }
                let ghost before = found.deep_view();
                found.push(token);
                assert(found.deep_view() == before.push(token@));
                rest = next;
            },
            None => {
                assert(found.deep_view() + lexemes(rest@) == found.deep_view());
                break ;
            },
        }
    }
    (rest, found)
}

/// Tokenizes the whole of `source`. Where nothing but whitespace is left
/// when scanning stops, the result is the tokens in source order and that
/// leftover whitespace; otherwise it is the position of the first character
/// at which no token starts. The result depends on the characters of
/// `source` alone.
pub fn tokenize<'a>(source: &'a str) -> (r: Result<(Vec<Token<'a>>, &'a str), LexError>)
    ensures
        match r {
            Ok((found, rest)) => tokenization(source@) == Ok::<(Seq<Lexeme>, Seq<char>), nat>(
                (found.deep_view(), rest@),
            ),
            Err(LexError::UnrecognizedInputAt(position)) => tokenization(source@) == Err::<
                (Seq<Lexeme>, Seq<char>),
                nat,
            >(position as nat),
        },
{
    let (rest, found) = tokens(source);
    let tail = skip_space(rest);
    proof {
        lemma_consumed_bound(source@);
        lemma_space_len_bound(rest@);
        if space_len(rest@) == rest@.len() {
            assert(is_blank(rest@));
        } else {
            assert(!is_space(rest@[space_len(rest@) as int]));
        }
    }
    if tail.is_empty() {
        Ok((found, rest))
    } else {
        let position = source.unicode_len() - tail.unicode_len();
        Err(LexError::UnrecognizedInputAt(position))
    }
}

} // verus!
