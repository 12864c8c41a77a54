//! Where scanning stops, and which texts are tokenized to their end.

use vstd::prelude::*;
use crate::chars::{is_space, is_word_char};
use crate::lexer::{
    complete, consumed, failure_position, is_blank, lemma_consumed_bound, lemma_spaced_token_bounds,
    lemma_token_bounds, remainder, spaced_token, token_at,
};
use crate::scan::{lemma_space_len_bound, lemma_space_len_unique, lemma_word_len_bound, space_len};
use crate::symbol::single_symbol;

verus! {

/// Whether the character at position `i` of `s` is one that the language
/// knows in its place: whitespace, a word character, a one-character symbol,
/// or a `!` with a `=` directly behind it.
pub open spec fn recognized_at(s: Seq<char>, i: int) -> bool {
    ||| is_space(s[i])
    ||| is_word_char(s[i])
    ||| single_symbol(s[i]) is Some
    ||| (s[i] == '!' && i + 1 < s.len() && s[i + 1] == '=')
}

/// Every character of a token is a recognized one.
pub proof fn lemma_token_recognized(s: Seq<char>)
    ensures
        token_at(s) matches Some((_, n)) ==> forall|i: int|
            0 <= i < n ==> #[trigger] recognized_at(s, i),
{
    lemma_word_len_bound(s);
}

/// What is left of a text is what is left behind its first token, and all
/// of the text where it has none.
pub proof fn lemma_remainder_step(s: Seq<char>)
    ensures
        remainder(s) == match spaced_token(s) {
            Some((_, n)) => remainder(s.skip(n as int)),
            None => s,
        },
{
    lemma_spaced_token_bounds(s);
    match spaced_token(s) {
        Some((_, n)) => {
            let next = s.skip(n as int);
            lemma_consumed_bound(next);
            assert(s.skip((n + consumed(next)) as int) == next.skip(consumed(next) as int));
        },
        None => {
            assert(s.skip(0) == s);
        },
    }
}

/// Scanning stops only where nothing can be scanned: no token, with or
/// without whitespace before it, starts the text that is left.
pub proof fn lemma_remainder_unscannable(s: Seq<char>)
    ensures
        spaced_token(remainder(s)) is None,
    decreases s.len(),
{
    lemma_spaced_token_bounds(s);
    lemma_remainder_step(s);
    if let Some((_, n)) = spaced_token(s) {
        lemma_remainder_unscannable(s.skip(n as int));
    }
}

/// Every character that scanning consumes is a recognized one.
pub proof fn lemma_consumed_recognized(s: Seq<char>)
    ensures
        forall|i: int| 0 <= i < consumed(s) ==> #[trigger] recognized_at(s, i),
    decreases s.len(),
{
    lemma_spaced_token_bounds(s);
    if let Some((_, total)) = spaced_token(s) {
        let lead = space_len(s);
        let word = s.skip(lead as int);
        let (_, n) = token_at(word).unwrap();
        let tail = s.skip((lead + n) as int);
        let next = s.skip(total as int);
        lemma_space_len_bound(s);
        lemma_token_bounds(word);
        lemma_token_recognized(word);
        lemma_space_len_bound(tail);
        lemma_consumed_recognized(next);
        lemma_consumed_bound(next);
        assert forall|i: int| 0 <= i < consumed(s) implies #[trigger] recognized_at(s, i) by {
            if i < lead {
            } else if i < lead + n {
                assert(recognized_at(word, i - lead));
            } else if i < total {
                assert(is_space(tail[i - lead - n]));
            } else {
                assert(recognized_at(next, i - total));
            }
        }
    }
}

/// The failure position is the first character that is not a recognized
/// one, or the length of the text where every character is. So
/// tokenization fails exactly at the first character that the language does
/// not know in its place.
pub proof fn lemma_failure_position(s: Seq<char>)
    ensures
        failure_position(s) <= s.len(),
        forall|i: int| 0 <= i < failure_position(s) ==> #[trigger] recognized_at(s, i),
        failure_position(s) < s.len() ==> !recognized_at(s, failure_position(s) as int),
        complete(s) <==> failure_position(s) == s.len(),
{
    let rest = remainder(s);
    let blank = space_len(rest);
    let p = failure_position(s);
    lemma_consumed_bound(s);
    lemma_consumed_recognized(s);
    lemma_remainder_unscannable(s);
    lemma_space_len_bound(rest);
    assert forall|i: int| 0 <= i < p implies #[trigger] recognized_at(s, i) by {
        if i >= consumed(s) {
            assert(is_space(rest[i - consumed(s)]));
        }
    }
    if p < s.len() {
        let stuck = rest.skip(blank as int);
        assert(stuck == s.skip(p as int));
        assert(token_at(stuck) is None);
        assert(stuck[0] == s[p as int]);
        assert(!is_space(rest[blank as int]));
        if stuck.len() >= 2 {
            assert(stuck[1] == s[p as int + 1]);
        }
    }
    if is_blank(rest) {
        lemma_space_len_unique(rest, rest.len());
    }
}

/// Tokenization is complete exactly on the texts made of recognized
/// characters alone: whitespace, word characters, one-character symbols, and
/// `!` only directly before `=`.
pub proof fn lemma_completeness(s: Seq<char>)
    ensures
        complete(s) <==> forall|i: int| 0 <= i < s.len() ==> #[trigger] recognized_at(s, i),
{
    lemma_failure_position(s);
}

} // verus!
