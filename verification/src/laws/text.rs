//! The tokens spell the text they were scanned from.

use vstd::prelude::*;
use crate::chars::is_space;
use crate::laws::tokens::{lemma_token_solid, lemma_token_spelling};
use crate::lexer::{
    consumed, is_blank, lemma_consumed_bound, lemma_spaced_token_bounds, lemma_token_bounds,
    lexemes, spaced_token, token_at,
};
use crate::scan::{lemma_space_len_bound, space_len};
use crate::token::Lexeme;

verus! {

/// The text `s` with its whitespace taken out.
pub open spec fn without_space(s: Seq<char>) -> Seq<char>
    decreases s.len(),
{
    if s.len() == 0 {
        s
    } else if is_space(s[0]) {
        without_space(s.skip(1))
    } else {
        seq![s[0]] + without_space(s.skip(1))
    }
}

/// The spellings of `tokens`, one behind the other.
pub open spec fn written(tokens: Seq<Lexeme>) -> Seq<char>
    decreases tokens.len(),
{
    if tokens.len() == 0 {
        Seq::empty()
    } else {
        tokens[0].spelling() + written(tokens.skip(1))
    }
}

/// Taking the whitespace out of two texts joined is the same as joining
/// what is left of each.
pub proof fn lemma_without_space_add(a: Seq<char>, b: Seq<char>)
    ensures
        without_space(a + b) == without_space(a) + without_space(b),
    decreases a.len(),
{
    if a.len() == 0 {
        assert(a + b == b);
    } else {
        assert((a + b).skip(1) == a.skip(1) + b);
        lemma_without_space_add(a.skip(1), b);
    }
}

/// Nothing is left of a text that is all whitespace.
pub proof fn lemma_without_space_blank(s: Seq<char>)
    requires
        is_blank(s),
    ensures
        without_space(s) == Seq::<char>::empty(),
    decreases s.len(),
{
    if s.len() > 0 {
        assert(is_space(s[0]));
        assert forall|i: int| 0 <= i < s.skip(1).len() implies is_space(
            #[trigger] s.skip(1)[i],
        ) by {
            assert(s.skip(1)[i] == s[i + 1]);
        }
        lemma_without_space_blank(s.skip(1));
    }
}

/// A text without whitespace is left as it is.
pub proof fn lemma_without_space_solid(s: Seq<char>)
    requires
        forall|i: int| 0 <= i < s.len() ==> !is_space(#[trigger] s[i]),
    ensures
        without_space(s) == s,
    decreases s.len(),
{
    if s.len() > 0 {
        assert(!is_space(s[0]));
        assert forall|i: int| 0 <= i < s.skip(1).len() implies !is_space(
            #[trigger] s.skip(1)[i],
        ) by {
            assert(s.skip(1)[i] == s[i + 1]);
        }
        lemma_without_space_solid(s.skip(1));
        assert(seq![s[0]] + s.skip(1) == s);
    }
}

/// Nothing is lost and nothing is made up: the spellings of the tokens, one
/// behind the other, are the consumed text without its whitespace.
pub proof fn lemma_tokens_spell_text(s: Seq<char>)
    ensures
        written(lexemes(s)) == without_space(s.take(consumed(s) as int)),
    decreases s.len(),
{
    lemma_spaced_token_bounds(s);
    match spaced_token(s) {
        Some((lexeme, total)) => {
            let lead = space_len(s);
            let word = s.skip(lead as int);
            let (_, n) = token_at(word).unwrap();
            let tail = s.skip((lead + n) as int);
            let trail = space_len(tail);
            let next = s.skip(total as int);
            lemma_space_len_bound(s);
            lemma_space_len_bound(tail);
            lemma_token_bounds(word);
            lemma_token_spelling(word);
            lemma_consumed_bound(next);
            lemma_tokens_spell_text(next);
            let before = s.take(lead as int);
            let text = word.take(n as int);
            let after = tail.take(trail as int);
            let beyond = next.take(consumed(next) as int);
            assert(s.take(consumed(s) as int) == before + text + after + beyond);
            lemma_without_space_add(before + text + after, beyond);
            lemma_without_space_add(before + text, after);
            lemma_without_space_add(before, text);
            lemma_without_space_blank(before);
            lemma_without_space_blank(after);
            assert forall|i: int| 0 <= i < text.len() implies !is_space(#[trigger] text[i]) by {
                lemma_token_solid(word, i);
            }
            lemma_without_space_solid(text);
            assert(lexemes(s).skip(1) == lexemes(next));
            assert(lexemes(s)[0] == lexeme);
        },
        None => {
            assert(s.take(0) == Seq::<char>::empty());
        },
    }
}

} // verus!
