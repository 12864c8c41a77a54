//! Whitespace around and between tokens changes nothing.

use vstd::prelude::*;
use crate::chars::{is_space, is_word_char};
use crate::laws::completeness::lemma_remainder_step;
use crate::lexer::{complete, is_blank, lemma_token_bounds, lexemes, token_at};
use crate::scan::{
    lemma_space_len_bound, lemma_space_len_unique, lemma_word_len_bound, lemma_word_len_unique,
    space_len, word_len,
};
use crate::symbol::double_token;

verus! {

/// Whitespace before the first token does not count: a text has the tokens
/// of the text without its leading whitespace, and is complete when that
/// text is.
pub proof fn lemma_leading_space(s: Seq<char>)
    ensures
        lexemes(s) == lexemes(s.skip(space_len(s) as int)),
        complete(s) == complete(s.skip(space_len(s) as int)),
{
    let lead = space_len(s);
    let word = s.skip(lead as int);
    lemma_space_len_bound(s);
    lemma_token_bounds(word);
    lemma_remainder_step(s);
    lemma_remainder_step(word);
    assert(space_len(word) == 0);
    assert(word.skip(0) == word);
    if let Some((_, n)) = token_at(word) {
        let trail = space_len(s.skip((lead + n) as int));
        lemma_space_len_bound(s.skip((lead + n) as int));
        assert(word.skip(n as int) == s.skip((lead + n) as int));
        assert(word.skip((n + trail) as int) == s.skip((lead + n + trail) as int));
    } else if is_blank(s) {
        lemma_space_len_unique(s, s.len());
    } else if is_blank(word) {
        assert forall|i: int| 0 <= i < s.len() implies is_space(#[trigger] s[i]) by {
            if i >= lead {
                assert(s[i] == word[i - lead]);
            }
        }
    }
}

/// Where a text begins with a token, its tokens are that token and then the
/// tokens of what follows it, and it is complete when what follows is.
pub proof fn lemma_first_token(s: Seq<char>)
    ensures
        token_at(s) matches Some((lexeme, n)) ==> {
            &&& lexemes(s) == seq![lexeme] + lexemes(s.skip(n as int))
            &&& complete(s) == complete(s.skip(n as int))
        },
{
    if let Some((_, n)) = token_at(s) {
        let tail = s.skip(n as int);
        let trail = space_len(tail);
        lemma_token_bounds(s);
        lemma_space_len_bound(tail);
        lemma_remainder_step(s);
        assert(space_len(s) == 0);
        assert(s.skip(0) == s);
        lemma_leading_space(tail);
        assert(tail.skip(trail as int) == s.skip((n + trail) as int));
    }
}

/// What follows a token bears on it through its first character alone: the
/// token stays the same where the text behind it is replaced by one that is
/// empty, or begins with whitespace, or begins with the same character.
pub proof fn lemma_token_context(token: Seq<char>, behind: Seq<char>, other: Seq<char>)
    requires
        token_at(token + behind) matches Some((_, n)) && n == token.len(),
        other.len() == 0 || is_space(other[0]) || (behind.len() > 0 && other[0] == behind[0]),
    ensures
        token_at(token + other) == token_at(token + behind),
{
    let s = token + behind;
    let t = token + other;
    let n = token.len();
    lemma_token_bounds(s);
    lemma_word_len_bound(s);
    assert(s[0] == t[0]);
    if word_len(s) > 0 {
        assert forall|i: int| 0 <= i < n implies is_word_char(#[trigger] t[i]) by {
            assert(t[i] == s[i]);
        }
        if n < t.len() {
            assert(t[n as int] == other[0]);
            if behind.len() > 0 {
                assert(s[n as int] == behind[0]);
            }
        }
        lemma_word_len_unique(t, n);
        assert(t.take(n as int) == s.take(n as int));
    } else if double_token(s) is Some {
        assert(s[1] == t[1]);
    } else {
        if t.len() >= 2 {
            assert(t[1] == other[0]);
            if behind.len() > 0 {
                assert(s[1] == behind[0]);
            }
        }
    }
}

/// Whether position `i` of `s` lies between tokens: in the whitespace before
/// the first token, at either end of it, or behind the first token at such a
/// position of the text that follows it. Positions run from 0 to the
/// length of `s`.
pub open spec fn is_gap(s: Seq<char>, i: int) -> bool
    decreases s.len(),
{
    let lead = space_len(s);
    if 0 <= i <= lead {
        true
    } else {
        match token_at(s.skip(lead as int)) {
            Some((_, n)) => {
                proof {
                    lemma_space_len_bound(s);
                    lemma_token_bounds(s.skip(lead as int));
                }
                lead + n <= i && is_gap(s.skip((lead + n) as int), i - (lead + n))
            },
            None => false,
        }
    }
}

/// A position between tokens is a position of the text.
pub proof fn lemma_gap_bound(s: Seq<char>, i: int)
    requires
        is_gap(s, i),
    ensures
        0 <= i <= s.len(),
    decreases s.len(),
{
    let lead = space_len(s);
    lemma_space_len_bound(s);
    if !(0 <= i <= lead) {
        let (_, n) = token_at(s.skip(lead as int)).unwrap();
        lemma_token_bounds(s.skip(lead as int));
        lemma_gap_bound(s.skip((lead + n) as int), i - (lead + n));
    }
}

/// A position between tokens that lies behind the leading whitespace lies
/// behind the first token, between the tokens of what follows it.
proof fn lemma_gap_behind_token(s: Seq<char>, i: int)
    requires
        is_gap(s, i),
        i > space_len(s),
    ensures
        token_at(s.skip(space_len(s) as int)) matches Some((_, n)) && {
            &&& 0 < n
            &&& space_len(s) + n <= i <= s.len()
            &&& is_gap(s.skip((space_len(s) + n) as int), i - (space_len(s) + n))
        },
{
    lemma_gap_bound(s, i);
    lemma_token_bounds(s.skip(space_len(s) as int));
}

/// Whitespace put into the leading whitespace of a text makes that
/// whitespace longer and changes nothing behind it.
proof fn lemma_space_in_lead(s: Seq<char>, i: int, space: Seq<char>)
    requires
        0 <= i <= space_len(s),
        is_blank(space),
    ensures
        ({
            let wide = s.take(i) + space + s.skip(i);
            &&& space_len(wide) == space_len(s) + space.len()
            &&& wide.skip(space_len(wide) as int) == s.skip(space_len(s) as int)
        }),
{
    let lead = space_len(s);
    let wide = s.take(i) + space + s.skip(i);
    let more = lead + space.len();
    lemma_space_len_bound(s);
    assert forall|k: int| 0 <= k < more implies is_space(#[trigger] wide[k]) by {
        if k < i {
            assert(wide[k] == s[k]);
        } else if k < i + space.len() {
            assert(wide[k] == space[k - i]);
        } else {
            assert(wide[k] == s[k - space.len()]);
        }
    }
    if more < wide.len() {
        assert(wide[more as int] == s[lead as int]);
    }
    lemma_space_len_unique(wide, more);
    assert(wide.skip(more as int) == s.skip(lead as int));
}

/// Putting text into a text at position `i` is putting it into the part
/// behind position `m` and leaving the part before `m` as it is.
proof fn lemma_insert_behind(s: Seq<char>, m: int, i: int, space: Seq<char>)
    requires
        0 <= m <= i <= s.len(),
    ensures
        s.take(i) + space + s.skip(i) == s.take(m) + (s.skip(m).take(i - m) + space + s.skip(
            m,
        ).skip(i - m)),
{
}

/// Text put in behind the first `n` characters of a text, at least one of
/// which lies behind its leading whitespace, leaves that whitespace as long
/// as it was.
proof fn lemma_space_before_change(s: Seq<char>, n: int, other: Seq<char>)
    requires
        space_len(s) < n <= s.len(),
    ensures
        space_len(s.take(n) + other) == space_len(s),
        (s.take(n) + other).skip(space_len(s) as int) == s.skip(space_len(s) as int).take(
            n - space_len(s),
        ) + other,
{
    let lead = space_len(s);
    let wide = s.take(n) + other;
    lemma_space_len_bound(s);
    assert forall|k: int| 0 <= k < lead implies is_space(#[trigger] wide[k]) by {
        assert(wide[k] == s[k]);
    }
    assert(wide[lead as int] == s[lead as int]);
    lemma_space_len_unique(wide, lead);
}

/// A token keeps what it is, and the text its tokens and its completeness,
/// where the text behind the token is replaced by one with the same tokens
/// and completeness that is empty, or begins with whitespace, or begins with
/// the same character.
proof fn lemma_same_behind_token(token: Seq<char>, behind: Seq<char>, other: Seq<char>)
    requires
        token_at(token + behind) matches Some((_, n)) && n == token.len(),
        other.len() == 0 || is_space(other[0]) || (behind.len() > 0 && other[0] == behind[0]),
        lexemes(other) == lexemes(behind),
        complete(other) == complete(behind),
    ensures
        lexemes(token + other) == lexemes(token + behind),
        complete(token + other) == complete(token + behind),
{
    lemma_token_context(token, behind, other);
    lemma_first_token(token + other);
    lemma_first_token(token + behind);
    assert((token + other).skip(token.len() as int) == other);
    assert((token + behind).skip(token.len() as int) == behind);
}

/// Whitespace put in behind the first token of a text changes neither its
/// tokens nor its completeness, where it changes neither of the text behind
/// that token.
proof fn lemma_space_behind_first_token(s: Seq<char>, i: int, space: Seq<char>)
    requires
        is_gap(s, i),
        i > space_len(s),
        is_blank(space),
        space.len() > 0,
        ({
            let lead = space_len(s);
            let (_, n) = token_at(s.skip(lead as int)).unwrap();
            let behind = s.skip((lead + n) as int);
            let j = i - (lead + n);
            let other = behind.take(j) + space + behind.skip(j);
            lexemes(other) == lexemes(behind) && complete(other) == complete(behind)
        }),
    ensures
        lexemes(s.take(i) + space + s.skip(i)) == lexemes(s),
        complete(s.take(i) + space + s.skip(i)) == complete(s),
{
    let lead = space_len(s);
    let wide = s.take(i) + space + s.skip(i);
    let word = s.skip(lead as int);
    let (_, n) = token_at(word).unwrap();
    let token = word.take(n as int);
    let behind = s.skip((lead + n) as int);
    let j = i - (lead + n);
    let other = behind.take(j) + space + behind.skip(j);
    lemma_gap_behind_token(s, i);
    lemma_gap_bound(behind, j);
    lemma_insert_behind(s, (lead + n) as int, i, space);
    lemma_space_before_change(s, (lead + n) as int, other);
    assert(word == token + behind);
    assert(other[0] == if j > 0 {
        behind[0]
    } else {
        space[0]
    });
    lemma_same_behind_token(token, behind, other);
    lemma_leading_space(wide);
    lemma_leading_space(s);
}

/// Whitespace between tokens does not count: with any run of whitespace put
/// in at a position between tokens, the text has the same tokens, and is
/// complete when the text without it is.
pub proof fn lemma_space_between_tokens(s: Seq<char>, i: int, space: Seq<char>)
    requires
        is_gap(s, i),
        is_blank(space),
    ensures
        lexemes(s.take(i) + space + s.skip(i)) == lexemes(s),
        complete(s.take(i) + space + s.skip(i)) == complete(s),
    decreases s.len(),
{
    let lead = space_len(s);
    lemma_gap_bound(s, i);
    if space.len() == 0 {
        assert(s.take(i) + space + s.skip(i) == s);
    } else if i <= lead {
        lemma_space_in_lead(s, i, space);
        lemma_leading_space(s.take(i) + space + s.skip(i));
        lemma_leading_space(s);
    } else {
        lemma_gap_behind_token(s, i);
        let (_, n) = token_at(s.skip(lead as int)).unwrap();
        lemma_space_between_tokens(s.skip((lead + n) as int), i - (lead + n), space);
        lemma_space_behind_first_token(s, i, space);
    }
}

} // verus!
