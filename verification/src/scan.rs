//! The three scanning primitives, which `nom` performs: a run of word
//! characters, a fixed spelling, a run of whitespace.
//!
//! `identifier`, `literal` and `multispace` each state what a `nom`
//! combinator returns on a `&str`, over the text as a sequence of
//! characters. Those three contracts are taken on trust; everything else,
//! here and in the modules built on top, is proved.

use vstd::prelude::*;
use crate::chars::{is_space, is_word_char, word_char};
use crate::token::{Lexeme, Token};

verus! {

/// `nom::Err`, the failure of a `nom` parser. It is carried through
/// unopened: the library only tells success from failure.
#[verifier::external_type_specification]
#[verifier::external_body]
#[verifier::reject_recursive_types(E)]
pub struct ExErr<E>(nom::Err<E>);

/// `nom::error::Error`, the place and kind of a failure that `nom::Err`
/// holds. It is carried through unopened as well.
#[verifier::external_type_specification]
#[verifier::external_body]
#[verifier::reject_recursive_types(I)]
pub struct ExError<I>(nom::error::Error<I>);

/// The number of word characters at the start of `s`, up to the first
/// character that is none.
pub open spec fn word_len(s: Seq<char>) -> nat
    decreases s.len(),
{
    if s.len() > 0 && is_word_char(s[0]) {
        1 + word_len(s.skip(1))
    } else {
        0
    }
}

/// The number of whitespace characters at the start of `s`, up to the first
/// character that is none.
pub open spec fn space_len(s: Seq<char>) -> nat
    decreases s.len(),
{
    if s.len() > 0 && is_space(s[0]) {
        1 + space_len(s.skip(1))
    } else {
        0
    }
}

/// What `word_len` counts: the characters before position `word_len(s)` are
/// all word characters, and the character at that position, if there is one,
/// is none.
pub proof fn lemma_word_len_bound(s: Seq<char>)
    ensures
        word_len(s) <= s.len(),
        forall|i: int| 0 <= i < word_len(s) ==> is_word_char(#[trigger] s[i]),
        word_len(s) < s.len() ==> !is_word_char(s[word_len(s) as int]),
    decreases s.len(),
{
    if s.len() > 0 && is_word_char(s[0]) {
        let t = s.skip(1);
        lemma_word_len_bound(t);
        assert forall|i: int| 0 <= i < word_len(s) implies is_word_char(#[trigger] s[i]) by {
            if i > 0 {
                assert(s[i] == t[i - 1]);
            }
        }
    }
}

/// The only position that splits `s` into word characters and a character
/// that is none is `word_len(s)`.
pub proof fn lemma_word_len_unique(s: Seq<char>, n: nat)
    requires
        n <= s.len(),
        forall|i: int| 0 <= i < n ==> is_word_char(#[trigger] s[i]),
        n < s.len() ==> !is_word_char(s[n as int]),
    ensures
        word_len(s) == n,
    decreases s.len(),
{
    if n > 0 {
        let t = s.skip(1);
        assert(is_word_char(s[0]));
        assert forall|i: int| 0 <= i < n - 1 implies is_word_char(#[trigger] t[i]) by {
            assert(t[i] == s[i + 1]);
        }
        lemma_word_len_unique(t, (n - 1) as nat);
    }
}

/// What `space_len` counts: the characters before position `space_len(s)`
/// are all whitespace, and the character at that position, if there is one,
/// is none.
pub proof fn lemma_space_len_bound(s: Seq<char>)
    ensures
        space_len(s) <= s.len(),
        forall|i: int| 0 <= i < space_len(s) ==> is_space(#[trigger] s[i]),
        space_len(s) < s.len() ==> !is_space(s[space_len(s) as int]),
    decreases s.len(),
{
    if s.len() > 0 && is_space(s[0]) {
        let t = s.skip(1);
        lemma_space_len_bound(t);
        assert forall|i: int| 0 <= i < space_len(s) implies is_space(#[trigger] s[i]) by {
            if i > 0 {
                assert(s[i] == t[i - 1]);
            }
        }
    }
}

/// The only position that splits `s` into whitespace and a character that is
/// none is `space_len(s)`.
pub proof fn lemma_space_len_unique(s: Seq<char>, n: nat)
    requires
        n <= s.len(),
        forall|i: int| 0 <= i < n ==> is_space(#[trigger] s[i]),
        n < s.len() ==> !is_space(s[n as int]),
    ensures
        space_len(s) == n,
    decreases s.len(),
{
    if n > 0 {
        let t = s.skip(1);
        assert(is_space(s[0]));
        assert forall|i: int| 0 <= i < n - 1 implies is_space(#[trigger] t[i]) by {
            assert(t[i] == s[i + 1]);
        }
        lemma_space_len_unique(t, (n - 1) as nat);
    }
}

/// Whether `s` begins with the characters of `spelling`.
pub open spec fn starts_with(s: Seq<char>, spelling: Seq<char>) -> bool {
    &&& spelling.len() <= s.len()
    &&& forall|i: int| 0 <= i < spelling.len() ==> s[i] == spelling[i]
}

/// Whether an executable scanning result `r` on the text `input` is the
/// scan `expected`: the same token, and as remainder the text after the
/// token's characters.
pub open spec fn scanned<'a>(
    r: Option<(&'a str, Token<'a>)>,
    input: Seq<char>,
    expected: Option<(Lexeme, nat)>,
) -> bool {
    match (r, expected) {
        (Some((rest, token)), Some((lexeme, n))) => token@ == lexeme && rest@ == input.skip(
            n as int,
        ),
        (None, None) => true,
        _ => false,
    }
}

/// `nom::bytes::complete::take_while1` with the word-character test, on a
/// `&str`. It splits the input after its longest run of word characters and
/// returns the remainder first, then the run. It fails exactly when that run
/// is empty.
#[verifier::external_body]
pub(crate) fn identifier<'a>(input: &'a str) -> (r: Result<
    (&'a str, &'a str),
    nom::Err<nom::error::Error<&'a str>>,
>)
    ensures
        match r {
            Ok((rest, word)) => {
                &&& word_len(input@) > 0
                &&& word@ == input@.take(word_len(input@) as int)
                &&& rest@ == input@.skip(word_len(input@) as int)
            },
            Err(_) => word_len(input@) == 0,
        },
{
    nom::bytes::complete::take_while1(|c: char| word_char(c))(input)
}

/// `nom::bytes::complete::tag` on a `&str`. Where the input begins with
/// `spelling` it returns what follows the spelling first, then the matched
/// part; otherwise it fails.
#[verifier::external_body]
pub(crate) fn literal<'a>(spelling: &str, input: &'a str) -> (r: Result<
    (&'a str, &'a str),
    nom::Err<nom::error::Error<&'a str>>,
>)
    ensures
        match r {
            Ok((rest, found)) => {
                &&& starts_with(input@, spelling@)
                &&& found@ == spelling@
                &&& rest@ == input@.skip(spelling@.len() as int)
            },
            Err(_) => !starts_with(input@, spelling@),
        },
{
    nom::bytes::complete::tag(spelling)(input)
}

/// `nom::character::complete::multispace0` on a `&str`. It never fails: it
/// splits the input after its longest run of spaces, tabs, carriage returns
/// and line feeds, and returns the remainder first, then the run.
#[verifier::external_body]
fn multispace<'a>(input: &'a str) -> (r: Result<
    (&'a str, &'a str),
    nom::Err<nom::error::Error<&'a str>>,
>)
    ensures
        match r {
            Ok((rest, space)) => {
                &&& space@ == input@.take(space_len(input@) as int)
                &&& rest@ == input@.skip(space_len(input@) as int)
            },
            Err(_) => false,
        },
{
    nom::character::complete::multispace0(input)
}

/// Skips the whitespace at the start of `input`.
pub fn skip_space<'a>(input: &'a str) -> (rest: &'a str)
    ensures
        rest@ == input@.skip(space_len(input@) as int),
{
    match multispace(input) {
        Ok((rest, _)) => rest,
        // `multispace` never fails, so this arm is never taken.
        Err(_) => input,
    }
}

} // verus!
