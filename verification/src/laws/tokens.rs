//! Single tokens: what a word and a symbol come out as.

use vstd::prelude::*;
use crate::chars::{is_number_char, is_space, is_word_char};
use crate::laws::completeness::lemma_remainder_step;
use crate::laws::spacing::lemma_first_token;
use crate::laws::text::written;
use crate::lexer::{
    complete, lemma_spaced_token_bounds, lemma_token_bounds, lexemes, spaced_token, token_at,
};
use crate::scan::{lemma_word_len_bound, space_len, starts_with, word_len};
use crate::symbol::{double_symbol, double_token, single_token};
use crate::token::Lexeme;
use crate::word::{classify, is_number_text, keyword};

verus! {

/// The spellings of the keywords, character by character.
pub proof fn lemma_keyword_spellings()
    ensures
        "module"@ == seq!['m', 'o', 'd', 'u', 'l', 'e'],
        "input"@ == seq!['i', 'n', 'p', 'u', 't'],
        "output"@ == seq!['o', 'u', 't', 'p', 'u', 't'],
        "reg"@ == seq!['r', 'e', 'g'],
        "wire"@ == seq!['w', 'i', 'r', 'e'],
        "begin"@ == seq!['b', 'e', 'g', 'i', 'n'],
        "end"@ == seq!['e', 'n', 'd'],
        "if"@ == seq!['i', 'f'],
        "else"@ == seq!['e', 'l', 's', 'e'],
        "always"@ == seq!['a', 'l', 'w', 'a', 'y', 's'],
        "posedge"@ == seq!['p', 'o', 's', 'e', 'd', 'g', 'e'],
        "negedge"@ == seq!['n', 'e', 'g', 'e', 'd', 'g', 'e'],
        "endmodule"@ == seq!['e', 'n', 'd', 'm', 'o', 'd', 'u', 'l', 'e'],
        "assign"@ == seq!['a', 's', 's', 'i', 'g', 'n'],
{
    reveal_strlit("module");
    reveal_strlit("input");
    reveal_strlit("output");
    reveal_strlit("reg");
    reveal_strlit("wire");
    reveal_strlit("begin");
    reveal_strlit("end");
    reveal_strlit("if");
    reveal_strlit("else");
    reveal_strlit("always");
    reveal_strlit("posedge");
    reveal_strlit("negedge");
    reveal_strlit("endmodule");
    reveal_strlit("assign");
}

/// The spellings of the symbols, character by character.
pub proof fn lemma_symbol_spellings()
    ensures
        ","@ == seq![','],
        ";"@ == seq![';'],
        "("@ == seq!['('],
        ")"@ == seq![')'],
        "["@ == seq!['['],
        "]"@ == seq![']'],
        "+"@ == seq!['+'],
        "-"@ == seq!['-'],
        "*"@ == seq!['*'],
        "/"@ == seq!['/'],
        "%"@ == seq!['%'],
        "&"@ == seq!['&'],
        "|"@ == seq!['|'],
        "^"@ == seq!['^'],
        "<"@ == seq!['<'],
        ">"@ == seq!['>'],
        "="@ == seq!['='],
        ":"@ == seq![':'],
        "@"@ == seq!['@'],
        "=="@ == seq!['=', '='],
        "!="@ == seq!['!', '='],
        "=<"@ == seq!['=', '<'],
        "=>"@ == seq!['=', '>'],
        "&&"@ == seq!['&', '&'],
        "||"@ == seq!['|', '|'],
        "<<"@ == seq!['<', '<'],
        ">>"@ == seq!['>', '>'],
        "<="@ == seq!['<', '='],
{
    reveal_strlit(",");
    reveal_strlit(";");
    reveal_strlit("(");
    reveal_strlit(")");
    reveal_strlit("[");
    reveal_strlit("]");
    reveal_strlit("+");
    reveal_strlit("-");
    reveal_strlit("*");
    reveal_strlit("/");
    reveal_strlit("%");
    reveal_strlit("&");
    reveal_strlit("|");
    reveal_strlit("^");
    reveal_strlit("<");
    reveal_strlit(">");
    reveal_strlit("=");
    reveal_strlit(":");
    reveal_strlit("@");
    reveal_strlit("==");
    reveal_strlit("!=");
    reveal_strlit("=<");
    reveal_strlit("=>");
    reveal_strlit("&&");
    reveal_strlit("||");
    reveal_strlit("<<");
    reveal_strlit(">>");
    reveal_strlit("<=");
}

/// A text that is one token from end to end has that token and no other,
/// and is complete.
pub proof fn lemma_single_token(s: Seq<char>)
    requires
        token_at(s) matches Some((_, n)) && n == s.len(),
    ensures
        token_at(s) matches Some((lexeme, _)) && lexemes(s) == seq![lexeme],
        complete(s),
{
    let none = s.skip(s.len() as int);
    lemma_first_token(s);
    lemma_remainder_step(none);
    assert(none.skip(0) == none);
    assert(lexemes(none) == Seq::<Lexeme>::empty());
}

/// Keywords win over identifiers and numbers, and only as whole words. Where
/// `s` begins with a word, the token is made of all of that word: the keyword
/// if the word spells one, else a number or an identifier that holds the
/// word. A keyword comes out only where the word is exactly its spelling.
/// Where the word is all of `s`, that token is the only one.
pub proof fn lemma_keyword_precedence(s: Seq<char>)
    requires
        word_len(s) > 0,
    ensures
        ({
            let word = s.take(word_len(s) as int);
            &&& token_at(s) == Some((classify(word), word_len(s)))
            &&& keyword(word) matches Some(k) ==> classify(word) == k && k.spelling() == word
            &&& keyword(word) is None ==> classify(word) == Lexeme::Number(word) || classify(word)
                == Lexeme::Identifier(word)
            &&& classify(word).is_word()
            &&& classify(word).spelling() == word
            &&& word_len(s) == s.len() ==> lexemes(s) == seq![classify(s)]
        }),
{
    if word_len(s) == s.len() {
        assert(s.take(s.len() as int) == s);
        lemma_single_token(s);
    }
}

/// The longest symbol wins. Where `s` begins with a two-character spelling,
/// the token is that of the two characters, never that of the first alone.
/// Where the two characters are all of `s`, that token is the only one.
pub proof fn lemma_longest_symbol(s: Seq<char>)
    requires
        s.len() >= 2,
        double_symbol(s[0], s[1]) is Some,
    ensures
        token_at(s) == Some((double_symbol(s[0], s[1])->0, 2nat)),
        s.len() == 2 ==> lexemes(s) == seq![double_symbol(s[0], s[1])->0],
{
    if s.len() == 2 {
        lemma_single_token(s);
    }
}

/// Among the symbols whose spelling starts a text, the longest is scanned:
/// where `s` begins with the spelling of the symbol `lexeme`, a token is
/// scanned that is no shorter, and that is `lexeme` itself if it is no
/// longer.
pub proof fn lemma_longest_match(s: Seq<char>, lexeme: Lexeme)
    requires
        !lexeme.is_word(),
        starts_with(s, lexeme.spelling()),
    ensures
        token_at(s) matches Some((found, n)) && n >= lexeme.spelling().len() && (n
            == lexeme.spelling().len() ==> found == lexeme),
{
    lemma_symbol_spellings();
    let spelling = lexeme.spelling();
    assert(s[0] == spelling[0]);
    if spelling.len() == 2 {
        assert(s[1] == spelling[1]);
    }
}

/// A word of number characters is one number. Where `s` begins with a word
/// whose characters may all stand in a numeric literal, the token is a
/// number that holds the whole word: no keyword is spelled that way, and the
/// word is not split. Where the word is all of `s`, that number is the only
/// token.
pub proof fn lemma_number_cohesion(s: Seq<char>)
    requires
        word_len(s) > 0,
        is_number_text(s.take(word_len(s) as int)),
    ensures
        token_at(s) == Some((Lexeme::Number(s.take(word_len(s) as int)), word_len(s))),
        word_len(s) == s.len() ==> lexemes(s) == seq![Lexeme::Number(s)],
{
    let word = s.take(word_len(s) as int);
    lemma_keyword_spellings();
    if keyword(word) is Some {
        assert(is_number_char(word[0]));
        assert(is_number_char(word[1]));
        assert(is_number_char(word[2]));
    }
    if word_len(s) == s.len() {
        assert(word == s);
        lemma_single_token(s);
    }
}

/// A token is written as the text it was scanned from: the characters that
/// it takes up are its spelling.
pub proof fn lemma_token_spelling(s: Seq<char>)
    ensures
        token_at(s) matches Some((lexeme, n)) ==> n <= s.len() && s.take(n as int)
            == lexeme.spelling(),
{
    lemma_token_bounds(s);
    lemma_symbol_spellings();
    if word_len(s) > 0 {
        lemma_keyword_precedence(s);
    } else if double_token(s) is Some {
        assert(s.take(2) == seq![s[0], s[1]]);
    } else if single_token(s) is Some {
        assert(s.take(1) == seq![s[0]]);
    }
}

/// No character of a token is whitespace.
pub proof fn lemma_token_solid(s: Seq<char>, i: int)
    requires
        token_at(s) matches Some((_, n)) && 0 <= i < n,
    ensures
        !is_space(s[i]),
{
    lemma_word_len_bound(s);
}

/// An identifier or a number holds a word: its text is not empty and made
/// of word characters alone. A number is made of number characters alone; an
/// identifier is not, and spells no keyword.
pub open spec fn well_formed(lexeme: Lexeme) -> bool {
    match lexeme {
        Lexeme::Identifier(text) => {
            &&& text.len() > 0
            &&& forall|i: int| 0 <= i < text.len() ==> is_word_char(#[trigger] text[i])
            &&& !is_number_text(text)
            &&& keyword(text) is None
        },
        Lexeme::Number(text) => {
            &&& text.len() > 0
            &&& forall|i: int| 0 <= i < text.len() ==> is_word_char(#[trigger] text[i])
            &&& is_number_text(text)
        },
        _ => true,
    }
}

/// Every token that is scanned is well formed.
pub proof fn lemma_token_well_formed(s: Seq<char>)
    ensures
        token_at(s) matches Some((lexeme, _)) ==> well_formed(lexeme),
{
    lemma_word_len_bound(s);
    if word_len(s) > 0 {
        let word = s.take(word_len(s) as int);
        assert forall|i: int| 0 <= i < word.len() implies is_word_char(#[trigger] word[i]) by {
            assert(word[i] == s[i]);
        }
    }
}

/// Every token of a text is well formed.
pub proof fn lemma_lexemes_well_formed(s: Seq<char>, k: int)
    requires
        0 <= k < lexemes(s).len(),
    ensures
        well_formed(lexemes(s)[k]),
    decreases s.len(),
{
    lemma_spaced_token_bounds(s);
    let (_, n) = spaced_token(s).unwrap();
    if k == 0 {
        lemma_token_well_formed(s.skip(space_len(s) as int));
    } else {
        lemma_lexemes_well_formed(s.skip(n as int), k - 1);
    }
}

} // verus!
