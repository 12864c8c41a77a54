use verilog_lexer::chars::{number_char, word_char, word_char_given};
use verilog_lexer::lexer::{token, tokenize};
use verilog_lexer::word::{classify_word, is_number, token_identifier};
use verilog_lexer::Token;

#[test]
fn every_keyword_is_its_own_token() {
    assert_eq!(token_identifier("module"), Some(("", Token::Module)));
    assert_eq!(token_identifier("input"), Some(("", Token::Input)));
    assert_eq!(token_identifier("output"), Some(("", Token::Output)));
    assert_eq!(token_identifier("reg"), Some(("", Token::Reg)));
    assert_eq!(token_identifier("wire"), Some(("", Token::Wire)));
    assert_eq!(token_identifier("begin"), Some(("", Token::Begin)));
    assert_eq!(token_identifier("end"), Some(("", Token::End)));
    assert_eq!(token_identifier("if"), Some(("", Token::If)));
    assert_eq!(token_identifier("else"), Some(("", Token::Else)));
    assert_eq!(token_identifier("always"), Some(("", Token::Always)));
    assert_eq!(token_identifier("posedge"), Some(("", Token::Posedge)));
    assert_eq!(token_identifier("negedge"), Some(("", Token::Negedge)));
    assert_eq!(token_identifier("endmodule"), Some(("", Token::EndModule)));
    assert_eq!(token_identifier("assign"), Some(("", Token::Assign)));
}

#[test]
fn begin_is_a_keyword_and_beginner_is_not() {
    assert_eq!(tokenize("begin"), Ok((vec![Token::Begin], "")));
    assert_eq!(tokenize("beginner"), Ok((vec![Token::Identifier("beginner")], "")));
    assert_eq!(tokenize("begins"), Ok((vec![Token::Identifier("begins")], "")));
    assert_eq!(tokenize("begi"), Ok((vec![Token::Identifier("begi")], "")));
    assert_eq!(tokenize("Begin"), Ok((vec![Token::Identifier("Begin")], "")));
    assert_eq!(tokenize("begin_"), Ok((vec![Token::Identifier("begin_")], "")));
}

#[test]
fn a_keyword_ends_where_its_word_ends() {
    assert_eq!(token("end;"), Some((";", Token::End)));
    assert_eq!(token("endmodule\n"), Some(("\n", Token::EndModule)));
    assert_eq!(token("if("), Some(("(", Token::If)));
    assert_eq!(token("modules x"), Some((" x", Token::Identifier("modules"))));
}

#[test]
fn a_sized_literal_is_one_number() {
    assert_eq!(tokenize("8'hff"), Ok((vec![Token::Number("8'hff")], "")));
    assert_eq!(tokenize("8'h00"), Ok((vec![Token::Number("8'h00")], "")));
    assert_eq!(tokenize("4'b1010"), Ok((vec![Token::Number("4'b1010")], "")));
    assert_eq!(tokenize("12'o777"), Ok((vec![Token::Number("12'o777")], "")));
    assert_eq!(tokenize("16'd255"), Ok((vec![Token::Number("16'd255")], "")));
    assert_eq!(tokenize("42"), Ok((vec![Token::Number("42")], "")));
}

#[test]
fn a_name_of_hex_letters_counts_as_a_number() {
    assert_eq!(tokenize("deadbeef"), Ok((vec![Token::Number("deadbeef")], "")));
    assert_eq!(tokenize("bad"), Ok((vec![Token::Number("bad")], "")));
    assert_eq!(tokenize("face"), Ok((vec![Token::Number("face")], "")));
    assert_eq!(tokenize("hood"), Ok((vec![Token::Number("hood")], "")));
    assert_eq!(tokenize("DEAD"), Ok((vec![Token::Number("DEAD")], "")));
    assert_eq!(tokenize("feed_me"), Ok((vec![Token::Identifier("feed_me")], "")));
    assert_eq!(tokenize("HOOD"), Ok((vec![Token::Identifier("HOOD")], "")));
}

#[test]
fn is_number_looks_at_the_characters_alone() {
    assert!(is_number("8'hff"));
    assert!(is_number("0123456789"));
    assert!(is_number("abcdef"));
    assert!(is_number("ABCDEF"));
    assert!(is_number("bhdo"));
    assert!(is_number("'"));
    assert!(is_number("'''"));
    assert!(is_number(""));
    assert!(!is_number("g"));
    assert!(!is_number("8'hfg"));
    assert!(!is_number("0x1f"));
    assert!(!is_number("1_000"));
    assert!(!is_number("H"));
    assert!(!is_number("12 "));
    assert!(!is_number("٣"));
}

#[test]
fn number_characters() {
    for c in "0123456789abcdefABCDEFbhdo'".chars() {
        assert!(number_char(c));
    }
    for c in "gijklmnpqrstuvwxyzGHIJKLMNOPQRSTUVWXYZ_ +-/:@`{é".chars() {
        assert!(!number_char(c));
    }
}

#[test]
fn word_characters() {
    for c in "azAZ09_'mM5".chars() {
        assert!(word_char(c));
    }
    for c in " \t\r\n,;()[]+-*/%&|^<>=!:@$#\"`{}~\\.?".chars() {
        assert!(!word_char(c));
    }
    assert!(word_char('é'));
    assert!(word_char('藏'));
    assert!(word_char('٣'));
    assert!(word_char('¾'));
    assert!(!word_char('\u{00a0}'));
    assert!(!word_char('€'));
    assert!(!word_char('\u{7f}'));
}

#[test]
fn underscore_and_tick_join_letters_and_digits() {
    assert!(word_char_given(true, 'x'));
    assert!(word_char_given(true, '+'));
    assert!(word_char_given(false, '_'));
    assert!(word_char_given(false, '\''));
    assert!(!word_char_given(false, 'x'));
    assert!(!word_char_given(false, '-'));
    assert!(!word_char_given(false, '`'));
}

#[test]
fn a_word_is_scanned_to_its_end() {
    assert_eq!(token_identifier("count+1"), Some(("+1", Token::Identifier("count"))));
    assert_eq!(token_identifier("data_in, x"), Some((", x", Token::Identifier("data_in"))));
    assert_eq!(token_identifier("x"), Some(("", Token::Identifier("x"))));
    assert_eq!(token_identifier("a"), Some(("", Token::Number("a"))));
    assert_eq!(token_identifier("_"), Some(("", Token::Identifier("_"))));
    assert_eq!(token_identifier("'"), Some(("", Token::Number("'"))));
    assert_eq!(token_identifier("größe = 1"), Some((" = 1", Token::Identifier("größe"))));
    assert_eq!(token_identifier("x1y2 "), Some((" ", Token::Identifier("x1y2"))));
}

#[test]
fn no_word_where_none_starts() {
    assert_eq!(token_identifier(""), None);
    assert_eq!(token_identifier(" a"), None);
    assert_eq!(token_identifier("+a"), None);
    assert_eq!(token_identifier("(x)"), None);
    assert_eq!(token_identifier("\nmodule"), None);
}

#[test]
fn a_word_comes_before_any_symbol() {
    assert_eq!(token("x=y"), Some(("=y", Token::Identifier("x"))));
    assert_eq!(token("=b"), Some(("b", Token::BlockAssign)));
    assert_eq!(token("7:0"), Some((":0", Token::Number("7"))));
}

#[test]
fn classification_goes_by_the_whole_word() {
    assert_eq!(classify_word("wire"), Token::Wire);
    assert_eq!(classify_word("wires"), Token::Identifier("wires"));
    assert_eq!(classify_word("wir"), Token::Identifier("wir"));
    assert_eq!(classify_word("end"), Token::End);
    assert_eq!(classify_word("endmodule"), Token::EndModule);
    assert_eq!(classify_word("endmodul"), Token::Identifier("endmodul"));
    assert_eq!(classify_word("if"), Token::If);
    assert_eq!(classify_word("f"), Token::Number("f"));
    assert_eq!(classify_word("0"), Token::Number("0"));
    assert_eq!(classify_word("8'hff"), Token::Number("8'hff"));
    assert_eq!(classify_word("8'hfz"), Token::Identifier("8'hfz"));
    assert_eq!(classify_word("x"), Token::Identifier("x"));
    assert_eq!(classify_word("größe"), Token::Identifier("größe"));
}
