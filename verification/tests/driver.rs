use verilog_lexer::lexer::{token, tokenize, tokens, whitespace, LexError};
use verilog_lexer::scan::skip_space;
use verilog_lexer::Token;

#[test]
fn empty_text_has_no_tokens() {
    assert_eq!(tokens(""), ("", vec![]));
    assert_eq!(tokenize(""), Ok((vec![], "")));
    assert_eq!(token(""), None);
    assert_eq!(whitespace(""), None);
}

#[test]
fn blank_text_is_left_as_it_is() {
    assert_eq!(tokens(" \t\r\n"), (" \t\r\n", vec![]));
    assert_eq!(tokenize(" \t\r\n"), Ok((vec![], " \t\r\n")));
    assert_eq!(tokenize(" "), Ok((vec![], " ")));
}

#[test]
fn whitespace_is_skipped_on_both_sides() {
    assert_eq!(whitespace("  x  y"), Some(("y", Token::Identifier("x"))));
    assert_eq!(whitespace("\t\n;\r\n"), Some(("", Token::Semicolon)));
    assert_eq!(whitespace("x"), Some(("", Token::Identifier("x"))));
    assert_eq!(whitespace("  $"), None);
    assert_eq!(whitespace("   "), None);
    assert_eq!(token(" a"), None);
}

#[test]
fn skip_space_stops_at_the_first_other_character() {
    assert_eq!(skip_space("  x "), "x ");
    assert_eq!(skip_space(" \t\r\n21c"), "21c");
    assert_eq!(skip_space("Z21c"), "Z21c");
    assert_eq!(skip_space(""), "");
    assert_eq!(skip_space("\n\n"), "");
    assert_eq!(skip_space("\u{00a0}x"), "\u{00a0}x");
    assert_eq!(skip_space("\u{000b}x"), "\u{000b}x");
}

#[test]
fn trailing_whitespace_goes_with_the_last_token() {
    assert_eq!(tokens("x ; \n"), ("", vec![Token::Identifier("x"), Token::Semicolon]));
    assert_eq!(tokenize("  endmodule  \n"), Ok((vec![Token::EndModule], "")));
}

#[test]
fn scanning_stops_at_the_first_unknown_character() {
    assert_eq!(tokens("x $ y"), ("$ y", vec![Token::Identifier("x")]));
    assert_eq!(tokens("  $"), ("  $", vec![]));
    assert_eq!(tokens("x = 1 ? 2"), ("? 2", vec![Token::Identifier("x"), Token::BlockAssign, Token::Number("1")]));
    assert_eq!(tokens("x!y"), ("!y", vec![Token::Identifier("x")]));
}

#[test]
fn failure_names_the_position_of_the_unknown_character() {
    assert_eq!(tokenize("$"), Err(LexError::UnrecognizedInputAt(0)));
    assert_eq!(tokenize("  $"), Err(LexError::UnrecognizedInputAt(2)));
    assert_eq!(tokenize("a $ b"), Err(LexError::UnrecognizedInputAt(2)));
    assert_eq!(tokenize("a$"), Err(LexError::UnrecognizedInputAt(1)));
    assert_eq!(tokenize("count <= 8'h00 # 1;"), Err(LexError::UnrecognizedInputAt(15)));
    assert_eq!(tokenize("a\n\t{"), Err(LexError::UnrecognizedInputAt(3)));
    assert_eq!(tokenize("!"), Err(LexError::UnrecognizedInputAt(0)));
    assert_eq!(tokenize("a ! = b"), Err(LexError::UnrecognizedInputAt(2)));
    assert_eq!(tokenize("x = \"s\""), Err(LexError::UnrecognizedInputAt(4)));
    assert_eq!(tokenize("a.b"), Err(LexError::UnrecognizedInputAt(1)));
    assert_eq!(tokenize("~a"), Err(LexError::UnrecognizedInputAt(0)));
}

#[test]
fn positions_count_characters() {
    assert_eq!(tokenize("é $"), Err(LexError::UnrecognizedInputAt(2)));
    assert_eq!(tokenize("größe ä€"), Err(LexError::UnrecognizedInputAt(7)));
    assert_eq!(tokenize("藏\u{00a0}"), Err(LexError::UnrecognizedInputAt(1)));
}

#[test]
fn the_same_text_gives_the_same_tokens() {
    let text = "always @(posedge clk) begin q <= d; end";
    let first = tokenize(text);
    let second = tokenize(text);
    assert_eq!(first, second);
    assert_eq!(tokens(text), tokens(text));
    let copy = String::from(text);
    assert_eq!(tokenize(&copy), first);
    let bad = "q <= d ? 1";
    assert_eq!(tokenize(bad), tokenize(bad));
    assert_eq!(tokenize(bad), Err(LexError::UnrecognizedInputAt(7)));
}

#[test]
fn extra_whitespace_changes_no_token() {
    let expected = vec![
        Token::Identifier("count"),
        Token::NonBlockAssign,
        Token::Identifier("count"),
        Token::Plus,
        Token::Number("1"),
        Token::Semicolon,
    ];
    assert_eq!(tokenize("count<=count+1;"), Ok((expected.clone(), "")));
    assert_eq!(tokenize("count <= count + 1;"), Ok((expected.clone(), "")));
    assert_eq!(tokenize("  count\n<=\tcount\r\n+   1 ;  "), Ok((expected.clone(), "")));
    assert_eq!(tokenize("\n\n\ncount <=\n\n count +1\n;\n"), Ok((expected.clone(), "")));
    assert_eq!(tokens(" count<= count+1 ; ").1, expected);
}

#[test]
fn whitespace_inside_a_token_does_change_it() {
    assert_eq!(tokenize("count"), Ok((vec![Token::Identifier("count")], "")));
    assert_eq!(tokenize("cou nt"), Ok((vec![Token::Identifier("cou"), Token::Identifier("nt")], "")));
    assert_eq!(tokenize("8'hff"), Ok((vec![Token::Number("8'hff")], "")));
    assert_eq!(tokenize("8 'hff"), Ok((vec![Token::Number("8"), Token::Number("'hff")], "")));
    assert_eq!(tokenize("! ="), Err(LexError::UnrecognizedInputAt(0)));
}

#[test]
fn text_of_known_characters_is_tokenized_to_its_end() {
    let text = "wire [3:0] w; assign w = a & b | c ^ d; if (a != b && c == d || e =< f) x = y << 2 >> 1 % 3 * 4 / 5 - 6;";
    let (rest, found) = tokens(text);
    assert_eq!(rest, "");
    assert_eq!(found.len(), 49);
    assert_eq!(found[0], Token::Wire);
    assert_eq!(found[22], Token::NOT_EQ);
    assert_eq!(found[30], Token::LT_EQ);
    assert_eq!(found[48], Token::Semicolon);
    assert_eq!(tokenize(text), Ok((found, "")));
    assert_eq!(tokenize(")) ]] end end (( begin").map(|r| r.0.len()), Ok(9));
}

#[test]
fn tokens_keep_their_source_order() {
    assert_eq!(
        tokenize("reg [7:0] count;"),
        Ok((
            vec![
                Token::Reg,
                Token::LBracket,
                Token::Number("7"),
                Token::Colon,
                Token::Number("0"),
                Token::RBracket,
                Token::Identifier("count"),
                Token::Semicolon,
            ],
            ""
        ))
    );
}

#[test]
fn tokens_borrow_from_the_source() {
    let source = String::from("alpha 8'hff");
    let (rest, found) = tokens(&source);
    assert_eq!(rest, "");
    match (&found[0], &found[1]) {
        (Token::Identifier(a), Token::Number(b)) => {
            assert_eq!(a.as_ptr(), source.as_ptr());
            assert_eq!(b.as_ptr(), source[6..].as_ptr());
            assert_eq!(*a, "alpha");
            assert_eq!(*b, "8'hff");
        }
        _ => panic!("an identifier and a number"),
    }
}
