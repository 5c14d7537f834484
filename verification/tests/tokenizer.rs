use sekver::tokenize::{tokenize, tokenize_or_failure, try_tokenize, Token, TokenKey, TokenizeError};

fn tok(key: TokenKey, ln: usize, col: usize, raw: Option<&str>) -> Token {
    Token { key, ln, col, raw: raw.map(|r| r.to_string()) }
}

fn keys(code: &str) -> Vec<TokenKey> {
    try_tokenize(code).unwrap().iter().map(|t| t.key).collect()
}

#[test]
fn declaration_tokens_and_positions() {
    let ts = try_tokenize("var x: num = 12;").unwrap();
    assert_eq!(
        ts,
        vec![
            tok(TokenKey::Variable, 1, 1, None),
            tok(TokenKey::Keyword, 1, 5, Some("x")),
            tok(TokenKey::Colon, 1, 6, None),
            tok(TokenKey::Keyword, 1, 8, Some("num")),
            tok(TokenKey::Assign, 1, 12, None),
            tok(TokenKey::PrimitiveNumber, 1, 14, Some("12")),
            tok(TokenKey::SemiColon, 1, 16, None),
        ]
    );
}

#[test]
fn tokenize_agrees_with_try_tokenize() {
    let code = "fnc f(): emp {\n  ret 1;\n}";
    assert_eq!(tokenize(code), Ok(try_tokenize(code).unwrap()));
}

#[test]
fn string_literal_sits_at_its_closing_quote() {
    let ts = try_tokenize("x = \"hi\";").unwrap();
    assert_eq!(ts[2], tok(TokenKey::PrimitiveString, 1, 8, Some("\"hi\"")));
    assert_eq!(ts[3], tok(TokenKey::SemiColon, 1, 9, None));
}

#[test]
fn empty_string_literal_is_a_name() {
    let ts = try_tokenize("\"\"").unwrap();
    assert_eq!(ts, vec![tok(TokenKey::Keyword, 1, 2, Some("\"\""))]);
}

#[test]
fn backslash_takes_next_character() {
    let ts = try_tokenize("\"a\\\"b\"").unwrap();
    assert_eq!(ts, vec![tok(TokenKey::PrimitiveString, 1, 6, Some("\"a\"b\""))]);
    let ts = try_tokenize("\"a\\\\\"").unwrap();
    assert_eq!(ts, vec![tok(TokenKey::PrimitiveString, 1, 5, Some("\"a\\\""))]);
}

#[test]
fn string_keeps_operators_and_spaces() {
    let ts = try_tokenize("\"a + {b}\"").unwrap();
    assert_eq!(ts, vec![tok(TokenKey::PrimitiveString, 1, 9, Some("\"a + {b}\""))]);
}

#[test]
fn comment_ends_the_line() {
    let ts = try_tokenize("a // b c\nd").unwrap();
    assert_eq!(
        ts,
        vec![tok(TokenKey::Keyword, 1, 1, Some("a")), tok(TokenKey::Keyword, 2, 1, Some("d"))]
    );
}

#[test]
fn longest_operator_spelling_wins() {
    assert_eq!(keys("a === b"), vec![TokenKey::Keyword, TokenKey::Equals, TokenKey::Keyword]);
    assert_eq!(keys("a !== b"), vec![TokenKey::Keyword, TokenKey::NotEquals, TokenKey::Keyword]);
    assert_eq!(keys("a==b"), vec![TokenKey::Keyword, TokenKey::Equals, TokenKey::Keyword]);
    assert_eq!(keys("a+=1"), vec![TokenKey::Keyword, TokenKey::AdditionAssign, TokenKey::PrimitiveNumber]);
    assert_eq!(keys("a-=1"), vec![TokenKey::Keyword, TokenKey::SubtractAssign, TokenKey::PrimitiveNumber]);
    assert_eq!(keys("a**b"), vec![TokenKey::Keyword, TokenKey::Power, TokenKey::Keyword]);
    assert_eq!(keys("a::b"), vec![TokenKey::Keyword, TokenKey::DoubleColon, TokenKey::Keyword]);
    assert_eq!(keys("a>=b<=c"), vec![
        TokenKey::Keyword,
        TokenKey::GreaterThanOrEquals,
        TokenKey::Keyword,
        TokenKey::LessThanOrEquals,
        TokenKey::Keyword
    ]);
    assert_eq!(keys("a&&b||!c"), vec![
        TokenKey::Keyword,
        TokenKey::And,
        TokenKey::Keyword,
        TokenKey::Or,
        TokenKey::Not,
        TokenKey::Keyword
    ]);
}

#[test]
fn punctuation_kinds() {
    assert_eq!(keys("(){}[];:,+-*/=><!"), vec![
        TokenKey::ParentheseLeft,
        TokenKey::ParentheseRight,
        TokenKey::CurlyBraceLeft,
        TokenKey::CurlyBraceRight,
        TokenKey::BracketLeft,
        TokenKey::BracketRight,
        TokenKey::SemiColon,
        TokenKey::Colon,
        TokenKey::Comma,
        TokenKey::Addition,
        TokenKey::Subtraction,
        TokenKey::Multiplication,
        TokenKey::Division,
        TokenKey::Assign,
        TokenKey::GreaterThan,
        TokenKey::LessThan,
        TokenKey::Not,
    ]);
}

#[test]
fn reserved_words_carry_no_text() {
    let ts = try_tokenize("func fnc mxn var cst while imp frm exp if ret true false").unwrap();
    let ks: Vec<TokenKey> = ts.iter().map(|t| t.key).collect();
    assert_eq!(ks, vec![
        TokenKey::Function,
        TokenKey::Function,
        TokenKey::Mixin,
        TokenKey::Variable,
        TokenKey::Constant,
        TokenKey::While,
        TokenKey::Import,
        TokenKey::From,
        TokenKey::Export,
        TokenKey::If,
        TokenKey::Return,
        TokenKey::True,
        TokenKey::False,
    ]);
    assert!(ts.iter().all(|t| t.raw.is_none()));
}

#[test]
fn number_literals() {
    let ts = try_tokenize("12 1.5 .5 1. 1.2.3 a1 1a").unwrap();
    let got: Vec<(TokenKey, String)> =
        ts.iter().map(|t| (t.key, t.raw.clone().unwrap())).collect();
    assert_eq!(got, vec![
        (TokenKey::PrimitiveNumber, "12".to_string()),
        (TokenKey::PrimitiveNumber, "1.5".to_string()),
        (TokenKey::PrimitiveNumber, ".5".to_string()),
        (TokenKey::Keyword, "1.".to_string()),
        (TokenKey::Keyword, "1.2.3".to_string()),
        (TokenKey::Keyword, "a1".to_string()),
        (TokenKey::Keyword, "1a".to_string()),
    ]);
}

#[test]
fn words_stop_at_other_characters() {
    let ts = try_tokenize("my_var.x(").unwrap();
    assert_eq!(
        ts,
        vec![
            tok(TokenKey::Keyword, 1, 1, Some("my_var.x")),
            tok(TokenKey::ParentheseLeft, 1, 9, None),
        ]
    );
}

#[test]
fn lines_and_whitespace() {
    let ts = try_tokenize("a\r\n\tb\n\n  c").unwrap();
    assert_eq!(
        ts,
        vec![
            tok(TokenKey::Keyword, 1, 1, Some("a")),
            tok(TokenKey::Keyword, 2, 2, Some("b")),
            tok(TokenKey::Keyword, 4, 3, Some("c")),
        ]
    );
}

#[test]
fn empty_text_has_no_tokens() {
    assert_eq!(try_tokenize(""), Some(vec![]));
    assert_eq!(try_tokenize("   \n// only a comment\n"), Some(vec![]));
}

#[test]
fn unknown_character_cannot_be_split() {
    assert_eq!(try_tokenize("a @ b"), None);
    assert_eq!(try_tokenize("x = é;"), None);
    assert_eq!(try_tokenize("fine\n#"), None);
}

#[test]
fn open_string_at_line_end_cannot_be_split() {
    assert_eq!(try_tokenize("\"abc"), None);
    assert_eq!(try_tokenize("\"abc\ndef\""), None);
    assert_eq!(try_tokenize("\"abc\\\""), None);
}

#[test]
fn non_ascii_inside_string_literal() {
    let ts = try_tokenize("\"héllo\"").unwrap();
    assert_eq!(ts, vec![tok(TokenKey::PrimitiveString, 1, 7, Some("\"héllo\""))]);
}

#[test]
fn tokens_come_in_source_order() {
    let code = "imp std frm \"std\";\n\nfnc main(): emp {\n    var s: str = \"a b\";\n    ret s;\n}\n";
    let ts = try_tokenize(code).unwrap();
    assert!(!ts.is_empty());
    for t in &ts {
        assert!(t.ln >= 1 && t.col >= 1);
        let literal = matches!(
            t.key,
            TokenKey::PrimitiveNumber | TokenKey::PrimitiveString | TokenKey::Keyword
        );
        assert_eq!(t.raw.is_some(), literal);
    }
    for w in ts.windows(2) {
        assert!(w[0].ln < w[1].ln || (w[0].ln == w[1].ln && w[0].col < w[1].col));
    }
}

#[test]
fn each_line_is_read_on_its_own() {
    let first = "var s: str = \"x\"; // note";
    let rest = "if a {\n  ret 1;\n}";
    let whole = try_tokenize(&format!("{}\n{}", first, rest)).unwrap();
    let mut expected = try_tokenize(first).unwrap();
    for t in try_tokenize(rest).unwrap() {
        expected.push(Token { ln: t.ln + 1, ..t });
    }
    assert_eq!(whole, expected);
    assert_eq!(try_tokenize(&format!("{}\n{}", "a @", rest)), None);
    assert_eq!(try_tokenize(&format!("{}\n{}", first, "\"open")), None);
}

#[test]
fn text_after_comment_is_never_read() {
    assert_eq!(try_tokenize("x = 1 // \"open @ é"), try_tokenize("x = 1"));
    assert_eq!(try_tokenize("f(a)//b"), try_tokenize("f(a)"));
    // A text ending in `/` lends it to the marker.
    assert_eq!(keys("a /"), vec![TokenKey::Keyword, TokenKey::Division]);
    assert_eq!(keys("a /// b"), vec![TokenKey::Keyword]);
}

#[test]
fn failure_tells_line_and_column() {
    assert_eq!(
        tokenize_or_failure("a @ b"),
        Err(TokenizeError::UnrecognizedCharacter { line: 0, column: 2 })
    );
    assert_eq!(
        tokenize_or_failure("fine\n  #"),
        Err(TokenizeError::UnrecognizedCharacter { line: 1, column: 2 })
    );
    assert_eq!(tokenize_or_failure("\"abc"), Err(TokenizeError::UnclosedString { line: 0 }));
    assert_eq!(
        tokenize_or_failure("x\n\"abc\ndef\""),
        Err(TokenizeError::UnclosedString { line: 1 })
    );
    assert_eq!(
        tokenize_or_failure("\"open @\n@"),
        Err(TokenizeError::UnclosedString { line: 0 })
    );
    assert_eq!(tokenize_or_failure("a + b"), Ok(try_tokenize("a + b").unwrap()));
}
