use c1_parser::{C1Lexer, C1Token};

#[test]
fn scanner_classifies_keywords_and_identifiers() {
    let mut lx = C1Lexer::new("if return printf void bool int float true false foo _bar x9");
    let expected = [
        C1Token::KwIf,
        C1Token::KwReturn,
        C1Token::KwPrintf,
        C1Token::KwVoid,
        C1Token::KwBoolean,
        C1Token::KwInt,
        C1Token::KwFloat,
        C1Token::ConstBoolean,
        C1Token::ConstBoolean,
        C1Token::Identifier,
        C1Token::Identifier,
        C1Token::Identifier,
    ];
    for kind in expected {
        assert_eq!(lx.current_token(), Some(kind));
        lx.eat();
    }
    assert_eq!(lx.current_token(), None);
}

#[test]
fn scanner_classifies_operators() {
    let mut lx = C1Lexer::new("== != <= >= < > = + - * / && || ( ) { } ;");
    let expected = [
        C1Token::Equal,
        C1Token::NotEqual,
        C1Token::LessEqual,
        C1Token::GreaterEqual,
        C1Token::Less,
        C1Token::Greater,
        C1Token::Assign,
        C1Token::Plus,
        C1Token::Minus,
        C1Token::Asterisk,
        C1Token::Slash,
        C1Token::And,
        C1Token::Or,
        C1Token::LeftParenthesis,
        C1Token::RightParenthesis,
        C1Token::LeftBrace,
        C1Token::RightBrace,
        C1Token::Semicolon,
    ];
    for kind in expected {
        assert_eq!(lx.current_token(), Some(kind));
        lx.eat();
    }
    assert_eq!(lx.current_token(), None);
}

#[test]
fn scanner_classifies_numbers() {
    let mut lx = C1Lexer::new("12 3.25 0");
    assert_eq!(lx.current_token(), Some(C1Token::ConstInt));
    assert_eq!(lx.current_text(), Some(String::from("12")));
    lx.eat();
    assert_eq!(lx.current_token(), Some(C1Token::ConstFloat));
    assert_eq!(lx.current_text(), Some(String::from("3.25")));
    lx.eat();
    assert_eq!(lx.current_token(), Some(C1Token::ConstInt));
    assert_eq!(lx.current_text(), Some(String::from("0")));
}

#[test]
fn scanner_counts_lines_and_offers_lookahead() {
    let lx = C1Lexer::new("a\nb\n\nc");
    assert_eq!(lx.current_line_number(), Some(1));
    assert_eq!(lx.current_text(), Some(String::from("a")));
    assert_eq!(lx.peek_token(), Some(C1Token::Identifier));
    assert_eq!(lx.peek_line_number(), Some(2));
    assert_eq!(lx.peek_text(), Some(String::from("b")));
    let mut lx = lx;
    lx.eat();
    lx.eat();
    assert_eq!(lx.current_line_number(), Some(4));
    assert_eq!(lx.current_text(), Some(String::from("c")));
    assert_eq!(lx.peek_token(), None);
    assert_eq!(lx.peek_line_number(), None);
    assert_eq!(lx.peek_text(), None);
}

#[test]
fn scanner_drops_comments() {
    let mut lx = C1Lexer::new("a // rest of line ignored\nb /* inner\nlines */ c");
    assert_eq!(lx.current_token(), Some(C1Token::Identifier));
    lx.eat();
    assert_eq!(lx.current_text(), Some(String::from("b")));
    assert_eq!(lx.current_line_number(), Some(2));
    lx.eat();
    assert_eq!(lx.current_text(), Some(String::from("c")));
    assert_eq!(lx.current_line_number(), Some(3));
    lx.eat();
    assert_eq!(lx.current_token(), None);
}

#[test]
fn scanner_marks_unknown_characters() {
    let lx = C1Lexer::new("$");
    assert_eq!(lx.current_token(), Some(C1Token::Unknown));
    assert_eq!(lx.current_text(), Some(String::from("$")));
}
