use minilang::ast::Token;
use minilang::lexer::Lexer;
use minilang::lexer::LexerError;

fn lex(input: &str) -> Result<Vec<Token>, LexerError> {
    let mut lexer = Lexer::new(input);
    lexer.lex()
}

#[test]
fn lex_let_statement_round_trip() {
    // The canonical rendering of a token sequence lexes back to it.
    let tokens = lex("let x = 5 + 10").unwrap();
    assert_eq!(
        tokens,
        vec![
            Token::Let,
            Token::Identifier(String::from("x")),
            Token::Equals,
            Token::Integer(5),
            Token::Plus,
            Token::Integer(10),
            Token::EOF,
        ]
    );
}

#[test]
fn lex_arrow_not_minus() {
    assert_eq!(lex("->").unwrap(), vec![Token::Arrow, Token::EOF]);
}

#[test]
fn lex_minus_then_integer() {
    assert_eq!(
        lex("-5").unwrap(),
        vec![Token::Minus, Token::Integer(5), Token::EOF]
    );
}

#[test]
fn lex_double_equals() {
    assert_eq!(lex("==").unwrap(), vec![Token::DoubleEquals, Token::EOF]);
}

#[test]
fn lex_single_equals() {
    assert_eq!(lex("=").unwrap(), vec![Token::Equals, Token::EOF]);
}

#[test]
fn lex_empty_input_is_just_eof() {
    assert_eq!(lex("").unwrap(), vec![Token::EOF]);
}

#[test]
fn lex_whitespace_only_is_just_eof() {
    assert_eq!(lex(" \n\t\r").unwrap(), vec![Token::EOF]);
}

#[test]
fn lex_keywords_and_identifiers() {
    assert_eq!(
        lex("let fn if else print foo int _x a1").unwrap(),
        vec![
            Token::Let,
            Token::Fn,
            Token::If,
            Token::Else,
            Token::Print,
            Token::Identifier(String::from("foo")),
            Token::Identifier(String::from("int")),
            Token::Identifier(String::from("_x")),
            Token::Identifier(String::from("a1")),
            Token::EOF,
        ]
    );
}

#[test]
fn lex_punctuation() {
    assert_eq!(
        lex("( ) { } ; : , * > <").unwrap(),
        vec![
            Token::LeftParen,
            Token::RightParen,
            Token::LeftBrace,
            Token::RightBrace,
            Token::Semicolon,
            Token::Colon,
            Token::Comma,
            Token::Asterisk,
            Token::MoreThan,
            Token::LessThan,
            Token::EOF,
        ]
    );
}

#[test]
fn lex_no_spaces_needed() {
    assert_eq!(
        lex("x=1;").unwrap(),
        vec![
            Token::Identifier(String::from("x")),
            Token::Equals,
            Token::Integer(1),
            Token::Semicolon,
            Token::EOF,
        ]
    );
}

#[test]
fn lex_unknown_character_fails() {
    match lex("@") {
        Err(LexerError::UnknownToken(c)) => assert_eq!(c, '@'),
        other => panic!("expected an unknown-token error, got {:?}", other),
    }
}

#[test]
fn lex_largest_integer() {
    assert_eq!(
        lex("9223372036854775807").unwrap(),
        vec![Token::Integer(i64::MAX), Token::EOF]
    );
}

#[test]
fn lex_overflowing_integer_fails() {
    match lex("9223372036854775808") {
        Err(LexerError::InvalidNumber(text)) => {
            assert_eq!(text, String::from("9223372036854775808"));
        }
        other => panic!("expected an invalid-number error, got {:?}", other),
    }
}

#[test]
fn lex_leading_zeros_are_one_number() {
    assert_eq!(
        lex("007").unwrap(),
        vec![Token::Integer(7), Token::EOF]
    );
}
