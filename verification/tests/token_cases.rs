use expression_engine::token::{DelimTokenType, Span, Token};

#[test]
fn test_delim_token_type_from_str() {
    assert_eq!(DelimTokenType::from("("), DelimTokenType::OpenParen);
    assert_eq!(DelimTokenType::from(")"), DelimTokenType::CloseParen);
    assert_eq!(DelimTokenType::from("["), DelimTokenType::OpenBracket);
    assert_eq!(DelimTokenType::from("]"), DelimTokenType::CloseBracket);
    assert_eq!(DelimTokenType::from("{"), DelimTokenType::OpenBrace);
    assert_eq!(DelimTokenType::from("}"), DelimTokenType::CloseBrace);
    assert_eq!(DelimTokenType::from("f"), DelimTokenType::Unknown);
}

#[test]
fn test_delim_token_type_from_char() {
    assert_eq!(DelimTokenType::from('('), DelimTokenType::OpenParen);
    assert_eq!(DelimTokenType::from(')'), DelimTokenType::CloseParen);
    assert_eq!(DelimTokenType::from('['), DelimTokenType::OpenBracket);
    assert_eq!(DelimTokenType::from(']'), DelimTokenType::CloseBracket);
    assert_eq!(DelimTokenType::from('{'), DelimTokenType::OpenBrace);
    assert_eq!(DelimTokenType::from('}'), DelimTokenType::CloseBrace);
    assert_eq!(DelimTokenType::from('b'), DelimTokenType::Unknown);
}

#[test]
fn test_is_open_paren() {
    assert_eq!(Token::Delim(DelimTokenType::OpenParen, Span(0, 0)).is_open_paren(), true);
    assert_eq!(Token::Delim(DelimTokenType::CloseParen, Span(0, 0)).is_open_paren(), false);
    assert_eq!(Token::Bool(false, Span(0, 0)).is_open_paren(), false);
}

#[test]
fn test_is_open_brace() {
    assert_eq!(Token::Delim(DelimTokenType::OpenBrace, Span(0, 0)).is_open_brace(), true);
    assert_eq!(Token::Delim(DelimTokenType::CloseBrace, Span(0, 0)).is_open_brace(), false);
    assert_eq!(Token::Bool(false, Span(0, 0)).is_open_brace(), false);
}

#[test]
fn test_is_open_bracket() {
    assert_eq!(Token::Delim(DelimTokenType::OpenBracket, Span(0, 0)).is_open_bracket(), true);
    assert_eq!(Token::Delim(DelimTokenType::CloseBracket, Span(0, 0)).is_open_bracket(), false);
    assert_eq!(Token::Bool(false, Span(0, 0)).is_open_bracket(), false);
}

#[test]
fn delim_string_gives_the_bracket() {
    assert_eq!(DelimTokenType::OpenParen.string(), "(");
    assert_eq!(DelimTokenType::CloseBrace.string(), "}");
    assert_eq!(DelimTokenType::Unknown.string(), "??");
}

#[test]
fn token_string_shows_the_text() {
    assert_eq!(Token::Operator("+=".to_string(), Span(0, 2)).string(), "+=");
    assert_eq!(Token::Bool(true, Span(0, 4)).string(), "true");
    assert_eq!(Token::Delim(DelimTokenType::OpenBracket, Span(0, 1)).string(), "[");
    assert_eq!(Token::EOF.string(), "EOF");
}

#[test]
fn closing_tokens_are_told_apart() {
    let colon = Token::Operator(":".to_string(), Span(0, 1));
    assert!(colon.is_colon());
    assert!(!colon.is_question_mark());
    assert!(colon.is_op_token());
    assert!(!colon.is_not_token());
    assert!(Token::Operator("not".to_string(), Span(0, 3)).is_not_token());
    assert!(Token::Semicolon(";".to_string(), Span(0, 1)).is_semicolon());
    assert!(Token::EOF.is_eof());
    assert!(Token::Delim(DelimTokenType::CloseParen, Span(0, 1)).is_close_paren());
    assert!(Token::Delim(DelimTokenType::CloseBracket, Span(0, 1)).is_close_bracket());
    assert!(Token::Delim(DelimTokenType::CloseBrace, Span(0, 1)).is_close_brace());
}
