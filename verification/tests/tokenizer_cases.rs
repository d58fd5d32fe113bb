use expression_engine::token::Token::{
    Bool, Comma, Delim, Function, Number as NumberToken, Operator, Reference, Semicolon,
    String as StringToken, EOF,
};
use expression_engine::token::{DelimTokenType, Span, Token};
use expression_engine::tokenizer::Tokenizer;
use expression_engine::{init, Error, Number};

fn first(input: &str) -> Token {
    let registry = init();
    let mut tokenizer = Tokenizer::new(input);
    tokenizer.next(&registry).unwrap()
}

#[test]
fn test_bool() {
    assert_eq!(first("true"), Bool(true, Span(0, 4)));
    assert_eq!(first(" True"), Bool(true, Span(1, 5)));
    assert_eq!(first(" \nfalse"), Bool(false, Span(2, 7)));
    assert_eq!(first(" \t False"), Bool(false, Span(3, 8)));
}

#[test]
fn bool_words_ignore_case() {
    assert_eq!(first("TRUE"), Bool(true, Span(0, 4)));
    assert_eq!(first("fAlSe"), Bool(false, Span(0, 5)));
    assert_eq!(first("truely"), Reference("truely".to_string(), Span(0, 6)));
}

#[test]
fn test_number() {
    assert_eq!(first(" 1234 "), NumberToken(Number::parse("1234").unwrap(), Span(1, 5)));
    assert_eq!(first(" 5.678 "), NumberToken(Number::parse("5.678").unwrap(), Span(1, 6)));
}

#[test]
fn number_takes_a_sign_only_after_the_exponent_mark() {
    assert_eq!(first("1e-3"), NumberToken(Number::parse("0.001").unwrap(), Span(0, 4)));
    assert_eq!(first("2-3"), NumberToken(Number::parse("2").unwrap(), Span(0, 1)));
    assert_eq!(first("2+3"), NumberToken(Number::parse("2").unwrap(), Span(0, 1)));
}

#[test]
fn test_delim() {
    assert_eq!(first(" { "), Delim(DelimTokenType::OpenBrace, Span(1, 2)));
    assert_eq!(first(" } "), Delim(DelimTokenType::CloseBrace, Span(1, 2)));
    assert_eq!(first("  ["), Delim(DelimTokenType::OpenBracket, Span(2, 3)));
    assert_eq!(first("\n]"), Delim(DelimTokenType::CloseBracket, Span(1, 2)));
    assert_eq!(first(" ( "), Delim(DelimTokenType::OpenParen, Span(1, 2)));
    assert_eq!(first("  \t)"), Delim(DelimTokenType::CloseParen, Span(3, 4)));
}

#[test]
fn test_other() {
    assert_eq!(first(""), EOF);
    assert_eq!(first(" , "), Comma(",".to_string(), Span(1, 2)));
    assert_eq!(first(" ; "), Semicolon(";".to_string(), Span(1, 2)));
    assert_eq!(first(" +="), Operator("+=".to_string(), Span(1, 3)));
    assert_eq!(first(" +=+"), Operator("+=".to_string(), Span(1, 3)));
    assert_eq!(first(" +=9"), Operator("+=".to_string(), Span(1, 3)));
    assert_eq!(first(" beginWith"), Operator("beginWith".to_string(), Span(1, 10)));
    assert_eq!(first(" endWith"), Operator("endWith".to_string(), Span(1, 8)));
}

#[test]
fn test_string() {
    assert_eq!(first(" 'dsfasdfdsa' "), StringToken("dsfasdfdsa".to_string(), Span(1, 13)));
    assert_eq!(first("\"dffd\""), StringToken("dffd".to_string(), Span(0, 6)));
}

#[test]
fn test_reference_function() {
    assert_eq!(first(" d09f_5 "), Reference("d09f_5".to_string(), Span(1, 7)));
    assert_eq!(first(" d09f_5() "), Function("d09f_5".to_string(), Span(1, 7)));
    assert_eq!(first(" d09f_>"), Reference("d09f_".to_string(), Span(1, 6)));
}

#[test]
fn function_is_known_by_the_parenthesis_after_blanks() {
    assert_eq!(first("go  (1)"), Function("go".to_string(), Span(0, 2)));
}

#[test]
fn test_err() {
    let registry = init();
    assert!(Tokenizer::new("\"jajd'").next(&registry).is_err());
    assert!(Tokenizer::new("0e.3").next(&registry).is_err());
}

#[test]
fn lexical_failures_carry_what_went_wrong() {
    let registry = init();
    assert_eq!(Tokenizer::new(" 'abc").next(&registry), Err(Error::UnterminatedString(5)));
    assert_eq!(
        Tokenizer::new("1.2.3").next(&registry),
        Err(Error::InvalidNumber("1.2.3".to_string()))
    );
    assert_eq!(Tokenizer::new("  #").next(&registry), Err(Error::NotSupportedChar(2, '#')));
}

#[test]
fn spans_are_byte_offsets() {
    let registry = init();
    let mut tokenizer = Tokenizer::new("'é' x");
    assert_eq!(tokenizer.next(&registry), Ok(StringToken("é".to_string(), Span(0, 4))));
    assert_eq!(tokenizer.next(&registry), Ok(Reference("x".to_string(), Span(5, 6))));
}

#[test]
fn end_of_input_is_returned_again_and_again() {
    let registry = init();
    let mut tokenizer = Tokenizer::new(" 1 ");
    assert!(tokenizer.next(&registry).is_ok());
    assert_eq!(tokenizer.next(&registry), Ok(EOF));
    assert_eq!(tokenizer.next(&registry), Ok(EOF));
    assert_eq!(tokenizer.peek(&registry), Ok(EOF));
}

#[test]
fn peek_does_not_consume() {
    let registry = init();
    let mut tokenizer = Tokenizer::new("a + b");
    assert_eq!(tokenizer.peek(&registry), Ok(Reference("a".to_string(), Span(0, 1))));
    assert_eq!(tokenizer.next(&registry), Ok(Reference("a".to_string(), Span(0, 1))));
    assert_eq!(tokenizer.peek(&registry), Ok(Operator("+".to_string(), Span(2, 3))));
    assert_eq!(tokenizer.cur_token(), &Reference("a".to_string(), Span(0, 1)));
    assert_eq!(tokenizer.prev_token(), &EOF);
}

#[test]
fn expect_checks_the_token_that_was_current() {
    let registry = init();
    let mut tokenizer = Tokenizer::new(", ) x");
    tokenizer.next(&registry).unwrap();
    assert_eq!(tokenizer.expect(&registry, ","), Ok(()));
    assert_eq!(
        tokenizer.expect(&registry, "]"),
        Err(Error::ExpectedOpNotExist("]".to_string()))
    );
    assert_eq!(
        tokenizer.expect(&registry, ","),
        Err(Error::ExpectedOpNotExist(",".to_string()))
    );
}

#[test]
fn operators_are_read_from_the_tables_as_they_are() {
    let mut registry = init();
    let mut tokenizer = Tokenizer::new("a cmp3 b");
    tokenizer.next(&registry).unwrap();
    assert_eq!(tokenizer.peek(&registry), Ok(Reference("cmp3".to_string(), Span(2, 6))));
    registry.infix.redirect("cmp3", "<");
    assert_eq!(tokenizer.peek(&registry), Ok(Operator("cmp3".to_string(), Span(2, 6))));
}
