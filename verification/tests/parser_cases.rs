use expression_engine::parser::Parser;
use expression_engine::{init, Error, ExprAST, Literal, Number};

fn number(n: i64) -> ExprAST {
    ExprAST::Literal(Literal::Number(Number::from_i64(n)))
}

fn string(s: &str) -> ExprAST {
    ExprAST::Literal(Literal::String(s.to_string()))
}

fn reference(s: &str) -> ExprAST {
    ExprAST::Reference(s.to_string())
}

fn unary(op: &str, rhs: ExprAST) -> ExprAST {
    ExprAST::Unary(op.to_string(), Box::new(rhs))
}

fn binary(op: &str, lhs: ExprAST, rhs: ExprAST) -> ExprAST {
    ExprAST::Binary(op.to_string(), Box::new(lhs), Box::new(rhs))
}

fn one(input: &str) -> Result<ExprAST, Error> {
    let registry = init();
    let parser = Parser::new(&registry, input);
    assert!(parser.is_ok());
    parser.unwrap().parse_expression()
}

fn chain(input: &str) -> Result<ExprAST, Error> {
    let registry = init();
    let parser = Parser::new(&registry, input);
    assert!(parser.is_ok());
    parser.unwrap().parse_chain_expression()
}

fn mixed_list() -> Vec<ExprAST> {
    vec![
        number(1),
        unary("!", reference("a")),
        binary("*", binary("+", number(2), number(3)), number(5)),
        ExprAST::Literal(Literal::Bool(true)),
        string("hahd"),
    ]
}

#[test]
fn test_parse_expression_simple() {
    assert_eq!(one("5"), Ok(number(5)));
    assert_eq!(one("true"), Ok(ExprAST::Literal(Literal::Bool(true))));
    assert_eq!(one("\n false"), Ok(ExprAST::Literal(Literal::Bool(false))));
    assert_eq!(one("\n haha"), Ok(reference("haha")));
    assert_eq!(one("'haha  '"), Ok(string("haha  ")));
    assert_eq!(one("!a"), Ok(unary("!", reference("a"))));
}

#[test]
fn test_parse_expression_binary() {
    assert_eq!(one("2+3*5"), Ok(binary("+", number(2), binary("*", number(3), number(5)))));
    assert_eq!(one("(2+3)*5"), Ok(binary("*", binary("+", number(2), number(3)), number(5))));
    assert_eq!(
        one("'hahhaff' beginWith 'hahha'"),
        Ok(binary("beginWith", string("hahhaff"), string("hahha")))
    );
}

#[test]
fn test_parse_expression_list() {
    assert_eq!(one(" [] "), Ok(ExprAST::List(Vec::new())));
    let mut outer = mixed_list();
    outer.push(ExprAST::List(mixed_list()));
    assert_eq!(
        one("[1,!a,(2+3)*5,true, 'hahd', [1,!a,(2+3)*5,true, 'hahd']]"),
        Ok(ExprAST::List(outer))
    );
}

#[test]
fn test_parse_expression_ternary() {
    assert_eq!(
        one(" true ? 234:'haha'"),
        Ok(ExprAST::Ternary(
            Box::new(ExprAST::Literal(Literal::Bool(true))),
            Box::new(number(234)),
            Box::new(string("haha")),
        ))
    );
}

#[test]
fn test_parse_chain_expression() {
    assert_eq!(
        chain("\n        a=3;\n        a+=4;\n        b=a+5;\n        [a,b]\n    "),
        Ok(ExprAST::Chain(vec![
            binary("=", reference("a"), number(3)),
            binary("+=", reference("a"), number(4)),
            binary("=", reference("b"), binary("+", reference("a"), number(5))),
            ExprAST::List(vec![reference("a"), reference("b")]),
        ]))
    );
    assert_eq!(chain("5"), Ok(number(5)));
    assert_eq!(chain("true"), Ok(ExprAST::Literal(Literal::Bool(true))));
    assert_eq!(chain("\n false"), Ok(ExprAST::Literal(Literal::Bool(false))));
    assert_eq!(chain("\n haha"), Ok(reference("haha")));
    assert_eq!(chain("'haha  '"), Ok(string("haha  ")));
    assert_eq!(chain("!a"), Ok(unary("!", reference("a"))));
    assert_eq!(chain("2++"), Ok(ExprAST::Postfix(Box::new(number(2)), "++".to_string())));
    assert_eq!(chain("2--"), Ok(ExprAST::Postfix(Box::new(number(2)), "--".to_string())));
    assert_eq!(
        chain("2 not in [2]"),
        Ok(unary("not", binary("in", number(2), ExprAST::List(vec![number(2)]))))
    );
}

#[test]
fn empty_text_is_an_empty_chain() {
    assert_eq!(chain(""), Ok(ExprAST::Chain(Vec::new())));
    assert_eq!(chain("  "), Ok(ExprAST::Chain(Vec::new())));
}

#[test]
fn postfix_operators_chain() {
    assert_eq!(
        one("2++--"),
        Ok(ExprAST::Postfix(
            Box::new(ExprAST::Postfix(Box::new(number(2)), "++".to_string())),
            "--".to_string(),
        ))
    );
}

#[test]
fn assignment_associates_to_the_right() {
    assert_eq!(
        one("a=b=3"),
        Ok(binary("=", reference("a"), binary("=", reference("b"), number(3))))
    );
    assert_eq!(one("1-2-3"), Ok(binary("-", binary("-", number(1), number(2)), number(3))));
}

#[test]
fn calls_take_any_number_of_arguments() {
    assert_eq!(one("f()"), Ok(ExprAST::Function("f".to_string(), Vec::new())));
    assert_eq!(
        one("f(1, g(2))"),
        Ok(ExprAST::Function(
            "f".to_string(),
            vec![number(1), ExprAST::Function("g".to_string(), vec![number(2)])],
        ))
    );
}

#[test]
fn dictionaries_keep_their_pairs_in_order() {
    assert_eq!(one("{}"), Ok(ExprAST::Dict(Vec::new())));
    assert_eq!(
        one("{'b':1, 'a':2}"),
        Ok(ExprAST::Dict(vec![(string("b"), number(1)), (string("a"), number(2))]))
    );
}

#[test]
fn syntactic_failures_are_told_apart() {
    assert_eq!(one(""), Err(Error::UnexpectedEOF(0)));
    assert_eq!(one(","), Err(Error::UnexpectedToken()));
    assert_eq!(one(")"), Err(Error::NoOpenDelim));
    assert_eq!(one("(1"), Err(Error::NoCloseDelim));
    assert_eq!(one("(1]"), Err(Error::NoCloseDelim));
    assert_eq!(one("[1 2]"), Err(Error::ExpectedOpNotExist(",".to_string())));
    assert_eq!(one("[1)2]"), Err(Error::ExpectedOpNotExist(",".to_string())));
    assert_eq!(one("{1 2}"), Err(Error::ExpectedOpNotExist(":".to_string())));
    assert_eq!(one("true ? 1 2"), Err(Error::InvalidTernaryExprNeedColon()));
    assert_eq!(one("1 not 2"), Err(Error::ExpectBinOpToken));
    assert_eq!(one("1 + 'abc"), Err(Error::UnterminatedString(8)));
}

#[test]
fn a_token_that_is_no_infix_operator_ends_the_expression() {
    assert_eq!(one("1 ! 2"), Ok(number(1)));
    assert_eq!(chain("1 !true"), Ok(ExprAST::Chain(vec![
        number(1),
        unary("!", ExprAST::Literal(Literal::Bool(true))),
    ])));
}
