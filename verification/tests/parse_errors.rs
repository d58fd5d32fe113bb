use expression_engine::parser::Parser;
use expression_engine::init;

fn error_case(input: &str) {
    let registry = init();
    let parser = Parser::new(&registry, input);
    assert!(parser.is_ok());
    let expr_ast = parser.unwrap().parse_expression();
    assert!(expr_ast.is_err());
}

#[test]
fn test_parse_expression_error_case_1() {
    error_case("  ");
}

#[test]
fn test_parse_expression_error_case_2() {
    error_case(" [ ");
}

#[test]
fn test_parse_expression_error_case_3() {
    error_case("[234,");
}

#[test]
fn test_parse_expression_error_case_4() {
    error_case(" { ");
}

#[test]
fn test_parse_expression_error_case_5() {
    error_case("{2:");
}

#[test]
fn test_parse_expression_error_case_6() {
    error_case("{2");
}

#[test]
fn test_parse_expression_error_case_7() {
    error_case("{2:}");
}

#[test]
fn test_parse_expression_error_case_8() {
    error_case(" (");
}

#[test]
fn test_parse_expression_error_case_9() {
    error_case("a(");
}

#[test]
fn test_parse_expression_error_case_10() {
    error_case("a(,)");
}

#[test]
fn test_parse_expression_error_case_11() {
    error_case("a(2,true,");
}

#[test]
fn test_parse_expression_error_case_12() {
    error_case("true ?");
}

#[test]
fn test_parse_expression_error_case_13() {
    error_case("true ? haha :");
}

#[test]
fn test_parse_expression_error_case_14() {
    error_case("2+ ");
}

#[test]
fn test_parse_chain_expression_error_case_1() {
    error_case("");
}

#[test]
fn test_parse_chain_expression_error_case_2() {
    error_case(" ");
}
