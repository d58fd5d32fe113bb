use expression_engine::parser::Parser;
use expression_engine::init;

fn expr_case(input: &str, output: &str) {
    let registry = init();
    let parser = Parser::new(&registry, input);
    assert!(parser.is_ok());
    let expr_ast = parser.unwrap().parse_expression();
    assert!(expr_ast.is_ok());
    assert_eq!(expr_ast.unwrap().expr(&registry), output);
}

#[test]
fn test_expression_expr_case_1() {
    expr_case("5", "5");
}

#[test]
fn test_expression_expr_case_2() {
    expr_case(" true ", "true");
}

#[test]
fn test_expression_expr_case_3() {
    expr_case(" True ", "true");
}

#[test]
fn test_expression_expr_case_4() {
    expr_case(" false ", "false");
}

#[test]
fn test_expression_expr_case_5() {
    expr_case(" False ", "false");
}

#[test]
fn test_expression_expr_case_6() {
    expr_case("\n haha", "haha");
}

#[test]
fn test_expression_expr_case_7() {
    expr_case("\t 'haha  '", "\"haha  \"");
}

#[test]
fn test_expression_expr_case_8() {
    expr_case("!a", "! a");
}

#[test]
fn test_expression_expr_case_9() {
    expr_case("not a", "not a");
}

#[test]
fn test_expression_expr_case_10() {
    expr_case("2+3*5", "2 + 3 * 5");
}

#[test]
fn test_expression_expr_case_11() {
    expr_case("(2+3)*5", "(2 + 3) * 5");
}

#[test]
fn test_expression_expr_case_12() {
    expr_case("[]", "[]");
}

#[test]
fn test_expression_expr_case_13() {
    expr_case("[1,!a,(2+3)*5,true, 'hahd',[1,!a,(2+3)*5,true, 'hahd']]", "[1,! a,(2 + 3) * 5,true,\"hahd\",[1,! a,(2 + 3) * 5,true,\"hahd\"]]");
}

#[test]
fn test_expression_expr_case_14() {
    expr_case(" a()", "a()");
}

#[test]
fn test_expression_expr_case_15() {
    expr_case("test(1,!a,(2+3)*5,true, 'hahd',[1,!a,(2+3)*5,true, 'hahd'])", "test(1,! a,(2 + 3) * 5,true,\"hahd\",[1,! a,(2 + 3) * 5,true,\"hahd\"])");
}

#[test]
fn test_expression_expr_case_16() {
    expr_case("{}", "{}");
}

#[test]
fn test_expression_expr_case_17() {
    expr_case("{2+3:5,'haha':d}", "{2 + 3:5,\"haha\":d}");
}

#[test]
fn test_expression_expr_case_18() {
    expr_case("true?4: 2", "true ? 4 : 2");
}

#[test]
fn test_expression_expr_case_19() {
    expr_case("2+3 >5?4: 2", "2 + 3 > 5 ? 4 : 2");
}

#[test]
fn test_expression_expr_case_20() {
    expr_case("2++ + 3", "2 ++ + 3");
}

#[test]
fn test_expression_expr_case_21() {
    expr_case("a()++ * 2-7", "a() ++ * 2 - 7");
}
