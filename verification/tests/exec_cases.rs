use expression_engine::descriptor::DescriptorManager;
use expression_engine::parser::Parser;
use expression_engine::{
    init, BinaryOpFunc, Context, Error, InnerFunction, Number, Registry, UnaryOpFunc, Value,
};

struct Func<F>(F);

impl<F: Fn(Vec<Value>) -> Result<Value, Error> + Send + Sync> InnerFunction for Func<F> {
    fn call(&self, params: Vec<Value>) -> Result<Value, Error> {
        (self.0)(params)
    }
}

#[allow(dead_code)]
struct Unary<F>(F);

impl<F: Fn(Value) -> Result<Value, Error> + Send + Sync> UnaryOpFunc for Unary<F> {
    fn call(&self, value: Value) -> Result<Value, Error> {
        (self.0)(value)
    }
}

#[allow(dead_code)]
struct Binary<F>(F);

impl<F: Fn(Value, Value) -> Result<Value, Error> + Send + Sync> BinaryOpFunc for Binary<F> {
    fn call(&self, left: Value, right: Value) -> Result<Value, Error> {
        (self.0)(left, right)
    }
}

#[allow(dead_code)]
fn num(text: &str) -> Value {
    Value::Number(Number::parse(text).unwrap())
}

#[allow(dead_code)]
fn text(s: &str) -> Value {
    Value::String(s.to_string())
}

fn exec_case(input: &str, output: Value) {
    let mut registry: Registry = init();
    let mut ctx = Context::new();
    ctx.set_variable("d", Value::from(3));
    ctx.set_func("f", Box::new(Func(|_| Ok(Value::from(3)))));
    registry.functions.register("d", Box::new(Func(|_| Ok(Value::from(4)))));
    let parser = Parser::new(&registry, input);
    assert!(parser.is_ok());
    let expr_ast = parser.unwrap().parse_chain_expression();
    assert!(expr_ast.is_ok());
    let ast = expr_ast.unwrap();
    let ans = ast.clone().exec(&registry, &mut ctx);
    assert!(ans.is_ok());
    assert_eq!(ans.unwrap(), output);
    ast.clone().describe(&DescriptorManager::new());
}

#[test]
fn test_exec_case_1() {
    exec_case("2", Value::from(2));
}

#[test]
fn test_exec_case_2() {
    exec_case("'haha'", text("haha"));
}

#[test]
fn test_exec_case_3() {
    exec_case("true", Value::from(true));
}

#[test]
fn test_exec_case_4() {
    exec_case("  False", Value::from(false));
}

#[test]
fn test_exec_case_5() {
    exec_case("!(2>3)", Value::from(true));
}

#[test]
fn test_exec_case_6() {
    exec_case("2>3", Value::from(false));
}

#[test]
fn test_exec_case_7() {
    exec_case(" 2<3 ", Value::from(true));
}

#[test]
fn test_exec_case_8() {
    exec_case("2 >= 3", Value::from(false));
}

#[test]
fn test_exec_case_9() {
    exec_case("2<=3", Value::from(true));
}

#[test]
fn test_exec_case_10() {
    exec_case("2+3*5-2/2+6*(2+4 )-20", Value::from(32));
}

#[test]
fn test_exec_case_11() {
    exec_case("102%100", Value::from(2));
}

#[test]
fn test_exec_case_12() {
    exec_case("2!=3", Value::from(true));
}

#[test]
fn test_exec_case_13() {
    exec_case("2==3", Value::from(false));
}

#[test]
fn test_exec_case_14() {
    exec_case("100>>3", Value::from(100 >> 3));
}

#[test]
fn test_exec_case_15() {
    exec_case("100<<3", Value::from(100 << 3));
}

#[test]
fn test_exec_case_16() {
    exec_case("(2>3)&&true", Value::from(false));
}

#[test]
fn test_exec_case_17() {
    exec_case("2>3||True", Value::from(true));
}

#[test]
fn test_exec_case_18() {
    exec_case("d+=3;d", Value::from(6));
}

#[test]
fn test_exec_case_19() {
    exec_case("d-=2;d*5", Value::from(5));
}

#[test]
fn test_exec_case_20() {
    exec_case("d*=0.1;d+1.5", num("1.8"));
}

#[test]
fn test_exec_case_21() {
    exec_case("d/=2;d==1.5", Value::from(true));
}

#[test]
fn test_exec_case_22() {
    exec_case("d%99;d", Value::from(3));
}

#[test]
fn test_exec_case_23() {
    exec_case("d<<=2;d", Value::from(3 << 2));
}

#[test]
fn test_exec_case_24() {
    exec_case("d>>=2;d", Value::from(3 >> 2));
}

#[test]
fn test_exec_case_25() {
    exec_case("'hahhadf' beginWith \"hahha\"", Value::from(true));
}

#[test]
fn test_exec_case_26() {
    exec_case("'hahhadf' endWith \"hahha\"", Value::from(false));
}

#[test]
fn test_exec_case_27() {
    exec_case("true in [2, true, 'haha']", Value::from(true));
}

#[test]
fn test_exec_case_28() {
    exec_case("-5*10", Value::from(-50));
}

#[test]
fn test_exec_case_29() {
    exec_case("AND[1>2,true]", Value::from(false));
}

#[test]
fn test_exec_case_30() {
    exec_case("OR[1>2,true]", Value::from(true));
}

#[test]
fn test_exec_case_31() {
    exec_case("[2>3,1+5]", Value::List(vec![Value::from(false), Value::from(6)]));
}

#[test]
fn test_exec_case_32() {
    exec_case("{'haha':2, 1+2:2>3}", Value::Dict(vec![(text("haha"), Value::from(2)), (Value::from(3), Value::from(false))]));
}

#[test]
fn test_exec_case_33() {
    exec_case("2<=3?'haha':false", text("haha"));
}

#[test]
fn test_exec_case_34() {
    exec_case("2>=3?'haha':false", Value::from(false));
}

#[test]
fn test_exec_case_35() {
    exec_case("min(1,2,2+3*5,-10)", Value::from(-10));
}

#[test]
fn test_exec_case_36() {
    exec_case("max(1,2,2+3*5,-10)", Value::from(17));
}

#[test]
fn test_exec_case_37() {
    exec_case("mul(1,2,2+3*5,-10)", Value::from(-340));
}

#[test]
fn test_exec_case_38() {
    exec_case("sum(1,2,2+3*5,-10)", Value::from(10));
}

#[test]
fn test_exec_case_39() {
    exec_case("f(3)", Value::from(3));
}

#[test]
fn test_exec_case_40() {
    exec_case("d()", Value::from(4));
}

#[test]
fn test_exec_case_41() {
    exec_case("'hahf' in [2, true, 'haha']", Value::from(false));
}

#[test]
fn test_exec_case_42() {
    exec_case("AND[1<2, true]", Value::from(true));
}

#[test]
fn test_exec_case_43() {
    exec_case("OR[1>2, 2+2<2]", Value::from(false));
}

#[test]
fn test_exec_case_44() {
    exec_case("[2>3,1+5, true]", Value::from(vec![Value::from(false), Value::from(6), Value::from(true)]));
}

#[test]
fn test_exec_case_45() {
    exec_case("a=3;a%=2;a", Value::from(3 % 2));
}

#[test]
fn test_exec_case_46() {
    exec_case("a=3;a&=2;a", Value::from(3 & 2));
}

#[test]
fn test_exec_case_47() {
    exec_case("a=3;a^=2;a", Value::from(3 ^ 2));
}

#[test]
fn test_exec_case_48() {
    exec_case("a=3;a|=2;a", Value::from(3 | 2));
}

#[test]
fn test_exec_case_49() {
    exec_case("+5-2*4", Value::from(-3));
}

#[test]
fn test_exec_case_50() {
    exec_case("2-- +3", Value::from(4));
}

#[test]
fn test_exec_case_51() {
    exec_case("2++ *3", Value::from(9));
}

#[test]
fn test_exec_case_52() {
    exec_case("'a' not in ['a']", Value::from(false));
}

#[test]
fn test_exec_case_53() {
    exec_case("2 not in ['a', false, true, 1+2]", Value::from(true));
}

#[test]
fn test_exec_case_54() {
    exec_case("3 not in ['a', false, true, 1+2] || 3>=2", Value::from(true));
}
