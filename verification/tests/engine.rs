use expression_engine::descriptor::{BinaryDescriptor, DescriptorManager, ListDescriptor};
use expression_engine::operator::BinaryOpFuncManager;
use expression_engine::parser::Parser;
use expression_engine::token::{DelimTokenType, Span, Token};
use expression_engine::{
    execute, init, parse_expression, register_function, register_infix_op, register_postfix_op,
    register_prefix_op, BinaryOpAssociativity, BinaryOpFunc, BinaryOpType, Context, Error,
    ErrorGroup, ExprAST, InnerFunction, Literal, Number, UnaryOpFunc, Value,
};

struct Func<F>(F);

impl<F: Fn(Vec<Value>) -> Result<Value, Error> + Send + Sync> InnerFunction for Func<F> {
    fn call(&self, params: Vec<Value>) -> Result<Value, Error> {
        (self.0)(params)
    }
}

struct Unary<F>(F);

impl<F: Fn(Value) -> Result<Value, Error> + Send + Sync> UnaryOpFunc for Unary<F> {
    fn call(&self, value: Value) -> Result<Value, Error> {
        (self.0)(value)
    }
}

struct Binary<F>(F);

impl<F: Fn(Value, Value) -> Result<Value, Error> + Send + Sync> BinaryOpFunc for Binary<F> {
    fn call(&self, left: Value, right: Value) -> Result<Value, Error> {
        (self.0)(left, right)
    }
}

fn num(text: &str) -> Value {
    Value::Number(Number::parse(text).unwrap())
}

fn run(input: &str) -> Result<Value, Error> {
    execute(&init(), input, Context::new())
}

fn number(n: i64) -> ExprAST {
    ExprAST::Literal(Literal::Number(Number::from_i64(n)))
}

fn binary(op: &str, lhs: ExprAST, rhs: ExprAST) -> ExprAST {
    ExprAST::Binary(op.to_string(), Box::new(lhs), Box::new(rhs))
}

#[test]
fn test() {
    let registry = init();
    let input = "true in [1,2,3,true]";
    let ast = Parser::new(&registry, input);
    match ast {
        Ok(mut a) => {
            let expr = a.parse_expression().unwrap();
            println!("{:?}", expr)
        }
        Err(e) => {
            println!("{:?}", e);
        }
    }
}

#[test]
fn test_exec() {
    let registry = init();
    let input = "1+2>3?true && 5>2 : 'haha'";
    let ast = Parser::new(&registry, input);
    let mut ctx = Context::new();
    ctx.set_variable("mm", Value::from(12));
    match ast {
        Ok(mut a) => {
            let expr = a.parse_expression().unwrap();
            println!("expr is {:?}", expr);
            println!("string is {}", expr.expr(&registry));
            let ans = expr.exec(&registry, &mut ctx).unwrap();
            println!("ans is {:?}", ans);
        }
        Err(e) => {
            println!("{:?}", e);
        }
    }
}

#[test]
fn test_register() {
    let mut registry = init();
    registry.functions.register(
        "test",
        Box::new(Func(|params: Vec<Value>| {
            let mut ans = Number::zero();
            for param in params.into_iter() {
                match param {
                    Value::Number(num) => {
                        ans = ans.checked_add(&num).unwrap();
                    }
                    _ => return Err(Error::ShouldBeNumber()),
                }
            }
            Ok(Value::Number(ans))
        })),
    );
}

#[test]
fn test_execute() {
    let registry = init();
    let input = "c = 5+3; c+=10+f; c";
    let mut ctx = Context::new();
    ctx.set_variable("d", Value::from(2));
    ctx.set_variable("b", Value::from(true));
    ctx.set_func("f", Box::new(Func(|_| Ok(Value::from(3)))));
    let ans = execute(&registry, input, ctx).unwrap();
    assert_eq!(ans, Value::from(21))
}

#[test]
fn test_parse_expression() {
    let registry = init();
    let input = "a + 3*2+test()+[1,2,3,'haha']";
    assert!(parse_expression(&registry, input).is_ok());
}

#[test]
fn test_register_function() {
    let mut registry = init();
    register_function(&mut registry, "test", Box::new(Func(|_| return Ok(Value::from("test")))));
    let input = "test()";
    let ans = execute(&registry, input, Context::new());
    assert!(ans.is_ok());
    assert_eq!(ans.unwrap(), Value::from("test"));
}

#[test]
fn test_register_prefix_op() {
    let mut registry = init();
    register_prefix_op(
        &mut registry,
        "+++",
        Box::new(Unary(|v: Value| {
            let mut tmp = v.integer()?;
            tmp += 3;
            Ok(Value::from(tmp))
        })),
    );
    let input = "+++11";
    let ans = execute(&registry, input, Context::new());
    assert!(ans.is_ok());
    assert_eq!(ans.unwrap(), Value::from(14));
}

#[test]
fn test_register_postfix_op() {
    let mut registry = init();
    register_postfix_op(
        &mut registry,
        "---",
        Box::new(Unary(|v: Value| {
            let mut tmp = v.integer()?;
            tmp -= 3;
            Ok(Value::from(tmp))
        })),
    );
    let input = "100---";
    let ans = execute(&registry, input, Context::new());
    assert!(ans.is_ok());
    assert_eq!(ans.unwrap(), Value::from(97));
}

#[test]
fn test_register_infix_op() {
    let mut registry = init();
    register_infix_op(
        &mut registry,
        "right_minus",
        100,
        BinaryOpType::CALC,
        BinaryOpAssociativity::RIGHT,
        Box::new(Binary(|left: Value, right: Value| {
            Ok(Value::from(left.integer()? - right.integer()?))
        })),
    );
    let input = "100 right_minus 55 right_minus 44";
    let ans = execute(&registry, input, Context::new());
    match &ans {
        Ok(_) => {}
        Err(e) => println!("err is {:?}", e),
    }
    assert!(ans.is_ok());
    assert_eq!(ans.unwrap(), Value::from(89));
}

#[test]
fn test_operators() {
    let mut manager = BinaryOpFuncManager::new();
    manager.init();
    let result = manager.operators();
    assert_eq!(result.len(), 32);
    for pair in result.windows(2) {
        assert!(pair[0].1 <= pair[1].1);
    }
    assert!(result.contains(&("in".to_string(), 200)));
    assert!(result.contains(&("=".to_string(), 20)));
    for (op, precedence) in result {
        println!("|{}| {}||", op, precedence)
    }
}

#[test]
fn precedence_decides_what_binds_first() {
    assert_eq!(run("2+3*5"), Ok(Value::from(17)));
    assert_eq!(run("(2+3)*5"), Ok(Value::from(25)));
}

#[test]
fn assignment_to_the_right_binds_both_names() {
    let registry = init();
    let ast = parse_expression(&registry, "a=b=3").unwrap();
    assert_eq!(
        ast,
        binary("=", ExprAST::Reference("a".to_string()), binary(
            "=",
            ExprAST::Reference("b".to_string()),
            number(3),
        ))
    );
    let mut ctx = Context::new();
    assert_eq!(ast.exec(&registry, &mut ctx), Ok(Value::Nil));
    assert_eq!(ctx.get_variable("b"), Some(Value::from(3)));
    assert_eq!(ctx.get_variable("a"), Some(Value::Nil));
    assert_eq!(run("a=b=3;a"), Ok(Value::Nil));
    assert_eq!(run("a=b=3;b"), Ok(Value::from(3)));
}

#[test]
fn assignment_writes_and_yields_nothing() {
    let registry = init();
    assert_eq!(run("a=5;a"), Ok(Value::from(5)));
    let mut ctx = Context::new();
    ctx.set_variable("a", Value::from(5));
    let ast = parse_expression(&registry, "a+=3").unwrap();
    assert_eq!(ast.exec(&registry, &mut ctx), Ok(Value::Nil));
    assert_eq!(ctx.get_variable("a"), Some(Value::from(8)));
}

#[test]
fn division_and_remainder_by_zero_are_arithmetic_failures() {
    assert_eq!(run("1/0"), Err(Error::DivideByZero));
    assert_eq!(run("1%0"), Err(Error::DivideByZero));
    assert_eq!(run("1/0.00"), Err(Error::DivideByZero));
    assert_eq!(run("a=1;a/=0"), Err(Error::DivideByZero));
    assert_eq!(run("a=1;a%=0"), Err(Error::DivideByZero));
    assert_eq!(Error::DivideByZero.group(), ErrorGroup::Arithmetic);
}

#[test]
fn only_the_chosen_branch_is_evaluated() {
    assert_eq!(run("true ? 1 : (1/0)"), Ok(Value::from(1)));
    assert_eq!(run("false ? (1/0) : 2"), Ok(Value::from(2)));
    assert_eq!(run("true ? (a=1) : (b=2); [a, b]"), Ok(Value::List(vec![Value::from(1), Value::Nil])));
    assert_eq!(run("3 ? 1 : 2"), Err(Error::ShouldBeBool()));
}

#[test]
fn a_registered_operator_takes_part_in_climbing() {
    let mut registry = init();
    register_infix_op(
        &mut registry,
        "cmp3",
        65,
        BinaryOpType::CALC,
        BinaryOpAssociativity::LEFT,
        Box::new(Binary(|left: Value, right: Value| Ok(Value::List(vec![left, right])))),
    );
    assert_eq!(
        parse_expression(&registry, "1 cmp3 2 + 3"),
        Ok(binary("cmp3", number(1), binary("+", number(2), number(3))))
    );
    assert_eq!(
        execute(&registry, "1 cmp3 2 + 3", Context::new()),
        Ok(Value::List(vec![Value::from(1), Value::from(5)]))
    );
    assert_eq!(
        parse_expression(&init(), "1 cmp3 2 + 3"),
        Ok(ExprAST::Chain(vec![
            number(1),
            ExprAST::Reference("cmp3".to_string()),
            binary("+", number(2), number(3)),
        ]))
    );
}

#[test]
fn membership_is_by_structural_equality() {
    assert_eq!(run("true in [2,true,'haha']"), Ok(Value::from(true)));
    assert_eq!(run("'x' in [2,true,'haha']"), Ok(Value::from(false)));
    assert_eq!(run("[1,2] in [[1,2.0]]"), Ok(Value::from(true)));
    assert_eq!(run("1 in 2"), Err(Error::ShouldBeList()));
}

#[test]
fn children_are_evaluated_in_order() {
    assert_eq!(run("[2>3, 1+5]"), Ok(Value::List(vec![Value::from(false), Value::from(6)])));
    assert_eq!(
        run("[a=1, a, a=2, a]"),
        Ok(Value::List(vec![Value::Nil, Value::from(1), Value::Nil, Value::from(2)]))
    );
}

#[test]
fn a_chain_has_the_value_of_its_last_statement() {
    assert_eq!(run("a=1;a=2;a"), Ok(Value::from(2)));
    assert_eq!(run(""), Ok(Value::Nil));
    assert_eq!(run("1;"), Ok(Value::from(1)));
}

#[test]
fn not_before_an_operator_negates_its_result() {
    assert_eq!(run("2 not in [2]"), Ok(Value::from(false)));
    assert_eq!(run("2 not in [3]"), Ok(Value::from(true)));
}

#[test]
fn what_is_not_registered_fails_as_such() {
    let registry = init();
    let mut ctx = Context::new();
    assert_eq!(run("nofn(1)"), Err(Error::InnerFunctionNotRegistered("nofn".to_string())));
    let unknown = binary("@@", number(1), binary("/", number(1), number(0)));
    assert_eq!(
        unknown.exec(&registry, &mut ctx),
        Err(Error::BinaryOpNotRegistered("@@".to_string()))
    );
    let prefix = ExprAST::Unary("++".to_string(), Box::new(number(1)));
    assert_eq!(
        prefix.exec(&registry, &mut ctx),
        Err(Error::UnaryOpNotRegistered("++".to_string()))
    );
    let postfix = ExprAST::Postfix(Box::new(number(1)), "!".to_string());
    assert_eq!(
        postfix.exec(&registry, &mut ctx),
        Err(Error::UnaryOpNotRegistered("!".to_string()))
    );
    assert_eq!(
        Error::BinaryOpNotRegistered("@@".to_string()).group(),
        ErrorGroup::Resolution
    );
}

#[test]
fn rendering_and_reading_again_gives_the_same_value() {
    let registry = init();
    for input in [
        "2+3*5",
        "(2+3)*5",
        "1-2-3",
        "a=3;a+=4;[a, a*2, {'k': a > 3}]",
        "min(1, 2) + max(3, 4)",
        "(true ? 1 : 2) + 3",
        "2++ * 3",
        "!true && -1 < 0",
        "'ab' beginWith 'a' && 'ab' endWith 'b'",
    ] {
        let ast = parse_expression(&registry, input).unwrap();
        let again = parse_expression(&registry, ast.expr(&registry).as_str()).unwrap();
        let first = ast.exec(&registry, &mut Context::new());
        assert!(first.is_ok());
        assert_eq!(again.exec(&registry, &mut Context::new()), first);
    }
}

#[test]
fn an_operand_of_the_same_precedence_is_written_without_parentheses() {
    let registry = init();
    let ast = parse_expression(&registry, "1-(2-3)").unwrap();
    assert_eq!(ast.expr(&registry), "1 - 2 - 3");
    assert_eq!(ast.exec(&registry, &mut Context::new()), Ok(Value::from(2)));
    assert_eq!(run("1 - 2 - 3"), Ok(Value::from(-4)));
}

#[test]
fn a_prefix_operator_is_written_before_its_operand_without_parentheses() {
    let registry = init();
    let ast = parse_expression(&registry, "2 not in [2]").unwrap();
    assert_eq!(ast.expr(&registry), "not 2 in [2]");
    assert_eq!(ast.exec(&registry, &mut Context::new()), Ok(Value::from(false)));
    assert_eq!(run("not 2 in [2]"), Err(Error::ShouldBeBool()));
}

#[test]
fn operands_of_the_wrong_kind_are_type_failures() {
    assert_eq!(run("'a'+1"), Err(Error::ShouldBeNumber()));
    assert_eq!(run("1 && true"), Err(Error::ShouldBeBool()));
    assert_eq!(run("1 beginWith 'a'"), Err(Error::ShouldBeString()));
    assert_eq!(run("1.5 << 1"), Err(Error::InvalidInteger));
    assert_eq!(run("1 << 64"), Err(Error::ParamInvalid()));
    assert_eq!(run("1 >> -1"), Err(Error::ParamInvalid()));
    assert_eq!(run("AND[false, 3]"), Err(Error::ShouldBeBool()));
    assert_eq!(run("OR[true, 3]"), Err(Error::ShouldBeBool()));
    assert_eq!(run("AND 3"), Err(Error::ShouldBeList()));
    assert_eq!(run("-true"), Err(Error::ShouldBeNumber()));
    assert_eq!(run("!1"), Err(Error::ShouldBeBool()));
    assert_eq!(run("true++"), Err(Error::ShouldBeNumber()));
    assert_eq!(run("min()"), Err(Error::ParamInvalid()));
    assert_eq!(run("sum(1, 'a')"), Err(Error::ShouldBeNumber()));
    assert_eq!(Error::ShouldBeBool().group(), ErrorGroup::Type);
}

#[test]
fn an_assignment_needs_a_reference_on_its_left() {
    assert_eq!(run("1 = 2"), Err(Error::NotReferenceExpr));
    assert_eq!(run("(1 + 1) += 2"), Err(Error::NotReferenceExpr));
    assert_eq!(run("(a + 1) += 2"), Err(Error::ShouldBeNumber()));
}

#[test]
fn a_result_too_large_is_an_overflow() {
    assert_eq!(run("79228162514264337593543950335 * 2"), Err(Error::NumberOverflow));
    assert_eq!(run("79228162514264337593543950335 + 1"), Err(Error::NumberOverflow));
    assert_eq!(run("79228162514264337593543950335++"), Err(Error::NumberOverflow));
    assert_eq!(Error::NumberOverflow.group(), ErrorGroup::Arithmetic);
}

#[test]
fn arithmetic_is_exact_decimal_arithmetic() {
    assert_eq!(run("0.1 + 0.2"), Ok(num("0.3")));
    assert_eq!(run("0.1 + 0.2 == 0.3"), Ok(Value::from(true)));
    assert_eq!(run("5 - 7"), Ok(Value::from(-2)));
    assert_eq!(run("1.5 * 4"), Ok(Value::from(6)));
    assert_eq!(run("7 / 2"), Ok(num("3.5")));
    assert_eq!(run("7 % 4"), Ok(Value::from(3)));
    assert_eq!(run("1.50 == 1.5"), Ok(Value::from(true)));
    assert_eq!(run("1.5 < 1.50"), Ok(Value::from(false)));
    assert_eq!(run("1.5 <= 1.50"), Ok(Value::from(true)));
    assert_eq!(run("2 > 10"), Ok(Value::from(false)));
    assert_eq!(run("-3 < 2"), Ok(Value::from(true)));
    assert_eq!(run("-(0 - 3)"), Ok(Value::from(3)));
    assert_eq!(run("41++"), Ok(Value::from(42)));
    assert_eq!(run("41--"), Ok(Value::from(40)));
}

#[test]
fn texts_are_compared_from_either_end() {
    assert_eq!(run("'hahha' beginWith 'ha'"), Ok(Value::from(true)));
    assert_eq!(run("'hahha' beginWith 'ah'"), Ok(Value::from(false)));
    assert_eq!(run("'hahha' endWith 'ha'"), Ok(Value::from(true)));
    assert_eq!(run("'hahha' endWith 'hah'"), Ok(Value::from(false)));
    assert_eq!(run("'a' beginWith 'ab'"), Ok(Value::from(false)));
}

#[test]
fn boolean_operators_look_at_both_sides() {
    assert_eq!(run("false && (1/0)"), Err(Error::DivideByZero));
    assert_eq!(run("true || (1/0)"), Err(Error::DivideByZero));
    assert_eq!(run("false && 1"), Err(Error::ShouldBeBool()));
}

#[test]
fn a_name_that_is_not_bound_reads_as_nothing() {
    assert_eq!(run("a"), Ok(Value::Nil));
    assert_eq!(run("[a]"), Ok(Value::List(vec![Value::Nil])));
    assert_eq!(run("b = a; b"), Ok(Value::Nil));
    assert_eq!(run("sum(a)"), Err(Error::ShouldBeNumber()));
}

#[test]
fn redirect_copies_what_the_target_is_now() {
    let mut registry = init();
    registry.infix.redirect("plus", "+");
    registry.infix.register(
        "+",
        110,
        BinaryOpType::CALC,
        BinaryOpAssociativity::LEFT,
        Box::new(Binary(|_: Value, _: Value| Ok(Value::from(0)))),
    );
    assert_eq!(execute(&registry, "2 plus 3", Context::new()), Ok(Value::from(5)));
    assert_eq!(execute(&registry, "2 + 3", Context::new()), Ok(Value::from(0)));
    assert_eq!(registry.infix.get_precidence("plus"), (110, 111));
    assert_eq!(registry.infix.get_precidence("="), (20, 19));
    assert_eq!(registry.infix.get_precidence("nothing"), (-1, -1));
    assert!(registry.infix.exist("plus"));
    assert_eq!(registry.infix.get_op_type("+="), Ok(BinaryOpType::SETTER));
    assert_eq!(
        registry.infix.get_handler("nothing"),
        Err(Error::BinaryOpNotRegistered("nothing".to_string()))
    );
}

#[test]
fn a_context_function_comes_before_a_registered_one() {
    let mut registry = init();
    register_function(&mut registry, "pick", Box::new(Func(|_| Ok(Value::from(1)))));
    let mut ctx = Context::new();
    ctx.set_func("pick", Box::new(Func(|_| Ok(Value::from(2)))));
    assert_eq!(execute(&registry, "pick()", ctx), Ok(Value::from(2)));
    assert_eq!(execute(&registry, "pick()", Context::new()), Ok(Value::from(1)));
}

#[test]
fn context_bindings_are_replaced_by_name() {
    let mut ctx = Context::new();
    assert_eq!(ctx.value("x"), Ok(Value::Nil));
    ctx.set_variable("x", Value::from(1));
    ctx.set_variable("x", Value::from(2));
    assert_eq!(ctx.get_variable("x"), Some(Value::from(2)));
    assert!(ctx.get_func("x").is_none());
    ctx.set_func("x", Box::new(Func(|_| Ok(Value::from(9)))));
    assert_eq!(ctx.get_variable("x"), None);
    assert!(ctx.get_func("x").is_some());
    assert_eq!(ctx.value("x"), Ok(Value::from(9)));
    assert!(ctx.get("x").is_some());
    assert!(ctx.get("y").is_none());
}

#[test]
fn values_give_up_what_they_hold() {
    assert_eq!(Value::from(3).integer(), Ok(3));
    assert_eq!(num("3.0").integer(), Err(Error::InvalidInteger));
    assert_eq!(Value::from(true).integer(), Err(Error::InvalidInteger));
    assert_eq!(Value::from(true).bool(), Ok(true));
    assert_eq!(Value::from("a").string(), Ok("a".to_string()));
    assert_eq!(Value::from(1).string(), Err(Error::ShouldBeString()));
    assert_eq!(Value::from(vec![Value::Nil]).list(), Ok(vec![Value::Nil]));
    assert_eq!(Value::from(1).decimal().map(|n| n.to_text()), Ok("1".to_string()));
    assert_eq!(Value::Nil.decimal().map(|n| n.to_text()), Err(Error::ShouldBeNumber()));
    assert_eq!(Value::from(Number::one()), Value::from(1u32));
    assert_eq!(Value::from("a".to_string()), Value::from("a"));
}

#[test]
fn numbers_have_a_mantissa_and_a_scale() {
    let n = Number::parse("12.50").unwrap();
    assert_eq!(n.mantissa(), 1250);
    assert_eq!(n.scale(), 2);
    assert_eq!(n.to_text(), "12.50");
    assert_eq!(Number::new(-1250, 2).unwrap().to_text(), "-12.50");
    assert!(Number::new(1, 29).is_none());
    assert!(Number::new(1i128 << 96, 0).is_none());
    assert!(Number::parse("abc").is_none());
    assert_eq!(Number::from_i64(7).to_i64(), Some(7));
    assert_eq!(Number::new(1i128 << 70, 0).unwrap().to_i64(), None);
    assert_eq!(Number::from_i64(5).neg().to_i64(), Some(-5));
    assert!(Number::zero().is_zero());
}

struct Words;

impl BinaryDescriptor for Words {
    fn describe(&self, _op: String, lhs: String, rhs: String) -> String {
        format!("{} plus {}", lhs, rhs)
    }
}

struct Count;

impl ListDescriptor for Count {
    fn describe(&self, params: Vec<String>) -> String {
        format!("{} items", params.len())
    }
}

#[test]
fn descriptions_use_the_descriptors_that_are_set() {
    let registry = init();
    let ast = parse_expression(&registry, "f(1+2, [a, !b], {1: 2}, c ? 3 : 4, 5++); x").unwrap();
    let mut descriptors = DescriptorManager::new();
    assert_eq!(ast.describe(&descriptors), "f(1+2,[a,!b],{1:2},c?3:4,5++);x");
    assert!(descriptors.get_binary_descriptor("+".to_string()).is_none());
    descriptors.set_binary_descriptor("+".to_string(), Box::new(Words));
    descriptors.set_list_descriptor(Box::new(Count));
    assert!(descriptors.get_binary_descriptor("+".to_string()).is_some());
    assert!(descriptors.get_binary_descriptor("-".to_string()).is_none());
    assert!(descriptors.get_list_descriptor().is_some());
    assert!(descriptors.get_chain_descriptor().is_none());
    assert_eq!(ast.describe(&descriptors), "f(1 plus 2,2 items,{1:2},c?3:4,5++);x");
}

#[test]
fn everything_can_be_shown_as_text() {
    assert_eq!(Error::UnexpectedEOF(0).to_string(), "unexpected eof: 0");
    assert_eq!(Error::UnterminatedString(1205).to_string(), "unterminated string: 1205");
    assert_eq!(Error::NotSupportedChar(10, '#').to_string(), "not supported char: 10, #");
    assert_eq!(Error::InvalidNumber("1.2.3".to_string()).to_string(), "invalid number: 1.2.3");
    assert_eq!(Error::ExpectedOpNotExist(",".to_string()).to_string(), "expected op:, not exist");
    assert_eq!(Error::ShouldBeNumber().to_string(), "should be number");
    assert_eq!(Error::DivideByZero.to_string(), "divide by zero");
    assert_eq!(Span(3, 17).to_string(), "[3..=17)");
    assert_eq!(
        Token::Delim(DelimTokenType::OpenParen, Span(0, 1)).to_string(),
        "Delim Token: (, [0..=1)"
    );
    assert_eq!(Token::Bool(false, Span(2, 7)).to_string(), "Bool Token: false, [2..=7)");
    assert_eq!(
        Value::Dict(vec![(Value::from("k"), Value::List(vec![Value::from(1), Value::Nil]))])
            .to_string(),
        "value map: {key: value string: k,value: value list: [value number: 1,None,]; }"
    );
    let registry = init();
    let ast = parse_expression(&registry, "f(-a, [1]) ? {'k': 2++} : b = 3; 4").unwrap();
    assert_eq!(
        ast.to_string(),
        "Chain AST: Ternary AST: Condition: Function AST: name: f, params: [Unary AST: Op: -, \
         Rhs: Reference AST: reference: a,List AST: params: [Literal AST: Number: 1,],], Lhs: \
         Map AST: (Literal AST: String: k Postfix AST: Lhs: Literal AST: Number: 2, Op: ++), , \
         Rhs: Binary AST: Op: =, Lhs: Reference AST: reference: b, Rhs: Literal AST: Number: \
         3;Literal AST: Number: 4;"
    );
}
