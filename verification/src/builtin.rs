use vstd::prelude::*;
use crate::error::{Error, ErrorView};
use crate::number::{
    dec_lt, dec_neg, dec_of_int, dec_to_i64, decimal_difference, decimal_product,
    decimal_quotient, decimal_remainder, decimal_sum, Dec, Number,
};
use crate::value::{result_view, value_eq, values_view, Value, ValueView};

verus! {

/// The four operations and the remainder on decimal numbers.
#[derive(Debug, Clone, Copy, PartialEq, Eq, Structural)]
pub enum ArithOp {
    Add,
    Sub,
    Mul,
    Div,
    Rem,
}

/// The operations on 64-bit integers.
#[derive(Debug, Clone, Copy, PartialEq, Eq, Structural)]
pub enum BitOp {
    Shl,
    Shr,
    And,
    Xor,
    Or,
}

/// The four order comparisons.
#[derive(Debug, Clone, Copy, PartialEq, Eq, Structural)]
pub enum CompareOp {
    Less,
    LessEq,
    Greater,
    GreaterEq,
}

/// What a built-in infix operator computes from its two operands.
#[derive(Debug, Clone, Copy, PartialEq, Eq, Structural)]
pub enum BinaryOpKind {
    /// The right operand.
    Replace,
    Arith(ArithOp),
    Bits(BitOp),
    Or,
    And,
    Compare(CompareOp),
    Equal,
    NotEqual,
    BeginWith,
    EndWith,
    In,
}

/// What a built-in prefix operator computes from its operand.
#[derive(Debug, Clone, Copy, PartialEq, Eq, Structural)]
pub enum UnaryOpKind {
    Minus,
    Plus,
    Not,
    /// True where every item of the list is true.
    All,
    /// True where some item of the list is true.
    Any,
}

/// What a built-in postfix operator computes from its operand.
#[derive(Debug, Clone, Copy, PartialEq, Eq, Structural)]
pub enum PostfixOpKind {
    Increment,
    Decrement,
}

/// What a built-in function computes from its arguments.
#[derive(Debug, Clone, Copy, PartialEq, Eq, Structural)]
pub enum FunctionKind {
    Min,
    Max,
    Sum,
    Mul,
}

pub open spec fn number_of(v: ValueView) -> Result<Dec, ErrorView> {
    match v {
        ValueView::Number(d) => Ok(d),
        _ => Err(ErrorView::ShouldBeNumber),
    }
}

pub open spec fn integer_of(v: ValueView) -> Result<i64, ErrorView> {
    match v {
        ValueView::Number(d) => match dec_to_i64(d) {
            Some(n) => Ok(n),
            None => Err(ErrorView::InvalidInteger),
        },
        _ => Err(ErrorView::InvalidInteger),
    }
}

pub open spec fn bool_of(v: ValueView) -> Result<bool, ErrorView> {
    match v {
        ValueView::Bool(b) => Ok(b),
        _ => Err(ErrorView::ShouldBeBool),
    }
}

pub open spec fn text_of(v: ValueView) -> Result<Seq<char>, ErrorView> {
    match v {
        ValueView::String(s) => Ok(s),
        _ => Err(ErrorView::ShouldBeString),
    }
}

pub open spec fn list_of(v: ValueView) -> Result<Seq<ValueView>, ErrorView> {
    match v {
        ValueView::List(items) => Ok(items),
        _ => Err(ErrorView::ShouldBeList),
    }
}

/// A decimal result as a value, or the overflow failure where there is none.
pub open spec fn number_or_overflow(d: Option<Dec>) -> Result<ValueView, ErrorView> {
    match d {
        Some(d) => Ok(ValueView::Number(d)),
        None => Err(ErrorView::NumberOverflow),
    }
}

/// Arithmetic on two decimals. Division and remainder by zero fail with
/// `DivideByZero`; a result that cannot be represented fails with
/// `NumberOverflow`.
pub open spec fn arith_result(op: ArithOp, a: Dec, b: Dec) -> Result<ValueView, ErrorView> {
    match op {
        ArithOp::Add => number_or_overflow(decimal_sum(a, b)),
        ArithOp::Sub => number_or_overflow(decimal_difference(a, b)),
        ArithOp::Mul => number_or_overflow(decimal_product(a, b)),
        ArithOp::Div => if b.mantissa == 0 {
            Err(ErrorView::DivideByZero)
        } else {
            number_or_overflow(decimal_quotient(a, b))
        },
        ArithOp::Rem => if b.mantissa == 0 {
            Err(ErrorView::DivideByZero)
        } else {
            number_or_overflow(decimal_remainder(a, b))
        },
    }
}

/// An integer as a value.
pub open spec fn integer_value(n: i64) -> ValueView {
    ValueView::Number(dec_of_int(n as int))
}

/// Bitwise operations on two 64-bit integers. A shift by less than zero or
/// by 64 or more fails with `ParamInvalid`.
pub open spec fn bit_result(op: BitOp, a: i64, b: i64) -> Result<ValueView, ErrorView> {
    match op {
        BitOp::Shl => if 0 <= b < 64 {
            Ok(integer_value(a << b))
        } else {
            Err(ErrorView::ParamInvalid)
        },
        BitOp::Shr => if 0 <= b < 64 {
            Ok(integer_value(a >> b))
        } else {
            Err(ErrorView::ParamInvalid)
        },
        BitOp::And => Ok(integer_value(a & b)),
        BitOp::Xor => Ok(integer_value(a ^ b)),
        BitOp::Or => Ok(integer_value(a | b)),
    }
}

pub open spec fn compare_result(op: CompareOp, a: Dec, b: Dec) -> bool {
    match op {
        CompareOp::Less => dec_lt(a, b),
        CompareOp::LessEq => !dec_lt(b, a),
        CompareOp::Greater => dec_lt(b, a),
        CompareOp::GreaterEq => !dec_lt(a, b),
    }
}

/// Whether some item of `items` equals `v`.
pub open spec fn has_member(items: Seq<ValueView>, v: ValueView) -> bool {
    exists|i: int| 0 <= i < items.len() && value_eq(#[trigger] items[i], v)
}

/// What a built-in infix operator returns for two operands. The left
/// operand is examined before the right one.
pub open spec fn binary_result(kind: BinaryOpKind, l: ValueView, r: ValueView) -> Result<
    ValueView,
    ErrorView,
> {
    match kind {
        BinaryOpKind::Replace => Ok(r),
        BinaryOpKind::Arith(op) => match (number_of(l), number_of(r)) {
            (Err(e), _) => Err(e),
            (_, Err(e)) => Err(e),
            (Ok(a), Ok(b)) => arith_result(op, a, b),
        },
        BinaryOpKind::Bits(op) => match (integer_of(l), integer_of(r)) {
            (Err(e), _) => Err(e),
            (_, Err(e)) => Err(e),
            (Ok(a), Ok(b)) => bit_result(op, a, b),
        },
        BinaryOpKind::Or => match (bool_of(l), bool_of(r)) {
            (Err(e), _) => Err(e),
            (_, Err(e)) => Err(e),
            (Ok(a), Ok(b)) => Ok(ValueView::Bool(a || b)),
        },
        BinaryOpKind::And => match (bool_of(l), bool_of(r)) {
            (Err(e), _) => Err(e),
            (_, Err(e)) => Err(e),
            (Ok(a), Ok(b)) => Ok(ValueView::Bool(a && b)),
        },
        BinaryOpKind::Compare(op) => match (number_of(l), number_of(r)) {
            (Err(e), _) => Err(e),
            (_, Err(e)) => Err(e),
            (Ok(a), Ok(b)) => Ok(ValueView::Bool(compare_result(op, a, b))),
        },
        BinaryOpKind::Equal => Ok(ValueView::Bool(value_eq(l, r))),
        BinaryOpKind::NotEqual => Ok(ValueView::Bool(!value_eq(l, r))),
        BinaryOpKind::BeginWith => match (text_of(l), text_of(r)) {
            (Err(e), _) => Err(e),
            (_, Err(e)) => Err(e),
            (Ok(a), Ok(b)) => Ok(ValueView::Bool(b.is_prefix_of(a))),
        },
        BinaryOpKind::EndWith => match (text_of(l), text_of(r)) {
            (Err(e), _) => Err(e),
            (_, Err(e)) => Err(e),
            (Ok(a), Ok(b)) => Ok(ValueView::Bool(b.is_suffix_of(a))),
        },
        BinaryOpKind::In => match list_of(r) {
            Err(e) => Err(e),
            Ok(items) => Ok(ValueView::Bool(has_member(items, l))),
        },
    }
}

/// Whether every item is a truth value.
pub open spec fn all_bools(items: Seq<ValueView>) -> bool {
    forall|i: int| 0 <= i < items.len() ==> (#[trigger] items[i]) is Bool
}

/// Whether every item is the truth value true.
pub open spec fn all_true(items: Seq<ValueView>) -> bool {
    forall|i: int| 0 <= i < items.len() ==> (#[trigger] items[i]) == ValueView::Bool(true)
}

/// Whether some item is the truth value true.
pub open spec fn any_true(items: Seq<ValueView>) -> bool {
    exists|i: int| 0 <= i < items.len() && (#[trigger] items[i]) == ValueView::Bool(true)
}

/// What a built-in prefix operator returns for its operand. `All` and `Any`
/// look at every item of the list: one that is no truth value fails the
/// whole, wherever it stands.
pub open spec fn unary_result(kind: UnaryOpKind, v: ValueView) -> Result<ValueView, ErrorView> {
    match kind {
        UnaryOpKind::Minus => match number_of(v) {
            Err(e) => Err(e),
            Ok(a) => Ok(ValueView::Number(dec_neg(a))),
        },
        UnaryOpKind::Plus => match number_of(v) {
            Err(e) => Err(e),
            Ok(a) => Ok(ValueView::Number(a)),
        },
        UnaryOpKind::Not => match bool_of(v) {
            Err(e) => Err(e),
            Ok(b) => Ok(ValueView::Bool(!b)),
        },
        UnaryOpKind::All => match list_of(v) {
            Err(e) => Err(e),
            Ok(items) => if all_bools(items) {
                Ok(ValueView::Bool(all_true(items)))
            } else {
                Err(ErrorView::ShouldBeBool)
            },
        },
        UnaryOpKind::Any => match list_of(v) {
            Err(e) => Err(e),
            Ok(items) => if all_bools(items) {
                Ok(ValueView::Bool(any_true(items)))
            } else {
                Err(ErrorView::ShouldBeBool)
            },
        },
    }
}

/// What a built-in postfix operator returns for its operand: the number
/// plus or minus one. Nothing is written back.
pub open spec fn postfix_result(kind: PostfixOpKind, v: ValueView) -> Result<ValueView, ErrorView> {
    match number_of(v) {
        Err(e) => Err(e),
        Ok(a) => match kind {
            PostfixOpKind::Increment => number_or_overflow(decimal_sum(a, dec_of_int(1))),
            PostfixOpKind::Decrement => number_or_overflow(decimal_difference(a, dec_of_int(1))),
        },
    }
}

/// One step of a built-in function: the result so far, `acc`, and the next
/// argument. `None` is the state before the first argument.
pub open spec fn function_step(kind: FunctionKind, acc: Option<Dec>, v: ValueView) -> Result<
    Option<Dec>,
    ErrorView,
> {
    match number_of(v) {
        Err(e) => Err(e),
        Ok(n) => match acc {
            None => Ok(Some(n)),
            Some(a) => match kind {
                FunctionKind::Min => Ok(Some(if dec_lt(n, a) { n } else { a })),
                FunctionKind::Max => Ok(Some(if dec_lt(a, n) { n } else { a })),
                FunctionKind::Sum => match decimal_sum(a, n) {
                    Some(s) => Ok(Some(s)),
                    None => Err(ErrorView::NumberOverflow),
                },
                FunctionKind::Mul => match decimal_product(a, n) {
                    Some(s) => Ok(Some(s)),
                    None => Err(ErrorView::NumberOverflow),
                },
            },
        },
    }
}

/// The state in which a built-in function starts: the sum starts at zero,
/// the product at one, the minimum and the maximum with nothing.
pub open spec fn function_start(kind: FunctionKind) -> Option<Dec> {
    match kind {
        FunctionKind::Min => None,
        FunctionKind::Max => None,
        FunctionKind::Sum => Some(dec_of_int(0)),
        FunctionKind::Mul => Some(dec_of_int(1)),
    }
}

/// The state of a built-in function after the arguments `args`, taken from
/// the left; the first argument that fails ends it.
pub open spec fn function_fold(kind: FunctionKind, args: Seq<ValueView>) -> Result<
    Option<Dec>,
    ErrorView,
>
    decreases args.len(),
{
    if args.len() == 0 {
        Ok(function_start(kind))
    } else {
        match function_fold(kind, args.drop_last()) {
            Err(e) => Err(e),
            Ok(acc) => function_step(kind, acc, args.last()),
        }
    }
}

/// What a built-in function returns for its arguments. The minimum and the
/// maximum of no arguments fail with `ParamInvalid`.
pub open spec fn function_result(kind: FunctionKind, args: Seq<ValueView>) -> Result<
    ValueView,
    ErrorView,
> {
    match function_fold(kind, args) {
        Err(e) => Err(e),
        Ok(Some(d)) => Ok(ValueView::Number(d)),
        Ok(None) => Err(ErrorView::ParamInvalid),
    }
}

/// `str::starts_with` with a text as the pattern: whether `prefix` is the
/// beginning of `text`.
#[verifier::external_body]
fn text_starts_with(text: &str, prefix: &str) -> (r: bool)
    ensures
        r == prefix@.is_prefix_of(text@),
{
    text.starts_with(prefix)
}

/// `str::ends_with` with a text as the pattern: whether `suffix` is the end
/// of `text`.
#[verifier::external_body]
fn text_ends_with(text: &str, suffix: &str) -> (r: bool)
    ensures
        r == suffix@.is_suffix_of(text@),
{
    text.ends_with(suffix)
}

fn number_value(n: Option<Number>) -> (r: Result<Value, Error>)
    ensures
        result_view(r) == number_or_overflow(crate::number::option_dec(n)),
{
    match n {
        Some(n) => Ok(Value::Number(n)),
        None => Err(Error::NumberOverflow),
    }
}

/// Arithmetic on two numbers.
pub fn arith_apply(op: ArithOp, a: Number, b: Number) -> (r: Result<Value, Error>)
    ensures
        result_view(r) == arith_result(op, a@, b@),
{
    match op {
        ArithOp::Add => number_value(a.checked_add(&b)),
        ArithOp::Sub => number_value(a.checked_sub(&b)),
        ArithOp::Mul => number_value(a.checked_mul(&b)),
        ArithOp::Div => if b.is_zero() {
            Err(Error::DivideByZero)
        } else {
            number_value(a.checked_div(&b))
        },
        ArithOp::Rem => if b.is_zero() {
            Err(Error::DivideByZero)
        } else {
            number_value(a.checked_rem(&b))
        },
    }
}

/// Bitwise operations on two integers.
pub fn bit_apply(op: BitOp, a: i64, b: i64) -> (r: Result<Value, Error>)
    ensures
        result_view(r) == bit_result(op, a, b),
{
    match op {
        BitOp::Shl => if 0 <= b && b < 64 {
            Ok(Value::Number(Number::from_i64(a << b)))
        } else {
            Err(Error::ParamInvalid())
        },
        BitOp::Shr => if 0 <= b && b < 64 {
            Ok(Value::Number(Number::from_i64(a >> b)))
        } else {
            Err(Error::ParamInvalid())
        },
        BitOp::And => Ok(Value::Number(Number::from_i64(a & b))),
        BitOp::Xor => Ok(Value::Number(Number::from_i64(a ^ b))),
        BitOp::Or => Ok(Value::Number(Number::from_i64(a | b))),
    }
}

/// An order comparison of two numbers.
pub fn compare_apply(op: CompareOp, a: &Number, b: &Number) -> (r: bool)
    ensures
        r == compare_result(op, a@, b@),
{
    match op {
        CompareOp::Less => a.less_than(b),
        CompareOp::LessEq => !b.less_than(a),
        CompareOp::Greater => b.less_than(a),
        CompareOp::GreaterEq => !a.less_than(b),
    }
}

/// Whether some item of `items` equals `v`.
pub fn is_member(items: &Vec<Value>, v: &Value) -> (r: bool)
    ensures
        r == has_member(values_view(items@), v@),
{
    let mut i: usize = 0;
    while i < items.len()
        invariant
            i <= items.len(),
            forall|k: int| 0 <= k < i ==> !value_eq(#[trigger] values_view(items@)[k], v@),
        decreases items.len() - i,
    {
        if items[i].equals(v) {
            assert(value_eq(values_view(items@)[i as int], v@));
            return true;
        }
        i += 1;
    }
    false
}

/// Applies a built-in infix operator to two operands.
pub fn binary_apply(kind: BinaryOpKind, left: Value, right: Value) -> (r: Result<Value, Error>)
    ensures
        result_view(r) == binary_result(kind, left@, right@),
{
    match kind {
        BinaryOpKind::Replace => Ok(right),
        BinaryOpKind::Arith(op) => {
            let a = left.decimal()?;
            let b = right.decimal()?;
            arith_apply(op, a, b)
        },
        BinaryOpKind::Bits(op) => {
            let a = left.integer()?;
            let b = right.integer()?;
            bit_apply(op, a, b)
        },
        BinaryOpKind::Or => {
            let a = left.bool()?;
            let b = right.bool()?;
            Ok(Value::Bool(a || b))
        },
        BinaryOpKind::And => {
            let a = left.bool()?;
            let b = right.bool()?;
            Ok(Value::Bool(a && b))
        },
        BinaryOpKind::Compare(op) => {
            let a = left.decimal()?;
            let b = right.decimal()?;
            Ok(Value::Bool(compare_apply(op, &a, &b)))
        },
        BinaryOpKind::Equal => Ok(Value::Bool(left.equals(&right))),
        BinaryOpKind::NotEqual => Ok(Value::Bool(!left.equals(&right))),
        BinaryOpKind::BeginWith => {
            let a = left.string()?;
            let b = right.string()?;
            Ok(Value::Bool(text_starts_with(a.as_str(), b.as_str())))
        },
        BinaryOpKind::EndWith => {
            let a = left.string()?;
            let b = right.string()?;
            Ok(Value::Bool(text_ends_with(a.as_str(), b.as_str())))
        },
        BinaryOpKind::In => {
            let items = right.list()?;
            Ok(Value::Bool(is_member(&items, &left)))
        },
    }
}

/// Looks at every item of a list of truth values: whether all are true, and
/// whether one is. Fails with `ShouldBeBool` where an item is no truth value.
fn scan_bools(items: &Vec<Value>) -> (r: Result<(bool, bool), Error>)
    ensures
        match r {
            Ok((all, any)) => all_bools(values_view(items@)) && all == all_true(
                values_view(items@),
            ) && any == any_true(values_view(items@)),
            Err(e) => !all_bools(values_view(items@)) && e@ == ErrorView::ShouldBeBool,
        },
{
    let ghost views = values_view(items@);
    let mut all = true;
    let mut any = false;
    let mut i: usize = 0;
    while i < items.len()
        invariant
            i <= items.len(),
            views == values_view(items@),
            forall|k: int| 0 <= k < i ==> (#[trigger] views[k]) is Bool,
            all == (forall|k: int| 0 <= k < i ==> (#[trigger] views[k]) == ValueView::Bool(true)),
            any == (exists|k: int| 0 <= k < i && (#[trigger] views[k]) == ValueView::Bool(true)),
        decreases items.len() - i,
    {
        match &items[i] {
            Value::Bool(b) => {
                assert(views[i as int] == ValueView::Bool(*b));
                if *b {
                    any = true;
                } else {
                    all = false;
                }
            },
            _ => {
                assert(!(views[i as int] is Bool));
                return Err(Error::ShouldBeBool());
            },
        }
        i += 1;
    }
    Ok((all, any))
}

/// Applies a built-in prefix operator to its operand.
pub fn unary_apply(kind: UnaryOpKind, value: Value) -> (r: Result<Value, Error>)
    ensures
        result_view(r) == unary_result(kind, value@),
{
    match kind {
        UnaryOpKind::Minus => {
            let a = value.decimal()?;
            Ok(Value::Number(a.neg()))
        },
        UnaryOpKind::Plus => {
            let a = value.decimal()?;
            Ok(Value::Number(a))
        },
        UnaryOpKind::Not => {
            let b = value.bool()?;
            Ok(Value::Bool(!b))
        },
        UnaryOpKind::All => {
            let items = value.list()?;
            let (all, _) = scan_bools(&items)?;
            Ok(Value::Bool(all))
        },
        UnaryOpKind::Any => {
            let items = value.list()?;
            let (_, any) = scan_bools(&items)?;
            Ok(Value::Bool(any))
        },
    }
}

/// Applies a built-in postfix operator to its operand.
pub fn postfix_apply(kind: PostfixOpKind, value: Value) -> (r: Result<Value, Error>)
    ensures
        result_view(r) == postfix_result(kind, value@),
{
    let a = value.decimal()?;
    let one = Number::one();
    match kind {
        PostfixOpKind::Increment => number_value(a.checked_add(&one)),
        PostfixOpKind::Decrement => number_value(a.checked_sub(&one)),
    }
}

fn step_apply(kind: FunctionKind, acc: Option<Number>, value: &Value) -> (r: Result<
    Option<Number>,
    Error,
>)
    ensures
        match function_step(kind, crate::number::option_dec(acc), value@) {
            Ok(d) => r matches Ok(n) && crate::number::option_dec(n) == d,
            Err(e) => r matches Err(x) && x@ == e,
        },
{
    match value {
        Value::Number(n) => match acc {
            None => Ok(Some(*n)),
            Some(a) => match kind {
                FunctionKind::Min => Ok(Some(if n.less_than(&a) { *n } else { a })),
                FunctionKind::Max => Ok(Some(if a.less_than(n) { *n } else { a })),
                FunctionKind::Sum => match a.checked_add(n) {
                    Some(s) => Ok(Some(s)),
                    None => Err(Error::NumberOverflow),
                },
                FunctionKind::Mul => match a.checked_mul(n) {
                    Some(s) => Ok(Some(s)),
                    None => Err(Error::NumberOverflow),
                },
            },
        },
        _ => Err(Error::ShouldBeNumber()),
    }
}

/// Applies a built-in function to its arguments.
pub fn function_apply(kind: FunctionKind, params: Vec<Value>) -> (r: Result<Value, Error>)
    ensures
        result_view(r) == function_result(kind, values_view(params@)),
{
    let ghost views = values_view(params@);
    let mut acc: Option<Number> = match kind {
        FunctionKind::Min => None,
        FunctionKind::Max => None,
        FunctionKind::Sum => Some(Number::zero()),
        FunctionKind::Mul => Some(Number::one()),
    };
    let mut i: usize = 0;
    assert(views.take(0) =~= Seq::<ValueView>::empty());
    while i < params.len()
        invariant
            i <= params.len(),
            views == values_view(params@),
            function_fold(kind, views.take(i as int)) == Ok::<Option<Dec>, ErrorView>(
                crate::number::option_dec(acc),
            ),
        decreases params.len() - i,
    {
        proof {
            let next = views.take(i as int + 1);
            assert(next.drop_last() =~= views.take(i as int));
            assert(next.last() == params@[i as int]@);
        }
        match step_apply(kind, acc, &params[i]) {
            Ok(next) => {
                acc = next;
            },
            Err(e) => {
                proof {
                    lemma_fold_fails(kind, views, i as int + 1);
                }
                return Err(e);
            },
        }
        i += 1;
    }
    assert(views.take(i as int) =~= views);
    match acc {
        Some(d) => Ok(Value::Number(d)),
        None => Err(Error::ParamInvalid()),
    }
}

/// Once a built-in function has failed on the first `n` arguments, it fails
/// in the same way on all of them.
pub proof fn lemma_fold_fails(kind: FunctionKind, args: Seq<ValueView>, n: int)
    requires
        0 <= n <= args.len(),
        function_fold(kind, args.take(n)) is Err,
    ensures
        function_fold(kind, args) == function_fold(kind, args.take(n)),
    decreases args.len() - n,
{
    if n == args.len() {
        assert(args.take(n) =~= args);
    } else {
        let next = args.take(n + 1);
        assert(next.drop_last() =~= args.take(n));
        lemma_fold_fails(kind, args, n + 1);
    }
}

} // verus!
