use vstd::prelude::*;
use crate::ast::{AstView, LiteralView};
use crate::builtin::{arith_result, binary_result, ArithOp, BinaryOpKind};
use crate::error::{group_of, ErrorGroup, ErrorView};
use crate::grammar::{
    advance, binds, lemma_advance, p_op, p_postfix, p_primary, p_rhs, p_token, within, Grammar,
    PState,
};
use crate::token::TokenView;
use crate::eval::{
    call_outcome, chain_value, evaluates, evaluates_all, witness, witness_pair, Bindings, Outcome,
};
use crate::number::Dec;
use crate::operator::{binding_powers, BinaryOpConfig, BinaryOpType};
use crate::registry::RegistryView;
use crate::render::render;
use crate::value::ValueView;

verus! {

/// Dividing a number by zero, and taking the remainder of a division by
/// zero, fails with `DivideByZero`, whatever the dividend and however the
/// zero is written.
pub proof fn lemma_division_by_zero(dividend: Dec, zero: Dec)
    requires
        zero.mantissa == 0,
    ensures
        binary_result(
            BinaryOpKind::Arith(ArithOp::Div),
            ValueView::Number(dividend),
            ValueView::Number(zero),
        ) == Err::<ValueView, ErrorView>(ErrorView::DivideByZero),
        binary_result(
            BinaryOpKind::Arith(ArithOp::Rem),
            ValueView::Number(dividend),
            ValueView::Number(zero),
        ) == Err::<ValueView, ErrorView>(ErrorView::DivideByZero),
{
}

/// Arithmetic on two numbers fails in the arithmetic group only.
pub proof fn lemma_arithmetic_failures(op: ArithOp, a: Dec, b: Dec)
    ensures
        arith_result(op, a, b) matches Err(e) ==> group_of(e) == ErrorGroup::Arithmetic,
{
}

/// An infix operator that the tables do not hold fails as not registered,
/// whatever its operands are, and leaves the bindings as they were.
pub proof fn lemma_unregistered_infix(
    op: Seq<char>,
    lhs: AstView,
    rhs: AstView,
    r: RegistryView,
    before: Bindings,
    res: Outcome,
    after: Bindings,
)
    requires
        !r.infix.contains_key(op),
        evaluates(AstView::Binary(op, Box::new(lhs), Box::new(rhs)), r, before, res, after),
    ensures
        res == Err::<ValueView, ErrorView>(ErrorView::BinaryOpNotRegistered(op)),
        after == before,
        group_of(ErrorView::BinaryOpNotRegistered(op)) == ErrorGroup::Resolution,
{
}

/// A prefix operator that the tables do not hold fails as not registered,
/// whatever its operand is.
pub proof fn lemma_unregistered_prefix(
    op: Seq<char>,
    rhs: AstView,
    r: RegistryView,
    before: Bindings,
    res: Outcome,
    after: Bindings,
)
    requires
        !r.prefix.contains_key(op),
        evaluates(AstView::Unary(op, Box::new(rhs)), r, before, res, after),
    ensures
        res == Err::<ValueView, ErrorView>(ErrorView::UnaryOpNotRegistered(op)),
        after == before,
{
}

/// A postfix operator that the tables do not hold fails as not registered,
/// whatever its operand is.
pub proof fn lemma_unregistered_postfix(
    op: Seq<char>,
    lhs: AstView,
    r: RegistryView,
    before: Bindings,
    res: Outcome,
    after: Bindings,
)
    requires
        !r.postfix.contains_key(op),
        evaluates(AstView::Postfix(Box::new(lhs), op), r, before, res, after),
    ensures
        res == Err::<ValueView, ErrorView>(ErrorView::UnaryOpNotRegistered(op)),
        after == before,
{
}

/// A call of a name that neither the context nor the tables hold as a
/// function fails as not registered, once its arguments are evaluated.
pub proof fn lemma_unregistered_function(
    name: Seq<char>,
    r: RegistryView,
    bindings: Bindings,
    args: Seq<ValueView>,
    res: Outcome,
)
    requires
        !r.functions.contains_key(name),
        !(bindings.contains_key(name) && bindings[name] is Function),
        call_outcome(r, bindings, name, args, res),
    ensures
        res == Err::<ValueView, ErrorView>(ErrorView::InnerFunctionNotRegistered(name)),
{
}

/// A conditional expression whose condition is the literal `true` evaluates
/// as its first branch does, whatever its second branch is; with the
/// literal `false`, as its second branch, whatever the first is.
pub proof fn lemma_ternary_takes_one_branch(
    chosen: bool,
    lhs: AstView,
    rhs: AstView,
    r: RegistryView,
    before: Bindings,
    res: Outcome,
    after: Bindings,
)
    ensures
        evaluates(
            AstView::Ternary(
                Box::new(AstView::Literal(LiteralView::Bool(chosen))),
                Box::new(lhs),
                Box::new(rhs),
            ),
            r,
            before,
            res,
            after,
        ) <==> evaluates(
            if chosen {
                lhs
            } else {
                rhs
            },
            r,
            before,
            res,
            after,
        ),
{
    let condition = AstView::Literal(LiteralView::Bool(chosen));
    let whole = AstView::Ternary(Box::new(condition), Box::new(lhs), Box::new(rhs));
    let branch = if chosen {
        lhs
    } else {
        rhs
    };
    if evaluates(branch, r, before, res, after) {
        assert(witness_pair(Ok::<ValueView, ErrorView>(ValueView::Bool(chosen)), before));
        assert(evaluates(
            condition,
            r,
            before,
            Ok::<ValueView, ErrorView>(ValueView::Bool(chosen)),
            before,
        ));
    }
    if evaluates(whole, r, before, res, after) {
        let (c, mid) = choose|c: Outcome, mid: Bindings| #[trigger]
            witness_pair(c, mid) && evaluates(condition, r, before, c, mid) && match c {
                Err(e) => res == Err::<ValueView, ErrorView>(e) && after == mid,
                Ok(ValueView::Bool(true)) => evaluates(lhs, r, mid, res, after),
                Ok(ValueView::Bool(false)) => evaluates(rhs, r, mid, res, after),
                Ok(_) => res == Err::<ValueView, ErrorView>(ErrorView::ShouldBeBool) && after
                    == mid,
            };
        assert(c == Ok::<ValueView, ErrorView>(ValueView::Bool(chosen)) && mid == before);
    }
}

/// Where the condition of a conditional expression evaluates to a truth
/// value, the expression evaluates as the branch that the value chooses,
/// from the bindings that the condition left; the other branch has no part
/// in it.
pub proof fn lemma_ternary_branch(
    condition: AstView,
    lhs: AstView,
    rhs: AstView,
    chosen: bool,
    r: RegistryView,
    before: Bindings,
    mid: Bindings,
    res: Outcome,
    after: Bindings,
)
    requires
        evaluates(condition, r, before, Ok::<ValueView, ErrorView>(ValueView::Bool(chosen)), mid),
        evaluates(
            if chosen {
                lhs
            } else {
                rhs
            },
            r,
            mid,
            res,
            after,
        ),
    ensures
        evaluates(
            AstView::Ternary(Box::new(condition), Box::new(lhs), Box::new(rhs)),
            r,
            before,
            res,
            after,
        ),
{
    assert(witness_pair(Ok::<ValueView, ErrorView>(ValueView::Bool(chosen)), mid));
}

/// A chain whose statements evaluate to `values` has the value of the last
/// of them, and `Nil` where it has no statement.
pub proof fn lemma_chain_value(
    statements: Seq<AstView>,
    r: RegistryView,
    before: Bindings,
    values: Seq<ValueView>,
    after: Bindings,
)
    requires
        evaluates_all(statements, r, before, Ok::<Seq<ValueView>, ErrorView>(values), after),
    ensures
        evaluates(
            AstView::Chain(statements),
            r,
            before,
            Ok::<ValueView, ErrorView>(chain_value(values)),
            after,
        ),
{
    assert(witness(Ok::<Seq<ValueView>, ErrorView>(values)));
}

/// A list whose items evaluate to `values` is the list of these values, in
/// the order of the items.
pub proof fn lemma_list_value(
    items: Seq<AstView>,
    r: RegistryView,
    before: Bindings,
    values: Seq<ValueView>,
    after: Bindings,
)
    requires
        evaluates_all(items, r, before, Ok::<Seq<ValueView>, ErrorView>(values), after),
    ensures
        evaluates(
            AstView::List(items),
            r,
            before,
            Ok::<ValueView, ErrorView>(ValueView::List(values)),
            after,
        ),
        values.len() == items.len(),
    decreases items.len(),
{
    lemma_all_length(items, r, before, values, after);
}

/// A sequence of expressions that evaluates without failure gives one value
/// for each expression.
pub proof fn lemma_all_length(
    items: Seq<AstView>,
    r: RegistryView,
    before: Bindings,
    values: Seq<ValueView>,
    after: Bindings,
)
    requires
        evaluates_all(items, r, before, Ok::<Seq<ValueView>, ErrorView>(values), after),
    ensures
        values.len() == items.len(),
    decreases items.len(),
{
    if items.len() > 0 {
        let (first, mid) = choose|first: Result<Seq<ValueView>, ErrorView>, mid: Bindings|
            #[trigger] witness_pair(first, mid) && evaluates_all(
                items.drop_last(),
                r,
                before,
                first,
                mid,
            ) && match first {
                Err(e) => Ok::<Seq<ValueView>, ErrorView>(values) == Err::<
                    Seq<ValueView>,
                    ErrorView,
                >(e) && after == mid,
                Ok(found) => exists|v: Outcome| #[trigger]
                    witness(v) && evaluates(items.last(), r, mid, v, after) && match v {
                        Err(e) => Ok::<Seq<ValueView>, ErrorView>(values) == Err::<
                            Seq<ValueView>,
                            ErrorView,
                        >(e),
                        Ok(x) => Ok::<Seq<ValueView>, ErrorView>(values) == Ok::<
                            Seq<ValueView>,
                            ErrorView,
                        >(found.push(x)),
                    },
            };
        lemma_all_length(items.drop_last(), r, before, first->Ok_0, mid);
    }
}

/// An assignment that succeeds has the value `Nil` and binds the name on
/// its left to a value; every other name stays bound as the evaluation of
/// the right side left it.
pub proof fn lemma_assignment(
    op: Seq<char>,
    name: Seq<char>,
    rhs: AstView,
    r: RegistryView,
    before: Bindings,
    res: Outcome,
    after: Bindings,
)
    requires
        r.infix.contains_key(op),
        r.infix[op].1 == BinaryOpType::SETTER,
        evaluates(
            AstView::Binary(op, Box::new(AstView::Reference(name)), Box::new(rhs)),
            r,
            before,
            res,
            after,
        ),
        res is Ok,
    ensures
        res == Ok::<ValueView, ErrorView>(ValueView::Nil),
        after.contains_key(name),
        after[name] is Variable,
{
}

/// Redirecting copies: an operator that was made to stand for another keeps
/// the configuration that the other had then, whatever is registered under
/// the other's name afterwards.
pub proof fn lemma_redirect_is_a_copy(
    table: Map<Seq<char>, BinaryOpConfig>,
    source: Seq<char>,
    target: Seq<char>,
    later: BinaryOpConfig,
)
    requires
        table.contains_key(target),
        source != target,
    ensures
        table.insert(source, table[target]).insert(target, later)[source] == table[target],
        table.insert(source, table[target]).insert(target, later)[target] == later,
{
}

/// The tables only grow: what is an operator stays one when another is
/// registered or redirected.
pub proof fn lemma_registration_keeps_names(
    table: Map<Seq<char>, BinaryOpConfig>,
    name: Seq<char>,
    config: BinaryOpConfig,
    other: Seq<char>,
)
    requires
        table.contains_key(other),
    ensures
        table.insert(name, config).contains_key(other),
        other != name ==> table.insert(name, config)[other] == table[other],
{
}

/// A number as an expression.
pub open spec fn number_leaf(d: Dec) -> AstView {
    AstView::Literal(LiteralView::Number(d))
}

/// Whether `op` is an infix operator that takes part in the climb in the
/// plain way: it is neither `not` nor the question mark, it is no postfix
/// operator, and its precedence is not negative.
pub open spec fn plain_infix(g: Grammar, op: Seq<char>) -> bool {
    &&& g.tables.infix.contains_key(op)
    &&& !g.tables.postfix.contains_key(op)
    &&& op != "not"@
    &&& op != "?"@
    &&& binding_powers(g.tables.infix, op).0 >= 0
}

/// Precedence and associativity decide the shape. After an operand `a`,
/// let the text go on with an operator `o1`, a number `b`, an operator `o2`
/// and a number `c`, and end there. Where `o2` binds at least as tightly as
/// the right binding power of `o1` (a higher precedence, or the same
/// precedence under an operator that associates to the right), the text
/// reads as `a o1 (b o2 c)`, else as `(a o1 b) o2 c`. This holds for
/// whatever operators the tables hold, so also for those that a host has
/// registered.
pub proof fn lemma_precedence_decides(
    g: Grammar,
    a: AstView,
    o1: Seq<char>,
    b: Dec,
    o2: Seq<char>,
    c: Dec,
    st0: PState,
    st1: PState,
    st2: PState,
    st3: PState,
    st4: PState,
)
    requires
        within(g, st0),
        plain_infix(g, o1),
        plain_infix(g, o2),
        st0.cur matches TokenView::Operator(op, _) && op == o1,
        advance(g, st0) == Ok::<PState, ErrorView>(st1),
        st1.cur matches TokenView::Number(d, _) && d == b,
        advance(g, st1) == Ok::<PState, ErrorView>(st2),
        st2.cur matches TokenView::Operator(op, _) && op == o2,
        advance(g, st2) == Ok::<PState, ErrorView>(st3),
        st3.cur matches TokenView::Number(d, _) && d == c,
        advance(g, st3) == Ok::<PState, ErrorView>(st4),
        st4.cur is EOF,
    ensures
        p_op(g, 0, a, false, st0) == Ok::<(AstView, PState), ErrorView>(
            (
                if binding_powers(g.tables.infix, o1).1 <= binding_powers(g.tables.infix, o2).0 {
                    AstView::Binary(
                        o1,
                        Box::new(a),
                        Box::new(
                            AstView::Binary(
                                o2,
                                Box::new(number_leaf(b)),
                                Box::new(number_leaf(c)),
                            ),
                        ),
                    )
                } else {
                    AstView::Binary(
                        o2,
                        Box::new(
                            AstView::Binary(o1, Box::new(a), Box::new(number_leaf(b))),
                        ),
                        Box::new(number_leaf(c)),
                    )
                },
                st4,
            ),
        ),
{
    lemma_advance(g, st0);
    lemma_advance(g, st1);
    lemma_advance(g, st2);
    lemma_advance(g, st3);
    let r1 = binding_powers(g.tables.infix, o1).1;
    let r2 = binding_powers(g.tables.infix, o2).1;
    let lb = number_leaf(b);
    let lc = number_leaf(c);
    assert(p_token(g, st1) == Ok::<(AstView, PState), ErrorView>((lb, st2)));
    assert(p_postfix(g, lb, st2) == Ok::<(AstView, PState), ErrorView>((lb, st2)));
    assert(p_primary(g, st1) == Ok::<(AstView, PState), ErrorView>((lb, st2)));
    assert(p_token(g, st3) == Ok::<(AstView, PState), ErrorView>((lc, st4)));
    assert(p_postfix(g, lc, st4) == Ok::<(AstView, PState), ErrorView>((lc, st4)));
    assert(p_primary(g, st3) == Ok::<(AstView, PState), ErrorView>((lc, st4)));
    assert(!binds(g, st4, r1) && !binds(g, st4, r2));
    assert(p_rhs(g, r2, st3) == Ok::<(AstView, PState), ErrorView>((lc, st4)));
    if r1 <= binding_powers(g.tables.infix, o2).0 {
        let inner = AstView::Binary(o2, Box::new(lb), Box::new(lc));
        assert(binds(g, st2, r1));
        assert(p_op(g, r1, inner, false, st4) == Ok::<(AstView, PState), ErrorView>(
            (inner, st4),
        ));
        assert(p_op(g, r1, lb, false, st2) == Ok::<(AstView, PState), ErrorView>((inner, st4)));
        assert(p_rhs(g, r1, st1) == Ok::<(AstView, PState), ErrorView>((inner, st4)));
        let whole = AstView::Binary(o1, Box::new(a), Box::new(inner));
        assert(p_op(g, 0, whole, false, st4) == Ok::<(AstView, PState), ErrorView>(
            (whole, st4),
        ));
    } else {
        assert(!binds(g, st2, r1));
        assert(p_rhs(g, r1, st1) == Ok::<(AstView, PState), ErrorView>((lb, st2)));
        let left = AstView::Binary(o1, Box::new(a), Box::new(lb));
        let whole = AstView::Binary(o2, Box::new(left), Box::new(lc));
        assert(p_op(g, 0, whole, false, st4) == Ok::<(AstView, PState), ErrorView>(
            (whole, st4),
        ));
        assert(p_op(g, 0, left, false, st2) == Ok::<(AstView, PState), ErrorView>((whole, st4)));
    }
}

/// A `not` before an infix operator negates what the operator gives: after
/// an operand `a`, the text `not o b` reads as the negation of `a o b`.
pub proof fn lemma_not_negates_the_operator(
    g: Grammar,
    a: AstView,
    o: Seq<char>,
    b: Dec,
    st0: PState,
    st1: PState,
    st2: PState,
    st3: PState,
)
    requires
        within(g, st0),
        plain_infix(g, o),
        st0.cur matches TokenView::Operator(op, _) && op == "not"@,
        advance(g, st0) == Ok::<PState, ErrorView>(st1),
        st1.cur matches TokenView::Operator(op, _) && op == o,
        advance(g, st1) == Ok::<PState, ErrorView>(st2),
        st2.cur matches TokenView::Number(d, _) && d == b,
        advance(g, st2) == Ok::<PState, ErrorView>(st3),
        st3.cur is EOF,
    ensures
        p_op(g, 0, a, false, st0) == Ok::<(AstView, PState), ErrorView>(
            (
                AstView::Unary(
                    "not"@,
                    Box::new(AstView::Binary(o, Box::new(a), Box::new(number_leaf(b)))),
                ),
                st3,
            ),
        ),
{
    lemma_advance(g, st0);
    lemma_advance(g, st1);
    lemma_advance(g, st2);
    let r = binding_powers(g.tables.infix, o).1;
    let lb = number_leaf(b);
    assert(p_token(g, st2) == Ok::<(AstView, PState), ErrorView>((lb, st3)));
    assert(p_postfix(g, lb, st3) == Ok::<(AstView, PState), ErrorView>((lb, st3)));
    assert(p_primary(g, st2) == Ok::<(AstView, PState), ErrorView>((lb, st3)));
    assert(!binds(g, st3, r));
    assert(p_rhs(g, r, st2) == Ok::<(AstView, PState), ErrorView>((lb, st3)));
    let whole = AstView::Unary(
        "not"@,
        Box::new(AstView::Binary(o, Box::new(a), Box::new(lb))),
    );
    assert(p_op(g, 0, whole, false, st3) == Ok::<(AstView, PState), ErrorView>((whole, st3)));
    assert(p_op(g, 0, a, true, st1) == Ok::<(AstView, PState), ErrorView>((whole, st3)));
}

/// The canonical text keeps the grouping of operands only where the
/// precedence differs: of two operators of the same precedence, the text of
/// `a o (b p c)` is that of `(a o b) p c`. What is read from a canonical
/// text can therefore be the expression that was written only for one of
/// the two.
pub proof fn lemma_render_forgets_grouping(
    infix: Map<Seq<char>, BinaryOpConfig>,
    o: Seq<char>,
    p: Seq<char>,
    a: Seq<char>,
    b: Seq<char>,
    c: Seq<char>,
)
    requires
        binding_powers(infix, o).0 == binding_powers(infix, p).0,
    ensures
        render(
            AstView::Binary(
                o,
                Box::new(AstView::Reference(a)),
                Box::new(
                    AstView::Binary(
                        p,
                        Box::new(AstView::Reference(b)),
                        Box::new(AstView::Reference(c)),
                    ),
                ),
            ),
            infix,
        ) == render(
            AstView::Binary(
                p,
                Box::new(
                    AstView::Binary(
                        o,
                        Box::new(AstView::Reference(a)),
                        Box::new(AstView::Reference(b)),
                    ),
                ),
                Box::new(AstView::Reference(c)),
            ),
            infix,
        ),
{
    let ra = AstView::Reference(a);
    let rb = AstView::Reference(b);
    let rc = AstView::Reference(c);
    let right = AstView::Binary(p, Box::new(rb), Box::new(rc));
    let left = AstView::Binary(o, Box::new(ra), Box::new(rb));
    assert(render(ra, infix) == a);
    assert(render(rb, infix) == b);
    assert(render(rc, infix) == c);
    assert(render(right, infix) == b + " "@ + p + " "@ + c);
    assert(render(left, infix) == a + " "@ + o + " "@ + b);
    assert(a + " "@ + o + " "@ + (b + " "@ + p + " "@ + c) =~= (a + " "@ + o + " "@ + b) + " "@
        + p + " "@ + c);
}

} // verus!
