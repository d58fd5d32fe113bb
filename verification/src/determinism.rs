use vstd::prelude::*;
use crate::ast::AstView;
use crate::error::ErrorView;
use crate::eval::{
    assignment, call_outcome, chain_value, evaluates, evaluates_all, evaluates_pairs, witness,
    witness_pair, Bindings, Outcome, Outcomes, PairOutcomes,
};
use crate::operator::{binary_outcome, postfix_outcome, unary_outcome, BinaryOpType};
use crate::registry::RegistryView;
use crate::value::ValueView;

verus! {

/// Every operator and function of the tables is a built-in one.
pub open spec fn builtin_only(r: RegistryView) -> bool {
    &&& forall|k: Seq<char>| #[trigger] r.prefix.contains_key(k) ==> r.prefix[k] is Builtin
    &&& forall|k: Seq<char>| #[trigger] r.infix.contains_key(k) ==> r.infix[k].3 is Builtin
    &&& forall|k: Seq<char>| #[trigger] r.postfix.contains_key(k) ==> r.postfix[k] is Builtin
    &&& forall|k: Seq<char>| #[trigger] r.functions.contains_key(k) ==> r.functions[k] is Builtin
}

/// Every name is bound to a value, none to a function.
pub open spec fn values_only(bindings: Bindings) -> bool {
    forall|k: Seq<char>| #[trigger] bindings.contains_key(k) ==> bindings[k] is Variable
}

/// Where no host code takes part, an expression has one outcome: with
/// built-in operators and functions only, and a context that binds values
/// only, two evaluations of one expression from the same bindings end with
/// the same result and the same bindings, which again bind values only.
pub proof fn lemma_one_outcome(
    a: AstView,
    r: RegistryView,
    before: Bindings,
    res1: Outcome,
    after1: Bindings,
    res2: Outcome,
    after2: Bindings,
)
    requires
        builtin_only(r),
        values_only(before),
        evaluates(a, r, before, res1, after1),
        evaluates(a, r, before, res2, after2),
    ensures
        res1 == res2,
        after1 == after2,
        values_only(after1),
    decreases a,
{
    match a {
        AstView::Literal(_) => {},
        AstView::Reference(_) => {},
        AstView::Nil => {},
        AstView::Unary(op, rhs) => {
            if r.prefix.contains_key(op) {
                let v1 = choose|v: Outcome| #[trigger]
                    witness(v) && evaluates(*rhs, r, before, v, after1) && match v {
                        Err(e) => res1 == Err::<ValueView, ErrorView>(e),
                        Ok(x) => unary_outcome(r.prefix[op], x, res1),
                    };
                let v2 = choose|v: Outcome| #[trigger]
                    witness(v) && evaluates(*rhs, r, before, v, after2) && match v {
                        Err(e) => res2 == Err::<ValueView, ErrorView>(e),
                        Ok(x) => unary_outcome(r.prefix[op], x, res2),
                    };
                lemma_one_outcome(*rhs, r, before, v1, after1, v2, after2);
            }
        },
        AstView::Postfix(lhs, op) => {
            if r.postfix.contains_key(op) {
                let v1 = choose|v: Outcome| #[trigger]
                    witness(v) && evaluates(*lhs, r, before, v, after1) && match v {
                        Err(e) => res1 == Err::<ValueView, ErrorView>(e),
                        Ok(x) => postfix_outcome(r.postfix[op], x, res1),
                    };
                let v2 = choose|v: Outcome| #[trigger]
                    witness(v) && evaluates(*lhs, r, before, v, after2) && match v {
                        Err(e) => res2 == Err::<ValueView, ErrorView>(e),
                        Ok(x) => postfix_outcome(r.postfix[op], x, res2),
                    };
                lemma_one_outcome(*lhs, r, before, v1, after1, v2, after2);
            }
        },
        AstView::Binary(op, lhs, rhs) => {
            if r.infix.contains_key(op) {
                lemma_one_binary(op, *lhs, *rhs, r, before, res1, after1, res2, after2);
            }
        },
        AstView::Ternary(condition, lhs, rhs) => {
            let (c1, m1) = choose|c: Outcome, mid: Bindings| #[trigger]
                witness_pair(c, mid) && evaluates(*condition, r, before, c, mid) && match c {
                    Err(e) => res1 == Err::<ValueView, ErrorView>(e) && after1 == mid,
                    Ok(ValueView::Bool(true)) => evaluates(*lhs, r, mid, res1, after1),
                    Ok(ValueView::Bool(false)) => evaluates(*rhs, r, mid, res1, after1),
                    Ok(_) => res1 == Err::<ValueView, ErrorView>(ErrorView::ShouldBeBool)
                        && after1 == mid,
                };
            let (c2, m2) = choose|c: Outcome, mid: Bindings| #[trigger]
                witness_pair(c, mid) && evaluates(*condition, r, before, c, mid) && match c {
                    Err(e) => res2 == Err::<ValueView, ErrorView>(e) && after2 == mid,
                    Ok(ValueView::Bool(true)) => evaluates(*lhs, r, mid, res2, after2),
                    Ok(ValueView::Bool(false)) => evaluates(*rhs, r, mid, res2, after2),
                    Ok(_) => res2 == Err::<ValueView, ErrorView>(ErrorView::ShouldBeBool)
                        && after2 == mid,
                };
            lemma_one_outcome(*condition, r, before, c1, m1, c2, m2);
            match c1 {
                Ok(ValueView::Bool(true)) => {
                    lemma_one_outcome(*lhs, r, m1, res1, after1, res2, after2);
                },
                Ok(ValueView::Bool(false)) => {
                    lemma_one_outcome(*rhs, r, m1, res1, after1, res2, after2);
                },
                _ => {},
            }
        },
        AstView::Function(name, args) => {
            let vs1 = choose|vs: Outcomes| #[trigger]
                witness(vs) && evaluates_all(args, r, before, vs, after1) && match vs {
                    Err(e) => res1 == Err::<ValueView, ErrorView>(e),
                    Ok(values) => call_outcome(r, after1, name, values, res1),
                };
            let vs2 = choose|vs: Outcomes| #[trigger]
                witness(vs) && evaluates_all(args, r, before, vs, after2) && match vs {
                    Err(e) => res2 == Err::<ValueView, ErrorView>(e),
                    Ok(values) => call_outcome(r, after2, name, values, res2),
                };
            lemma_one_outcome_all(args, r, before, vs1, after1, vs2, after2);
        },
        AstView::List(items) => {
            let vs1: Outcomes = match res1 {
                Ok(ValueView::List(values)) => Ok(values),
                Ok(_) => Ok(Seq::empty()),
                Err(e) => Err(e),
            };
            let vs2: Outcomes = match res2 {
                Ok(ValueView::List(values)) => Ok(values),
                Ok(_) => Ok(Seq::empty()),
                Err(e) => Err(e),
            };
            lemma_one_outcome_all(items, r, before, vs1, after1, vs2, after2);
        },
        AstView::Dict(pairs) => {
            let vs1: PairOutcomes = match res1 {
                Ok(ValueView::Dict(values)) => Ok(values),
                Ok(_) => Ok(Seq::empty()),
                Err(e) => Err(e),
            };
            let vs2: PairOutcomes = match res2 {
                Ok(ValueView::Dict(values)) => Ok(values),
                Ok(_) => Ok(Seq::empty()),
                Err(e) => Err(e),
            };
            lemma_one_outcome_pairs(pairs, r, before, vs1, after1, vs2, after2);
        },
        AstView::Chain(items) => {
            let vs1 = choose|vs: Outcomes| #[trigger]
                witness(vs) && evaluates_all(items, r, before, vs, after1) && match vs {
                    Err(e) => res1 == Err::<ValueView, ErrorView>(e),
                    Ok(values) => res1 == Ok::<ValueView, ErrorView>(chain_value(values)),
                };
            let vs2 = choose|vs: Outcomes| #[trigger]
                witness(vs) && evaluates_all(items, r, before, vs, after2) && match vs {
                    Err(e) => res2 == Err::<ValueView, ErrorView>(e),
                    Ok(values) => res2 == Ok::<ValueView, ErrorView>(chain_value(values)),
                };
            lemma_one_outcome_all(items, r, before, vs1, after1, vs2, after2);
        },
    }
}

/// [`lemma_one_outcome`] for an infix operator that the tables hold.
proof fn lemma_one_binary(
    op: Seq<char>,
    lhs: AstView,
    rhs: AstView,
    r: RegistryView,
    before: Bindings,
    res1: Outcome,
    after1: Bindings,
    res2: Outcome,
    after2: Bindings,
)
    requires
        builtin_only(r),
        values_only(before),
        r.infix.contains_key(op),
        evaluates(AstView::Binary(op, Box::new(lhs), Box::new(rhs)), r, before, res1, after1),
        evaluates(AstView::Binary(op, Box::new(lhs), Box::new(rhs)), r, before, res2, after2),
    ensures
        res1 == res2,
        after1 == after2,
        values_only(after1),
    decreases AstView::Binary(op, Box::new(lhs), Box::new(rhs)), 0nat,
{
    let (x1, m1) = choose|v1: Outcome, mid: Bindings| #[trigger]
        witness_pair(v1, mid) && evaluates(lhs, r, before, v1, mid) && match v1 {
            Err(e) => res1 == Err::<ValueView, ErrorView>(e) && after1 == mid,
            Ok(x) => rest_of_binary(op, lhs, rhs, r, mid, x, res1, after1),
        };
    let (x2, m2) = choose|v1: Outcome, mid: Bindings| #[trigger]
        witness_pair(v1, mid) && evaluates(lhs, r, before, v1, mid) && match v1 {
            Err(e) => res2 == Err::<ValueView, ErrorView>(e) && after2 == mid,
            Ok(x) => rest_of_binary(op, lhs, rhs, r, mid, x, res2, after2),
        };
    lemma_one_outcome(lhs, r, before, x1, m1, x2, m2);
    if x1 is Ok {
        let x = x1->Ok_0;
        let (y1, l1) = choose|v2: Outcome, last: Bindings| #[trigger]
            witness_pair(v2, last) && evaluates(rhs, r, m1, v2, last) && match v2 {
                Err(e) => res1 == Err::<ValueView, ErrorView>(e) && after1 == last,
                Ok(y) => end_of_binary(op, lhs, r, last, x, y, res1, after1),
            };
        let (y2, l2) = choose|v2: Outcome, last: Bindings| #[trigger]
            witness_pair(v2, last) && evaluates(rhs, r, m1, v2, last) && match v2 {
                Err(e) => res2 == Err::<ValueView, ErrorView>(e) && after2 == last,
                Ok(y) => end_of_binary(op, lhs, r, last, x, y, res2, after2),
            };
        lemma_one_outcome(rhs, r, m1, y1, l1, y2, l2);
    }
}

/// What the rules ask of an infix operator once its left side has the value
/// `x` and left the bindings `mid`.
pub open spec fn rest_of_binary(
    op: Seq<char>,
    lhs: AstView,
    rhs: AstView,
    r: RegistryView,
    mid: Bindings,
    x: ValueView,
    res: Outcome,
    after: Bindings,
) -> bool {
    exists|v2: Outcome, last: Bindings| #[trigger]
        witness_pair(v2, last) && evaluates(rhs, r, mid, v2, last) && match v2 {
            Err(e) => res == Err::<ValueView, ErrorView>(e) && after == last,
            Ok(y) => end_of_binary(op, lhs, r, last, x, y, res, after),
        }
}

/// What the rules ask of an infix operator once both sides have their
/// values `x` and `y` and left the bindings `last`.
pub open spec fn end_of_binary(
    op: Seq<char>,
    lhs: AstView,
    r: RegistryView,
    last: Bindings,
    x: ValueView,
    y: ValueView,
    res: Outcome,
    after: Bindings,
) -> bool {
    match r.infix[op].1 {
        BinaryOpType::CALC => after == last && binary_outcome(r.infix[op].3, x, y, res),
        BinaryOpType::SETTER => exists|handled: Outcome| #[trigger]
            witness(handled) && binary_outcome(r.infix[op].3, x, y, handled) && assignment(
                lhs,
                handled,
                last,
                res,
                after,
            ),
    }
}

/// [`lemma_one_outcome`] for a sequence of expressions.
pub proof fn lemma_one_outcome_all(
    items: Seq<AstView>,
    r: RegistryView,
    before: Bindings,
    res1: Outcomes,
    after1: Bindings,
    res2: Outcomes,
    after2: Bindings,
)
    requires
        builtin_only(r),
        values_only(before),
        evaluates_all(items, r, before, res1, after1),
        evaluates_all(items, r, before, res2, after2),
    ensures
        res1 == res2,
        after1 == after2,
        values_only(after1),
    decreases items,
{
    if items.len() > 0 {
        let (f1, m1) = choose|first: Outcomes, mid: Bindings| #[trigger]
            witness_pair(first, mid) && evaluates_all(items.drop_last(), r, before, first, mid)
                && match first {
                Err(e) => res1 == Err::<Seq<ValueView>, ErrorView>(e) && after1 == mid,
                Ok(values) => exists|v: Outcome| #[trigger]
                    witness(v) && evaluates(items.last(), r, mid, v, after1) && match v {
                        Err(e) => res1 == Err::<Seq<ValueView>, ErrorView>(e),
                        Ok(x) => res1 == Ok::<Seq<ValueView>, ErrorView>(values.push(x)),
                    },
            };
        let (f2, m2) = choose|first: Outcomes, mid: Bindings| #[trigger]
            witness_pair(first, mid) && evaluates_all(items.drop_last(), r, before, first, mid)
                && match first {
                Err(e) => res2 == Err::<Seq<ValueView>, ErrorView>(e) && after2 == mid,
                Ok(values) => exists|v: Outcome| #[trigger]
                    witness(v) && evaluates(items.last(), r, mid, v, after2) && match v {
                        Err(e) => res2 == Err::<Seq<ValueView>, ErrorView>(e),
                        Ok(x) => res2 == Ok::<Seq<ValueView>, ErrorView>(values.push(x)),
                    },
            };
        lemma_one_outcome_all(items.drop_last(), r, before, f1, m1, f2, m2);
        if f1 is Ok {
            let values = f1->Ok_0;
            let v1 = choose|v: Outcome| #[trigger]
                witness(v) && evaluates(items.last(), r, m1, v, after1) && match v {
                    Err(e) => res1 == Err::<Seq<ValueView>, ErrorView>(e),
                    Ok(x) => res1 == Ok::<Seq<ValueView>, ErrorView>(values.push(x)),
                };
            let v2 = choose|v: Outcome| #[trigger]
                witness(v) && evaluates(items.last(), r, m1, v, after2) && match v {
                    Err(e) => res2 == Err::<Seq<ValueView>, ErrorView>(e),
                    Ok(x) => res2 == Ok::<Seq<ValueView>, ErrorView>(values.push(x)),
                };
            lemma_one_outcome(items.last(), r, m1, v1, after1, v2, after2);
        }
    }
}

/// [`lemma_one_outcome`] for a sequence of pairs of expressions.
pub proof fn lemma_one_outcome_pairs(
    pairs: Seq<(AstView, AstView)>,
    r: RegistryView,
    before: Bindings,
    res1: PairOutcomes,
    after1: Bindings,
    res2: PairOutcomes,
    after2: Bindings,
)
    requires
        builtin_only(r),
        values_only(before),
        evaluates_pairs(pairs, r, before, res1, after1),
        evaluates_pairs(pairs, r, before, res2, after2),
    ensures
        res1 == res2,
        after1 == after2,
        values_only(after1),
    decreases pairs,
{
    if pairs.len() > 0 {
        let (f1, m1) = choose|first: PairOutcomes, mid: Bindings| #[trigger]
            witness_pair(first, mid) && evaluates_pairs(pairs.drop_last(), r, before, first, mid)
                && match first {
                Err(e) => res1 == Err::<Seq<(ValueView, ValueView)>, ErrorView>(e) && after1
                    == mid,
                Ok(values) => last_pair(pairs.last(), r, mid, values, res1, after1),
            };
        let (f2, m2) = choose|first: PairOutcomes, mid: Bindings| #[trigger]
            witness_pair(first, mid) && evaluates_pairs(pairs.drop_last(), r, before, first, mid)
                && match first {
                Err(e) => res2 == Err::<Seq<(ValueView, ValueView)>, ErrorView>(e) && after2
                    == mid,
                Ok(values) => last_pair(pairs.last(), r, mid, values, res2, after2),
            };
        lemma_one_outcome_pairs(pairs.drop_last(), r, before, f1, m1, f2, m2);
        if f1 is Ok {
            let values = f1->Ok_0;
            let (k1, n1) = choose|k: Outcome, mid2: Bindings| #[trigger]
                witness_pair(k, mid2) && evaluates(pairs.last().0, r, m1, k, mid2) && match k {
                    Err(e) => res1 == Err::<Seq<(ValueView, ValueView)>, ErrorView>(e) && after1
                        == mid2,
                    Ok(x) => last_value(pairs.last().1, r, mid2, values, x, res1, after1),
                };
            let (k2, n2) = choose|k: Outcome, mid2: Bindings| #[trigger]
                witness_pair(k, mid2) && evaluates(pairs.last().0, r, m1, k, mid2) && match k {
                    Err(e) => res2 == Err::<Seq<(ValueView, ValueView)>, ErrorView>(e) && after2
                        == mid2,
                    Ok(x) => last_value(pairs.last().1, r, mid2, values, x, res2, after2),
                };
            lemma_one_outcome(pairs.last().0, r, m1, k1, n1, k2, n2);
            if k1 is Ok {
                let x = k1->Ok_0;
                let v1 = choose|v: Outcome| #[trigger]
                    witness(v) && evaluates(pairs.last().1, r, n1, v, after1) && match v {
                        Err(e) => res1 == Err::<Seq<(ValueView, ValueView)>, ErrorView>(e),
                        Ok(y) => res1 == Ok::<Seq<(ValueView, ValueView)>, ErrorView>(
                            values.push((x, y)),
                        ),
                    };
                let v2 = choose|v: Outcome| #[trigger]
                    witness(v) && evaluates(pairs.last().1, r, n1, v, after2) && match v {
                        Err(e) => res2 == Err::<Seq<(ValueView, ValueView)>, ErrorView>(e),
                        Ok(y) => res2 == Ok::<Seq<(ValueView, ValueView)>, ErrorView>(
                            values.push((x, y)),
                        ),
                    };
                lemma_one_outcome(pairs.last().1, r, n1, v1, after1, v2, after2);
            }
        }
    }
}

/// What the rules ask of the last pair of a dictionary once the pairs
/// before it have the values `values`.
pub open spec fn last_pair(
    pair: (AstView, AstView),
    r: RegistryView,
    mid: Bindings,
    values: Seq<(ValueView, ValueView)>,
    res: PairOutcomes,
    after: Bindings,
) -> bool {
    exists|k: Outcome, mid2: Bindings| #[trigger]
        witness_pair(k, mid2) && evaluates(pair.0, r, mid, k, mid2) && match k {
            Err(e) => res == Err::<Seq<(ValueView, ValueView)>, ErrorView>(e) && after == mid2,
            Ok(x) => last_value(pair.1, r, mid2, values, x, res, after),
        }
}

/// What the rules ask of the value of the last pair once its key has the
/// value `x`.
pub open spec fn last_value(
    value: AstView,
    r: RegistryView,
    mid: Bindings,
    values: Seq<(ValueView, ValueView)>,
    x: ValueView,
    res: PairOutcomes,
    after: Bindings,
) -> bool {
    exists|v: Outcome| #[trigger]
        witness(v) && evaluates(value, r, mid, v, after) && match v {
            Err(e) => res == Err::<Seq<(ValueView, ValueView)>, ErrorView>(e),
            Ok(y) => res == Ok::<Seq<(ValueView, ValueView)>, ErrorView>(values.push((x, y))),
        }
}

} // verus!
