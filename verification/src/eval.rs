use vstd::prelude::*;
use crate::ast::{
    ast_pairs_view, asts_view, lemma_chain_view, lemma_dict_ast_view, lemma_function_view,
    lemma_list_ast_view, AstView, ExprAST, Literal, LiteralView,
};
use crate::context::Context;
use crate::error::Error;
use crate::registry::Registry;
use crate::value::{lemma_dict_view, lemma_list_view, pairs_view, result_view, values_view, Value};
use crate::context::{reference_outcome, Binding};
use crate::error::ErrorView;
use crate::function::function_outcome;
use crate::builtin::binary_result;
use crate::operator::{
    binary_outcome, postfix_outcome, unary_outcome, BinaryOpHandler, BinaryOpType,
};
use crate::registry::RegistryView;
use crate::value::ValueView;

verus! {

/// The bindings of a context.
pub type Bindings = Map<Seq<char>, Binding>;

/// The outcome of evaluating one expression.
pub type Outcome = Result<ValueView, ErrorView>;

/// The outcome of evaluating a sequence of expressions.
pub type Outcomes = Result<Seq<ValueView>, ErrorView>;

/// The outcome of evaluating a sequence of pairs of expressions.
pub type PairOutcomes = Result<Seq<(ValueView, ValueView)>, ErrorView>;

/// Always true. An `exists` below names its witness through it, so that a
/// proof can point at the outcome it has in hand.
pub open spec fn witness<A>(a: A) -> bool {
    true
}

/// Always true; as [`witness`], for an outcome together with bindings.
pub open spec fn witness_pair<A, B>(a: A, b: B) -> bool {
    true
}

/// Always true; as [`witness`], for three things.
pub open spec fn witness_triple<A, B, C>(a: A, b: B, c: C) -> bool {
    true
}

/// The value of a literal.
pub open spec fn literal_value(l: LiteralView) -> ValueView {
    match l {
        LiteralView::Number(d) => ValueView::Number(d),
        LiteralView::Bool(b) => ValueView::Bool(b),
        LiteralView::String(s) => ValueView::String(s),
    }
}

/// What an assignment operator does once both sides are evaluated and its
/// handler has returned `handled`: the left side must be a reference; a
/// value is then bound to its name and the expression's own value is `Nil`.
pub open spec fn assignment(
    lhs: AstView,
    handled: Outcome,
    before: Bindings,
    res: Outcome,
    after: Bindings,
) -> bool {
    match lhs {
        AstView::Reference(name) => match handled {
            Ok(v) => res == Ok::<ValueView, ErrorView>(ValueView::Nil) && after == before.insert(
                name,
                Binding::Variable(v),
            ),
            Err(e) => res == Err::<ValueView, ErrorView>(e) && after == before,
        },
        _ => res == Err::<ValueView, ErrorView>(ErrorView::NotReferenceExpr) && after == before,
    }
}

/// What calling the function `name` with the values `args` may give: a
/// function of the context comes before one of the tables; a name that
/// neither holds is not registered.
pub open spec fn call_outcome(
    r: RegistryView,
    bindings: Bindings,
    name: Seq<char>,
    args: Seq<ValueView>,
    res: Outcome,
) -> bool {
    if bindings.contains_key(name) && bindings[name] is Function {
        true
    } else if r.functions.contains_key(name) {
        function_outcome(r.functions[name], args, res)
    } else {
        res == Err::<ValueView, ErrorView>(ErrorView::InnerFunctionNotRegistered(name))
    }
}

/// The value of a chain of statements whose values are `values`: that of
/// the last, and `Nil` where there is none.
pub open spec fn chain_value(values: Seq<ValueView>) -> ValueView {
    if values.len() == 0 {
        ValueView::Nil
    } else {
        values.last()
    }
}

/// The evaluation rules: whether evaluating `a` against the tables `r`,
/// starting with the bindings `before`, may end with the outcome `res` and
/// the bindings `after`. The first failure ends an evaluation; what was
/// bound until then stays bound. Children are evaluated from left to right;
/// of a conditional expression only the chosen branch is evaluated. An
/// operator that the tables do not hold fails before its operands are
/// looked at.
pub open spec fn evaluates(
    a: AstView,
    r: RegistryView,
    before: Bindings,
    res: Outcome,
    after: Bindings,
) -> bool
    decreases a,
{
    match a {
        AstView::Literal(l) => after == before && res == Ok::<ValueView, ErrorView>(
            literal_value(l),
        ),
        AstView::Reference(name) => after == before && reference_outcome(before, name, res),
        AstView::Nil => after == before && res == Ok::<ValueView, ErrorView>(ValueView::Nil),
        AstView::Unary(op, rhs) => if !r.prefix.contains_key(op) {
            after == before && res == Err::<ValueView, ErrorView>(
                ErrorView::UnaryOpNotRegistered(op),
            )
        } else {
            exists|v: Outcome| #[trigger]
                witness(v) && evaluates(*rhs, r, before, v, after) && match v {
                    Err(e) => res == Err::<ValueView, ErrorView>(e),
                    Ok(x) => unary_outcome(r.prefix[op], x, res),
                }
        },
        AstView::Postfix(lhs, op) => if !r.postfix.contains_key(op) {
            after == before && res == Err::<ValueView, ErrorView>(
                ErrorView::UnaryOpNotRegistered(op),
            )
        } else {
            exists|v: Outcome| #[trigger]
                witness(v) && evaluates(*lhs, r, before, v, after) && match v {
                    Err(e) => res == Err::<ValueView, ErrorView>(e),
                    Ok(x) => postfix_outcome(r.postfix[op], x, res),
                }
        },
        AstView::Binary(op, lhs, rhs) => if !r.infix.contains_key(op) {
            after == before && res == Err::<ValueView, ErrorView>(
                ErrorView::BinaryOpNotRegistered(op),
            )
        } else {
            exists|v1: Outcome, mid: Bindings| #[trigger]
                witness_pair(v1, mid) && evaluates(*lhs, r, before, v1, mid) && match v1 {
                    Err(e) => res == Err::<ValueView, ErrorView>(e) && after == mid,
                    Ok(x) => exists|v2: Outcome, last: Bindings| #[trigger]
                        witness_pair(v2, last) && evaluates(*rhs, r, mid, v2, last) && match v2 {
                            Err(e) => res == Err::<ValueView, ErrorView>(e) && after == last,
                            Ok(y) => match r.infix[op].1 {
                                BinaryOpType::CALC => after == last && binary_outcome(
                                    r.infix[op].3,
                                    x,
                                    y,
                                    res,
                                ),
                                BinaryOpType::SETTER => exists|handled: Outcome| #[trigger]
                                    witness(handled) && binary_outcome(r.infix[op].3, x, y, handled) && assignment(
                                        *lhs,
                                        handled,
                                        last,
                                        res,
                                        after,
                                    ),
                            },
                        },
                }
        },
        AstView::Ternary(condition, lhs, rhs) => exists|c: Outcome, mid: Bindings| #[trigger]
            witness_pair(c, mid) && evaluates(*condition, r, before, c, mid) && match c {
                Err(e) => res == Err::<ValueView, ErrorView>(e) && after == mid,
                Ok(ValueView::Bool(true)) => evaluates(*lhs, r, mid, res, after),
                Ok(ValueView::Bool(false)) => evaluates(*rhs, r, mid, res, after),
                Ok(_) => res == Err::<ValueView, ErrorView>(ErrorView::ShouldBeBool) && after
                    == mid,
            },
        AstView::Function(name, args) => exists|vs: Outcomes| #[trigger]
            witness(vs) && evaluates_all(args, r, before, vs, after) && match vs {
                Err(e) => res == Err::<ValueView, ErrorView>(e),
                Ok(values) => call_outcome(r, after, name, values, res),
            },
        AstView::List(items) => match res {
            Ok(ValueView::List(values)) => evaluates_all(
                items,
                r,
                before,
                Ok::<Seq<ValueView>, ErrorView>(values),
                after,
            ),
            Ok(_) => false,
            Err(e) => evaluates_all(items, r, before, Err::<Seq<ValueView>, ErrorView>(e), after),
        },
        AstView::Dict(pairs) => match res {
            Ok(ValueView::Dict(values)) => evaluates_pairs(
                pairs,
                r,
                before,
                Ok::<Seq<(ValueView, ValueView)>, ErrorView>(values),
                after,
            ),
            Ok(_) => false,
            Err(e) => evaluates_pairs(
                pairs,
                r,
                before,
                Err::<Seq<(ValueView, ValueView)>, ErrorView>(e),
                after,
            ),
        },
        AstView::Chain(items) => exists|vs: Outcomes| #[trigger]
            witness(vs) && evaluates_all(items, r, before, vs, after) && match vs {
                Err(e) => res == Err::<ValueView, ErrorView>(e),
                Ok(values) => res == Ok::<ValueView, ErrorView>(chain_value(values)),
            },
    }
}

/// Whether evaluating the expressions `items` one after the other may end
/// with the outcome `res`, their values in order, and the bindings `after`.
pub open spec fn evaluates_all(
    items: Seq<AstView>,
    r: RegistryView,
    before: Bindings,
    res: Outcomes,
    after: Bindings,
) -> bool
    decreases items,
{
    if items.len() == 0 {
        after == before && res == Ok::<Seq<ValueView>, ErrorView>(Seq::empty())
    } else {
        exists|first: Outcomes, mid: Bindings| #[trigger]
            witness_pair(first, mid) && evaluates_all(items.drop_last(), r, before, first, mid) && match first {
                Err(e) => res == Err::<Seq<ValueView>, ErrorView>(e) && after == mid,
                Ok(values) => exists|v: Outcome| #[trigger]
                    witness(v) && evaluates(items.last(), r, mid, v, after) && match v {
                        Err(e) => res == Err::<Seq<ValueView>, ErrorView>(e),
                        Ok(x) => res == Ok::<Seq<ValueView>, ErrorView>(values.push(x)),
                    },
            }
    }
}

/// Whether evaluating the pairs `pairs` one after the other, each key before
/// its value, may end with the outcome `res` and the bindings `after`.
pub open spec fn evaluates_pairs(
    pairs: Seq<(AstView, AstView)>,
    r: RegistryView,
    before: Bindings,
    res: PairOutcomes,
    after: Bindings,
) -> bool
    decreases pairs,
{
    if pairs.len() == 0 {
        after == before && res == Ok::<Seq<(ValueView, ValueView)>, ErrorView>(Seq::empty())
    } else {
        exists|first: PairOutcomes, mid: Bindings| #[trigger]
            witness_pair(first, mid) && evaluates_pairs(pairs.drop_last(), r, before, first, mid) && match first {
                Err(e) => res == Err::<Seq<(ValueView, ValueView)>, ErrorView>(e) && after == mid,
                Ok(values) => exists|k: Outcome, mid2: Bindings| #[trigger]
                    witness_pair(k, mid2) && evaluates(pairs.last().0, r, mid, k, mid2) && match k {
                        Err(e) => res == Err::<Seq<(ValueView, ValueView)>, ErrorView>(e) && after
                            == mid2,
                        Ok(x) => exists|v: Outcome| #[trigger]
                            witness(v) && evaluates(pairs.last().1, r, mid2, v, after) && match v {
                                Err(e) => res == Err::<Seq<(ValueView, ValueView)>, ErrorView>(e),
                                Ok(y) => res == Ok::<Seq<(ValueView, ValueView)>, ErrorView>(
                                    values.push((x, y)),
                                ),
                            },
                    },
            }
    }
}

/// The view of the outcome of evaluating a sequence.
pub open spec fn results_view(r: Result<Vec<Value>, Error>) -> Outcomes {
    match r {
        Ok(v) => Ok(values_view(v@)),
        Err(e) => Err(e@),
    }
}

/// The view of the outcome of evaluating a sequence of pairs.
pub open spec fn pair_results_view(r: Result<Vec<(Value, Value)>, Error>) -> PairOutcomes {
    match r {
        Ok(v) => Ok(pairs_view(v@)),
        Err(e) => Err(e@),
    }
}

/// A sequence that has failed after its first `n` expressions has failed as
/// a whole, with the same failure and the same bindings.
pub proof fn lemma_all_fails(
    items: Seq<AstView>,
    r: RegistryView,
    before: Bindings,
    e: ErrorView,
    after: Bindings,
    n: int,
)
    requires
        0 <= n <= items.len(),
        evaluates_all(items.take(n), r, before, Err::<Seq<ValueView>, ErrorView>(e), after),
    ensures
        evaluates_all(items, r, before, Err::<Seq<ValueView>, ErrorView>(e), after),
    decreases items.len() - n,
{
    if n == items.len() {
        assert(items.take(n) =~= items);
    } else {
        let next = items.take(n + 1);
        assert(next.drop_last() =~= items.take(n));
        assert(witness_pair(Err::<Seq<ValueView>, ErrorView>(e), after));
        lemma_all_fails(items, r, before, e, after, n + 1);
    }
}

/// As [`lemma_all_fails`], for pairs.
pub proof fn lemma_pairs_fail(
    pairs: Seq<(AstView, AstView)>,
    r: RegistryView,
    before: Bindings,
    e: ErrorView,
    after: Bindings,
    n: int,
)
    requires
        0 <= n <= pairs.len(),
        evaluates_pairs(
            pairs.take(n),
            r,
            before,
            Err::<Seq<(ValueView, ValueView)>, ErrorView>(e),
            after,
        ),
    ensures
        evaluates_pairs(pairs, r, before, Err::<Seq<(ValueView, ValueView)>, ErrorView>(e), after),
    decreases pairs.len() - n,
{
    if n == pairs.len() {
        assert(pairs.take(n) =~= pairs);
    } else {
        let next = pairs.take(n + 1);
        assert(next.drop_last() =~= pairs.take(n));
        assert(witness_pair(Err::<Seq<(ValueView, ValueView)>, ErrorView>(e), after));
        lemma_pairs_fail(pairs, r, before, e, after, n + 1);
    }
}

/// Evaluates the expressions `items` one after the other, up to the first
/// failure.
#[verifier::loop_isolation(false)]
fn exec_all(items: &Vec<ExprAST>, registry: &Registry, ctx: &mut Context) -> (r: Result<
    Vec<Value>,
    Error,
>)
    ensures
        evaluates_all(asts_view(items@), registry@, old(ctx)@, results_view(r), final(ctx)@),
    decreases items,
{
    let ghost all = asts_view(items@);
    let mut out: Vec<Value> = Vec::new();
    let mut i: usize = 0;
    assert(all.take(0) =~= Seq::<AstView>::empty());
    assert(values_view(out@) =~= Seq::<ValueView>::empty());
    while i < items.len()
        invariant
            i <= items.len(),
            all == asts_view(items@),
            evaluates_all(
                all.take(i as int),
                registry@,
                old(ctx)@,
                Ok::<Seq<ValueView>, ErrorView>(values_view(out@)),
                ctx@,
            ),
        decreases items.len() - i,
    {
        let ghost mid = ctx@;
        let ghost first = values_view(out@);
        let v = items[i].exec(registry, ctx);
        proof {
            let next = all.take(i as int + 1);
            assert(next.drop_last() =~= all.take(i as int));
            assert(next.last() == items@[i as int]@);
            assert(witness_pair(Ok::<Seq<ValueView>, ErrorView>(first), mid));
            assert(witness(result_view(v)));
        }
        match v {
            Ok(x) => {
                out.push(x);
                assert(values_view(out@) =~= first.push(x@));
            },
            Err(e) => {
                proof {
                    lemma_all_fails(all, registry@, old(ctx)@, e@, ctx@, i as int + 1);
                }
                return Err(e);
            },
        }
        i += 1;
    }
    assert(all.take(i as int) =~= all);
    Ok(out)
}

/// Evaluates the pairs `pairs` one after the other, each key before its
/// value, up to the first failure.
#[verifier::loop_isolation(false)]
fn exec_pairs(pairs: &Vec<(ExprAST, ExprAST)>, registry: &Registry, ctx: &mut Context) -> (r:
    Result<Vec<(Value, Value)>, Error>)
    ensures
        evaluates_pairs(
            ast_pairs_view(pairs@),
            registry@,
            old(ctx)@,
            pair_results_view(r),
            final(ctx)@,
        ),
    decreases pairs,
{
    let ghost all = ast_pairs_view(pairs@);
    let mut out: Vec<(Value, Value)> = Vec::new();
    let mut i: usize = 0;
    assert(all.take(0) =~= Seq::<(AstView, AstView)>::empty());
    assert(pairs_view(out@) =~= Seq::<(ValueView, ValueView)>::empty());
    while i < pairs.len()
        invariant
            i <= pairs.len(),
            all == ast_pairs_view(pairs@),
            evaluates_pairs(
                all.take(i as int),
                registry@,
                old(ctx)@,
                Ok::<Seq<(ValueView, ValueView)>, ErrorView>(pairs_view(out@)),
                ctx@,
            ),
        decreases pairs.len() - i,
    {
        let ghost mid = ctx@;
        let ghost first = pairs_view(out@);
        proof {
            let next = all.take(i as int + 1);
            assert(next.drop_last() =~= all.take(i as int));
            assert(next.last() == (pairs@[i as int].0@, pairs@[i as int].1@));
            assert(witness_pair(Ok::<Seq<(ValueView, ValueView)>, ErrorView>(first), mid));
        }
        let k = pairs[i].0.exec(registry, ctx);
        let ghost mid2 = ctx@;
        assert(witness_pair(result_view(k), mid2));
        let key = match k {
            Ok(x) => x,
            Err(e) => {
                proof {
                    lemma_pairs_fail(all, registry@, old(ctx)@, e@, ctx@, i as int + 1);
                }
                return Err(e);
            },
        };
        let v = pairs[i].1.exec(registry, ctx);
        assert(witness(result_view(v)));
        match v {
            Ok(y) => {
                let ghost kv = (key@, y@);
                out.push((key, y));
                assert(pairs_view(out@) =~= first.push(kv));
            },
            Err(e) => {
                proof {
                    lemma_pairs_fail(all, registry@, old(ctx)@, e@, ctx@, i as int + 1);
                }
                return Err(e);
            },
        }
        i += 1;
    }
    assert(all.take(i as int) =~= all);
    Ok(out)
}

impl ExprAST {
    /// Evaluates this expression against the tables `registry`, reading
    /// and writing the bindings of `ctx`.
    pub fn exec(&self, registry: &Registry, ctx: &mut Context) -> (r: Result<Value, Error>)
        ensures
            evaluates(self@, registry@, old(ctx)@, result_view(r), final(ctx)@),
        decreases self,
    {
        match self {
            ExprAST::Literal(literal) => self.exec_literal(literal),
            ExprAST::Reference(name) => ctx.value(name.as_str()),
            ExprAST::Function(name, exprs) => {
                proof {
                    lemma_function_view(*name, *exprs);
                }
                let params = exec_all(exprs, registry, ctx);
                assert(witness(results_view(params)));
                match params {
                    Err(e) => Err(e),
                    Ok(params) => match ctx.get_func(name.as_str()) {
                        Some(func) => func.call(params),
                        None => registry.functions.apply(name.as_str(), params),
                    },
                }
            },
            ExprAST::Unary(op, rhs) => {
                if !registry.prefix.exist(op.as_str()) {
                    return registry.prefix.apply(op.as_str(), Value::Nil);
                }
                let v = rhs.exec(registry, ctx);
                assert(witness(result_view(v)));
                match v {
                    Err(e) => Err(e),
                    Ok(x) => registry.prefix.apply(op.as_str(), x),
                }
            },
            ExprAST::Binary(op, lhs, rhs) => self.exec_binary(op, lhs, rhs, registry, ctx),
            ExprAST::Postfix(lhs, op) => {
                if !registry.postfix.exist(op.as_str()) {
                    return registry.postfix.apply(op.as_str(), Value::Nil);
                }
                let v = lhs.exec(registry, ctx);
                assert(witness(result_view(v)));
                match v {
                    Err(e) => Err(e),
                    Ok(x) => registry.postfix.apply(op.as_str(), x),
                }
            },
            ExprAST::Ternary(condition, lhs, rhs) => {
                let c = condition.exec(registry, ctx);
                assert(witness_pair(result_view(c), ctx@));
                match c {
                    Err(e) => Err(e),
                    Ok(Value::Bool(val)) => {
                        if val {
                            lhs.exec(registry, ctx)
                        } else {
                            rhs.exec(registry, ctx)
                        }
                    },
                    Ok(_) => Err(Error::ShouldBeBool()),
                }
            },
            ExprAST::List(params) => {
                proof {
                    lemma_list_ast_view(*params);
                }
                match exec_all(params, registry, ctx) {
                    Ok(values) => {
                        proof {
                            lemma_list_view(values);
                        }
                        Ok(Value::List(values))
                    },
                    Err(e) => Err(e),
                }
            },
            ExprAST::Chain(exprs) => {
                proof {
                    lemma_chain_view(*exprs);
                }
                let values = exec_all(exprs, registry, ctx);
                assert(witness(results_view(values)));
                match values {
                    Ok(values) => {
                        let mut values = values;
                        let ghost all = values_view(values@);
                        match values.pop() {
                            Some(last) => {
                                assert(last@ == all.last());
                                Ok(last)
                            },
                            None => Ok(Value::Nil),
                        }
                    },
                    Err(e) => Err(e),
                }
            },
            ExprAST::Dict(m) => {
                proof {
                    lemma_dict_ast_view(*m);
                }
                match exec_pairs(m, registry, ctx) {
                    Ok(values) => {
                        proof {
                            lemma_dict_view(values);
                        }
                        Ok(Value::Dict(values))
                    },
                    Err(e) => Err(e),
                }
            },
            ExprAST::Nil => Ok(Value::Nil),
        }
    }

    fn exec_literal(&self, literal: &Literal) -> (r: Result<Value, Error>)
        ensures
            result_view(r) == Ok::<ValueView, ErrorView>(literal_value(literal@)),
    {
        match literal {
            Literal::Bool(value) => Ok(Value::Bool(*value)),
            Literal::Number(value) => Ok(Value::Number(*value)),
            Literal::String(value) => Ok(Value::String(value.clone())),
        }
    }

    fn exec_binary(
        &self,
        op: &String,
        lhs: &Box<ExprAST>,
        rhs: &Box<ExprAST>,
        registry: &Registry,
        ctx: &mut Context,
    ) -> (r: Result<Value, Error>)
        requires
            *self == ExprAST::Binary(*op, *lhs, *rhs),
        ensures
            evaluates(self@, registry@, old(ctx)@, result_view(r), final(ctx)@),
        decreases self, 0nat,
    {
        let config = match registry.infix.get(op.as_str()) {
            Ok(config) => config,
            Err(e) => {
                return Err(e);
            },
        };
        let a = lhs.exec(registry, ctx);
        let ghost mid = ctx@;
        assert(witness_pair(result_view(a), mid));
        let x = match a {
            Ok(x) => x,
            Err(e) => {
                return Err(e);
            },
        };
        let b = rhs.exec(registry, ctx);
        let ghost last = ctx@;
        assert(witness_pair(result_view(b), last));
        let y = match b {
            Ok(y) => y,
            Err(e) => {
                return Err(e);
            },
        };
        match config.1 {
            BinaryOpType::CALC => registry.infix.apply(op.as_str(), x, y),
            BinaryOpType::SETTER => {
                let name = match lhs.get_reference_name() {
                    Ok(name) => name,
                    Err(e) => {
                        proof {
                            let handled: Outcome = match config.3 {
                                BinaryOpHandler::Builtin(kind) => binary_result(kind, x@, y@),
                                BinaryOpHandler::Custom(_) => Ok(ValueView::Nil),
                            };
                            assert(witness(handled));
                        }
                        return Err(e);
                    },
                };
                let handled = registry.infix.apply(op.as_str(), x, y);
                assert(witness(result_view(handled)));
                match handled {
                    Ok(v) => {
                        ctx.set_variable(name.as_str(), v);
                        Ok(Value::Nil)
                    },
                    Err(e) => Err(e),
                }
            },
        }
    }

    /// The name that this expression refers to, where it is a reference.
    fn get_reference_name(&self) -> (r: Result<&String, Error>)
        ensures
            match self@ {
                AstView::Reference(name) => r matches Ok(s) && s@ == name,
                _ => r matches Err(e) && e@ == ErrorView::NotReferenceExpr,
            },
    {
        match self {
            ExprAST::Reference(name) => Ok(name),
            _ => Err(Error::NotReferenceExpr),
        }
    }
}

} // verus!
