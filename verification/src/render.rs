use vstd::prelude::*;
use vstd::string::StringExecFns;
use crate::ast::{
    ast_pairs_view, asts_view, lemma_chain_view, lemma_dict_ast_view, lemma_function_view,
    lemma_list_ast_view, AstView, ExprAST, Literal, LiteralView,
};
use crate::number::decimal_text;
use crate::operator::{binding_powers, BinaryOpConfig};
use crate::registry::Registry;

verus! {

/// The infix operators as a table from names.
pub type InfixTable = Map<Seq<char>, BinaryOpConfig>;

/// The text of a literal: a string stands in double quotes.
pub open spec fn literal_text(l: LiteralView) -> Seq<char> {
    match l {
        LiteralView::Number(d) => decimal_text(d),
        LiteralView::Bool(b) => if b {
            "true"@
        } else {
            "false"@
        },
        LiteralView::String(s) => "\""@ + s + "\""@,
    }
}

/// The texts `parts`, each after the first preceded by `sep`.
pub open spec fn joined(parts: Seq<Seq<char>>, sep: Seq<char>) -> Seq<char>
    decreases parts.len(),
{
    if parts.len() == 0 {
        Seq::empty()
    } else if parts.len() == 1 {
        parts[0]
    } else {
        joined(parts.drop_last(), sep) + sep + parts.last()
    }
}

/// Whether the operand `child` of the infix operator `op` is written in
/// parentheses: a binary node whose operator has a lower precedence than
/// `op`, and a conditional expression.
pub open spec fn needs_parens(child: AstView, op: Seq<char>, infix: InfixTable) -> bool {
    match child {
        AstView::Binary(inner, _, _) => binding_powers(infix, inner).0 < binding_powers(
            infix,
            op,
        ).0,
        AstView::Ternary(_, _, _) => true,
        _ => false,
    }
}

/// `text`, in parentheses where `parens` holds.
pub open spec fn wrapped(text: Seq<char>, parens: bool) -> Seq<char> {
    if parens {
        "("@ + text + ")"@
    } else {
        text
    }
}

/// The canonical text of an expression under the infix operators `infix`.
pub open spec fn render(a: AstView, infix: InfixTable) -> Seq<char>
    decreases a,
{
    match a {
        AstView::Literal(l) => literal_text(l),
        AstView::Reference(name) => name,
        AstView::Function(name, args) => name + "("@ + joined(render_each(args, infix), ","@)
            + ")"@,
        AstView::Unary(op, rhs) => op + " "@ + render(*rhs, infix),
        AstView::Binary(op, lhs, rhs) => wrapped(
            render(*lhs, infix),
            needs_parens(*lhs, op, infix),
        ) + " "@ + op + " "@ + wrapped(render(*rhs, infix), needs_parens(*rhs, op, infix)),
        AstView::Postfix(lhs, op) => render(*lhs, infix) + " "@ + op,
        AstView::Ternary(condition, lhs, rhs) => render(*condition, infix) + " ? "@ + render(
            *lhs,
            infix,
        ) + " : "@ + render(*rhs, infix),
        AstView::List(items) => "["@ + joined(render_each(items, infix), ","@) + "]"@,
        AstView::Dict(pairs) => "{"@ + joined(render_pairs(pairs, infix), ","@) + "}"@,
        AstView::Chain(items) => joined(render_each(items, infix), ";"@),
        AstView::Nil => Seq::empty(),
    }
}

/// The texts of the expressions `items`, in order.
pub open spec fn render_each(items: Seq<AstView>, infix: InfixTable) -> Seq<Seq<char>>
    decreases items,
{
    Seq::new(
        items.len(),
        |i: int|
            if 0 <= i < items.len() {
                render(items[i], infix)
            } else {
                Seq::empty()
            },
    )
}

/// The texts of the pairs `pairs`, in order: key, colon, value.
pub open spec fn render_pairs(pairs: Seq<(AstView, AstView)>, infix: InfixTable) -> Seq<
    Seq<char>,
>
    decreases pairs,
{
    Seq::new(
        pairs.len(),
        |i: int|
            if 0 <= i < pairs.len() {
                render(pairs[i].0, infix) + ":"@ + render(pairs[i].1, infix)
            } else {
                Seq::empty()
            },
    )
}

/// Adds `part` to the text `text` of the first `n` parts, with `sep` before
/// it unless it is the first.
fn push_part(text: &mut String, n: usize, sep: &str, part: &str, Ghost(parts): Ghost<
    Seq<Seq<char>>,
>)
    requires
        parts.len() == n + 1,
        parts.last() == part@,
        old(text)@ == joined(parts.drop_last(), sep@),
    ensures
        final(text)@ == joined(parts, sep@),
{
    if n > 0 {
        text.append(sep);
    }
    text.append(part);
    proof {
        if n == 0 {
            assert(joined(parts.drop_last(), sep@) =~= Seq::<char>::empty());
            assert(text@ =~= part@);
        }
    }
}

#[verifier::loop_isolation(false)]
fn expr_each(items: &Vec<ExprAST>, registry: &Registry, sep: &str) -> (r: String)
    ensures
        r@ == joined(render_each(asts_view(items@), registry@.infix), sep@),
    decreases items,
{
    let ghost all = render_each(asts_view(items@), registry@.infix);
    let mut s = String::new();
    let mut i: usize = 0;
    assert(all.take(0) =~= Seq::<Seq<char>>::empty());
    while i < items.len()
        invariant
            i <= items.len(),
            s@ == joined(all.take(i as int), sep@),
        decreases items.len() - i,
    {
        let part = items[i].expr(registry);
        proof {
            assert(all.take(i as int + 1).drop_last() =~= all.take(i as int));
            assert(all.take(i as int + 1).last() == part@);
        }
        push_part(&mut s, i, sep, part.as_str(), Ghost(all.take(i as int + 1)));
        i += 1;
    }
    assert(all.take(i as int) =~= all);
    s
}

#[verifier::loop_isolation(false)]
fn expr_pairs(pairs: &Vec<(ExprAST, ExprAST)>, registry: &Registry) -> (r: String)
    ensures
        r@ == joined(render_pairs(ast_pairs_view(pairs@), registry@.infix), ","@),
    decreases pairs,
{
    let ghost all = render_pairs(ast_pairs_view(pairs@), registry@.infix);
    let mut s = String::new();
    let mut i: usize = 0;
    assert(all.take(0) =~= Seq::<Seq<char>>::empty());
    while i < pairs.len()
        invariant
            i <= pairs.len(),
            s@ == joined(all.take(i as int), ","@),
        decreases pairs.len() - i,
    {
        let mut part = pairs[i].0.expr(registry);
        part.append(":");
        let value = pairs[i].1.expr(registry);
        part.append(value.as_str());
        proof {
            assert(all.take(i as int + 1).drop_last() =~= all.take(i as int));
            assert(all.take(i as int + 1).last() == part@);
        }
        push_part(&mut s, i, ",", part.as_str(), Ghost(all.take(i as int + 1)));
        i += 1;
    }
    assert(all.take(i as int) =~= all);
    s
}

impl ExprAST {
    /// The canonical text of this expression: an operand of an infix
    /// operator stands in parentheses where it is a binary node of lower
    /// precedence or a conditional expression.
    pub fn expr(&self, registry: &Registry) -> (r: String)
        ensures
            r@ == render(self@, registry@.infix),
        decreases self,
    {
        match self {
            ExprAST::Literal(val) => self.literal_expr(val),
            ExprAST::Reference(name) => name.clone(),
            ExprAST::Function(name, exprs) => {
                proof {
                    lemma_function_view(*name, *exprs);
                }
                let mut ans = name.clone();
                ans.append("(");
                let args = expr_each(exprs, registry, ",");
                ans.append(args.as_str());
                ans.append(")");
                ans
            },
            ExprAST::Unary(op, rhs) => {
                let mut ans = op.clone();
                ans.append(" ");
                let operand = rhs.expr(registry);
                ans.append(operand.as_str());
                ans
            },
            ExprAST::Binary(op, lhs, rhs) => {
                let mut ans = self.operand_expr(op, lhs, registry);
                ans.append(" ");
                ans.append(op.as_str());
                ans.append(" ");
                let right = self.operand_expr(op, rhs, registry);
                ans.append(right.as_str());
                ans
            },
            ExprAST::Postfix(lhs, op) => {
                let mut ans = lhs.expr(registry);
                ans.append(" ");
                ans.append(op.as_str());
                ans
            },
            ExprAST::Ternary(condition, lhs, rhs) => {
                let mut ans = condition.expr(registry);
                ans.append(" ? ");
                let left = lhs.expr(registry);
                ans.append(left.as_str());
                ans.append(" : ");
                let right = rhs.expr(registry);
                ans.append(right.as_str());
                ans
            },
            ExprAST::List(params) => {
                proof {
                    lemma_list_ast_view(*params);
                }
                let mut s = String::from_str("[");
                let items = expr_each(params, registry, ",");
                s.append(items.as_str());
                s.append("]");
                s
            },
            ExprAST::Dict(m) => {
                proof {
                    lemma_dict_ast_view(*m);
                }
                let mut s = String::from_str("{");
                let pairs = expr_pairs(m, registry);
                s.append(pairs.as_str());
                s.append("}");
                s
            },
            ExprAST::Chain(exprs) => {
                proof {
                    lemma_chain_view(*exprs);
                }
                expr_each(exprs, registry, ";")
            },
            ExprAST::Nil => String::new(),
        }
    }

    fn literal_expr(&self, val: &Literal) -> (r: String)
        ensures
            r@ == literal_text(val@),
    {
        match val {
            Literal::Number(value) => value.to_text(),
            Literal::Bool(value) => {
                if *value {
                    String::from_str("true")
                } else {
                    String::from_str("false")
                }
            },
            Literal::String(value) => {
                let mut s = String::from_str("\"");
                s.append(value.as_str());
                s.append("\"");
                s
            },
        }
    }

    /// The text of the operand `child` of the infix operator `op`.
    fn operand_expr(&self, op: &String, child: &Box<ExprAST>, registry: &Registry) -> (r: String)
        requires
            self matches ExprAST::Binary(_, lhs, rhs) && (lhs == child || rhs == child),
        ensures
            r@ == wrapped(
                render(child@, registry@.infix),
                needs_parens(child@, op@, registry@.infix),
            ),
        decreases self, 0nat,
    {
        let text = child.expr(registry);
        let parens = match &**child {
            ExprAST::Binary(inner, _, _) => registry.infix.get_precidence(inner.as_str()).0
                < registry.infix.get_precidence(op.as_str()).0,
            ExprAST::Ternary(_, _, _) => true,
            _ => false,
        };
        if parens {
            let mut s = String::from_str("(");
            s.append(text.as_str());
            s.append(")");
            s
        } else {
            text
        }
    }
}

} // verus!
