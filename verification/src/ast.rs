use vstd::prelude::*;
use crate::number::{Dec, Number};

verus! {

/// A constant written in an expression.
#[derive(Debug, PartialEq)]
pub enum Literal {
    Number(Number),
    Bool(bool),
    String(String),
}

/// An expression as a tree. Each node owns its children.
#[derive(Debug, PartialEq)]
pub enum ExprAST {
    Literal(Literal),
    Unary(String, Box<ExprAST>),
    Binary(String, Box<ExprAST>, Box<ExprAST>),
    Postfix(Box<ExprAST>, String),
    Ternary(Box<ExprAST>, Box<ExprAST>, Box<ExprAST>),
    Reference(String),
    Function(String, Vec<ExprAST>),
    List(Vec<ExprAST>),
    Dict(Vec<(ExprAST, ExprAST)>),
    Chain(Vec<ExprAST>),
    Nil,
}

/// The mathematical content of a [`Literal`].
pub enum LiteralView {
    Number(Dec),
    Bool(bool),
    String(Seq<char>),
}

/// The mathematical content of an [`ExprAST`].
pub enum AstView {
    Literal(LiteralView),
    Unary(Seq<char>, Box<AstView>),
    Binary(Seq<char>, Box<AstView>, Box<AstView>),
    Postfix(Box<AstView>, Seq<char>),
    Ternary(Box<AstView>, Box<AstView>, Box<AstView>),
    Reference(Seq<char>),
    Function(Seq<char>, Seq<AstView>),
    List(Seq<AstView>),
    Dict(Seq<(AstView, AstView)>),
    Chain(Seq<AstView>),
    Nil,
}

impl View for Literal {
    type V = LiteralView;

    open spec fn view(&self) -> LiteralView {
        match self {
            Literal::Number(n) => LiteralView::Number(n@),
            Literal::Bool(b) => LiteralView::Bool(*b),
            Literal::String(s) => LiteralView::String(s@),
        }
    }
}

pub open spec fn ast_view(a: ExprAST) -> AstView
    decreases a,
{
    match a {
        ExprAST::Literal(l) => AstView::Literal(l@),
        ExprAST::Unary(op, rhs) => AstView::Unary(op@, Box::new(ast_view(*rhs))),
        ExprAST::Binary(op, lhs, rhs) => AstView::Binary(
            op@,
            Box::new(ast_view(*lhs)),
            Box::new(ast_view(*rhs)),
        ),
        ExprAST::Postfix(lhs, op) => AstView::Postfix(Box::new(ast_view(*lhs)), op@),
        ExprAST::Ternary(c, a, b) => AstView::Ternary(
            Box::new(ast_view(*c)),
            Box::new(ast_view(*a)),
            Box::new(ast_view(*b)),
        ),
        ExprAST::Reference(name) => AstView::Reference(name@),
        ExprAST::Function(name, args) => AstView::Function(
            name@,
            Seq::new(
                args.len() as nat,
                |i: int|
                    if 0 <= i < args.len() {
                        ast_view(args[i])
                    } else {
                        AstView::Nil
                    },
            ),
        ),
        ExprAST::List(items) => AstView::List(
            Seq::new(
                items.len() as nat,
                |i: int|
                    if 0 <= i < items.len() {
                        ast_view(items[i])
                    } else {
                        AstView::Nil
                    },
            ),
        ),
        ExprAST::Dict(pairs) => AstView::Dict(
            Seq::new(
                pairs.len() as nat,
                |i: int|
                    if 0 <= i < pairs.len() {
                        (ast_view(pairs[i].0), ast_view(pairs[i].1))
                    } else {
                        (AstView::Nil, AstView::Nil)
                    },
            ),
        ),
        ExprAST::Chain(items) => AstView::Chain(
            Seq::new(
                items.len() as nat,
                |i: int|
                    if 0 <= i < items.len() {
                        ast_view(items[i])
                    } else {
                        AstView::Nil
                    },
            ),
        ),
        ExprAST::Nil => AstView::Nil,
    }
}

impl View for ExprAST {
    type V = AstView;

    open spec fn view(&self) -> AstView {
        ast_view(*self)
    }
}

/// The views of a sequence of expressions, in order.
pub open spec fn asts_view(items: Seq<ExprAST>) -> Seq<AstView> {
    Seq::new(items.len(), |i: int| items[i]@)
}

/// The views of a sequence of pairs of expressions, in order.
pub open spec fn ast_pairs_view(pairs: Seq<(ExprAST, ExprAST)>) -> Seq<(AstView, AstView)> {
    Seq::new(pairs.len(), |i: int| (pairs[i].0@, pairs[i].1@))
}

pub proof fn lemma_function_view(name: String, args: Vec<ExprAST>)
    ensures
        ExprAST::Function(name, args)@ == AstView::Function(name@, asts_view(args@)),
{
    assert(ExprAST::Function(name, args)@->Function_1 =~= asts_view(args@));
}

pub proof fn lemma_list_ast_view(items: Vec<ExprAST>)
    ensures
        ExprAST::List(items)@ == AstView::List(asts_view(items@)),
{
    assert(ExprAST::List(items)@->List_0 =~= asts_view(items@));
}

pub proof fn lemma_chain_view(items: Vec<ExprAST>)
    ensures
        ExprAST::Chain(items)@ == AstView::Chain(asts_view(items@)),
{
    assert(ExprAST::Chain(items)@->Chain_0 =~= asts_view(items@));
}

pub proof fn lemma_dict_ast_view(pairs: Vec<(ExprAST, ExprAST)>)
    ensures
        ExprAST::Dict(pairs)@ == AstView::Dict(ast_pairs_view(pairs@)),
{
    assert(ExprAST::Dict(pairs)@->Dict_0 =~= ast_pairs_view(pairs@));
}

impl Clone for Literal {
    fn clone(&self) -> (r: Literal)
        ensures
            r@ == self@,
    {
        match self {
            Literal::Number(n) => Literal::Number(*n),
            Literal::Bool(b) => Literal::Bool(*b),
            Literal::String(s) => Literal::String(s.clone()),
        }
    }
}

#[verifier::loop_isolation(false)]
fn duplicate_each(items: &Vec<ExprAST>) -> (r: Vec<ExprAST>)
    ensures
        asts_view(r@) == asts_view(items@),
    decreases items,
{
    let mut out: Vec<ExprAST> = Vec::new();
    let mut i: usize = 0;
    while i < items.len()
        invariant
            i <= items.len(),
            out@.len() == i,
            forall|k: int| 0 <= k < i ==> out@[k]@ == items@[k]@,
        decreases items.len() - i,
    {
        out.push(items[i].duplicate());
        i += 1;
    }
    assert(asts_view(out@) =~= asts_view(items@));
    out
}

#[verifier::loop_isolation(false)]
fn duplicate_pairs(pairs: &Vec<(ExprAST, ExprAST)>) -> (r: Vec<(ExprAST, ExprAST)>)
    ensures
        ast_pairs_view(r@) == ast_pairs_view(pairs@),
    decreases pairs,
{
    let mut out: Vec<(ExprAST, ExprAST)> = Vec::new();
    let mut i: usize = 0;
    while i < pairs.len()
        invariant
            i <= pairs.len(),
            out@.len() == i,
            forall|k: int|
                0 <= k < i ==> out@[k].0@ == pairs@[k].0@ && out@[k].1@ == pairs@[k].1@,
        decreases pairs.len() - i,
    {
        let key = pairs[i].0.duplicate();
        let value = pairs[i].1.duplicate();
        out.push((key, value));
        i += 1;
    }
    assert(ast_pairs_view(out@) =~= ast_pairs_view(pairs@));
    out
}

impl ExprAST {
    /// A copy of this expression.
    pub fn duplicate(&self) -> (r: ExprAST)
        ensures
            r@ == self@,
        decreases self,
    {
        match self {
            ExprAST::Literal(l) => ExprAST::Literal(l.clone()),
            ExprAST::Unary(op, rhs) => ExprAST::Unary(op.clone(), Box::new(rhs.duplicate())),
            ExprAST::Binary(op, lhs, rhs) => ExprAST::Binary(
                op.clone(),
                Box::new(lhs.duplicate()),
                Box::new(rhs.duplicate()),
            ),
            ExprAST::Postfix(lhs, op) => ExprAST::Postfix(Box::new(lhs.duplicate()), op.clone()),
            ExprAST::Ternary(c, a, b) => ExprAST::Ternary(
                Box::new(c.duplicate()),
                Box::new(a.duplicate()),
                Box::new(b.duplicate()),
            ),
            ExprAST::Reference(name) => ExprAST::Reference(name.clone()),
            ExprAST::Function(name, args) => {
                let copy = duplicate_each(args);
                proof {
                    lemma_function_view(*name, *args);
                    lemma_function_view(*name, copy);
                }
                ExprAST::Function(name.clone(), copy)
            },
            ExprAST::List(items) => {
                let copy = duplicate_each(items);
                proof {
                    lemma_list_ast_view(*items);
                    lemma_list_ast_view(copy);
                }
                ExprAST::List(copy)
            },
            ExprAST::Dict(pairs) => {
                let copy = duplicate_pairs(pairs);
                proof {
                    lemma_dict_ast_view(*pairs);
                    lemma_dict_ast_view(copy);
                }
                ExprAST::Dict(copy)
            },
            ExprAST::Chain(items) => {
                let copy = duplicate_each(items);
                proof {
                    lemma_chain_view(*items);
                    lemma_chain_view(copy);
                }
                ExprAST::Chain(copy)
            },
            ExprAST::Nil => ExprAST::Nil,
        }
    }
}

impl Clone for ExprAST {
    fn clone(&self) -> (r: ExprAST)
        ensures
            r@ == self@,
    {
        self.duplicate()
    }
}

} // verus!
