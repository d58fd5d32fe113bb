use vstd::prelude::*;
use vstd::string::StringExecFns;
use crate::ast::{
    ast_pairs_view, asts_view, lemma_chain_view, lemma_dict_ast_view, lemma_function_view,
    lemma_list_ast_view, AstView, ExprAST, Literal,
};
use crate::error::Error;
use crate::grammar::{
    advance, ahead, expect, initial, leaf, lemma_advance, p_args, p_brace, p_bracket, p_chain,
    p_expression, p_function, p_items, p_op, p_pairs, p_paren, p_postfix, p_primary, p_rhs,
    p_ternary, p_token, remaining, within, Grammar, PState, Parsed,
};
use crate::operator::binding_powers;
use crate::registry::Registry;
use crate::token::{DelimTokenType, Token, TokenView};
use crate::tokenizer::Tokenizer;

verus! {

/// An expression that was read, with the state after it.
pub open spec fn parsed(r: Result<ExprAST, Error>, st: PState) -> Parsed {
    match r {
        Ok(a) => Ok((a@, st)),
        Err(e) => Err(e@),
    }
}

/// How one step of precedence climbing ends: with the result of the climb,
/// or with the node to climb on from and whether a `not` waits for its
/// operator.
enum Climb {
    Done(Result<ExprAST, Error>),
    More(ExprAST, bool),
}

/// Reads expressions from a text, consulting the operator tables at every
/// token.
pub struct Parser<'a> {
    tokenizer: Tokenizer<'a>,
    registry: &'a Registry,
}

impl<'a> Parser<'a> {
    /// The text and the tables that this parser reads.
    pub closed spec fn grammar(&self) -> Grammar {
        Grammar { text: self.tokenizer@.input, tables: self.registry@ }
    }

    /// Where this parser stands.
    pub closed spec fn state(&self) -> PState {
        PState { pos: self.tokenizer@.pos, cur: self.tokenizer@.cur_token }
    }

    fn cur_tok(&self) -> (t: &Token)
        ensures
            t@ == self.state().cur,
            within(self.grammar(), self.state()),
    {
        self.tokenizer.cur_token()
    }

    /// A parser on `input` that has read the first token.
    pub fn new(registry: &'a Registry, input: &'a str) -> (r: Result<Self, Error>)
        ensures
            match advance(Grammar { text: input@, tables: registry@ }, initial()) {
                Ok(st) => r matches Ok(p) && p.state() == st && p.grammar() == (Grammar {
                    text: input@,
                    tables: registry@,
                }),
                Err(e) => r matches Err(x) && x@ == e,
            },
    {
        let mut tokenizer = Tokenizer::new(input);
        tokenizer.next(registry)?;
        Ok(Parser { tokenizer, registry })
    }

    fn at_close(&self, close: &str) -> (r: bool)
        ensures
            r == (self.state().cur is EOF || crate::token::token_is(self.state().cur, close@)),
            within(self.grammar(), self.state()),
    {
        self.cur_tok().is_eof() || crate::token::check_op(self.cur_tok(), close)
    }

    fn is_eof(&self) -> (r: bool)
        ensures
            r == (self.state().cur is EOF),
    {
        self.cur_tok().is_eof()
    }

    /// Reads the next token.
    pub fn next(&mut self) -> (r: Result<Token, Error>)
        ensures
            final(self).grammar() == old(self).grammar(),
            within(old(self).grammar(), old(self).state()),
            match advance(old(self).grammar(), old(self).state()) {
                Ok(st) => r matches Ok(t) && t@ == st.cur && final(self).state() == st && within(
                    final(self).grammar(),
                    st,
                ) && remaining(final(self).grammar(), st) <= remaining(
                    old(self).grammar(),
                    old(self).state(),
                ) && (!(old(self).state().cur is EOF) ==> ahead(
                    old(self).grammar(),
                    old(self).state(),
                    st,
                )),
                Err(e) => r matches Err(x) && x@ == e,
            },
    {
        let _ = self.cur_tok();
        proof {
            lemma_advance(self.grammar(), self.state());
        }
        self.tokenizer.next(self.registry)
    }

    fn expect(&mut self, expected: &str) -> (r: Result<(), Error>)
        ensures
            final(self).grammar() == old(self).grammar(),
            match expect(old(self).grammar(), old(self).state(), expected@) {
                Ok(st) => r is Ok && final(self).state() == st && within(
                    final(self).grammar(),
                    st,
                ) && remaining(final(self).grammar(), st) <= remaining(
                    old(self).grammar(),
                    old(self).state(),
                ) && (!(old(self).state().cur is EOF) ==> ahead(
                    old(self).grammar(),
                    old(self).state(),
                    st,
                )),
                Err(e) => r matches Err(x) && x@ == e,
            },
    {
        let _ = self.cur_tok();
        proof {
            lemma_advance(self.grammar(), self.state());
        }
        self.tokenizer.expect(self.registry, expected)
    }

    /// Reads the token at hand as the leaf `ast`.
    fn take(&mut self, ast: ExprAST) -> (r: Result<ExprAST, Error>)
        requires
            !(old(self).state().cur is EOF),
        ensures
            final(self).grammar() == old(self).grammar(),
            parsed(r, final(self).state()) == leaf(
                old(self).grammar(),
                old(self).state(),
                ast@,
            ),
            r is Ok ==> within(final(self).grammar(), final(self).state()) && ahead(
                old(self).grammar(),
                old(self).state(),
                final(self).state(),
            ),
    {
        match self.next() {
            Ok(_) => Ok(ast),
            Err(e) => Err(e),
        }
    }

    fn parse_token(&mut self) -> (r: Result<ExprAST, Error>)
        ensures
            final(self).grammar() == old(self).grammar(),
            parsed(r, final(self).state()) == p_token(old(self).grammar(), old(self).state()),
            r is Ok ==> within(final(self).grammar(), final(self).state()) && ahead(
                old(self).grammar(),
                old(self).state(),
                final(self).state(),
            ),
        decreases remaining(old(self).grammar(), old(self).state()), 1nat,
    {
        let token = self.cur_tok().clone();
        match token {
            Token::Number(val, _) => self.take(ExprAST::Literal(Literal::Number(val))),
            Token::Bool(val, _) => self.take(ExprAST::Literal(Literal::Bool(val))),
            Token::String(val, _) => self.take(ExprAST::Literal(Literal::String(val))),
            Token::Reference(val, _) => self.take(ExprAST::Reference(val)),
            Token::Function(name, _) => self.parse_function(name),
            Token::Operator(op, _) => self.parse_unary(op),
            Token::Delim(ty, _) => self.parse_delim(ty),
            Token::EOF => Err(Error::UnexpectedEOF(0)),
            _ => Err(Error::UnexpectedToken()),
        }
    }

    /// Reads zero or more statements up to the end of the text: the
    /// statement itself where there is exactly one, else the chain of them.
    #[verifier::loop_isolation(false)]
    pub fn parse_chain_expression(&mut self) -> (r: Result<ExprAST, Error>)
        ensures
            final(self).grammar() == old(self).grammar(),
            parsed(r, final(self).state()) == p_chain(
                old(self).grammar(),
                Seq::empty(),
                old(self).state(),
            ),
    {
        let ghost g = self.grammar();
        let ghost start = self.state();
        let mut ans: Vec<ExprAST> = Vec::new();
        assert(asts_view(ans@) =~= Seq::<AstView>::empty());
        while !self.is_eof()
            invariant
                self.grammar() == g,
                p_chain(g, asts_view(ans@), self.state()) == p_chain(g, Seq::empty(), start),
            decreases remaining(g, self.state()),
        {
            let ghost st = self.state();
            let ghost acc = asts_view(ans@);
            let statement = match self.parse_expression() {
                Ok(statement) => statement,
                Err(e) => {
                    return Err(e);
                },
            };
            if self.cur_tok().is_semicolon() {
                match self.next() {
                    Ok(_) => {},
                    Err(e) => {
                        return Err(e);
                    },
                }
            }
            let ghost view = statement@;
            ans.push(statement);
            assert(asts_view(ans@) =~= acc.push(view));
        }
        if ans.len() == 1 {
            let only = ans.pop();
            match only {
                Some(only) => {
                    return Ok(only);
                },
                None => {},
            }
        }
        proof {
            lemma_chain_view(ans);
        }
        Ok(ExprAST::Chain(ans))
    }

    /// Reads one expression.
    pub fn parse_expression(&mut self) -> (r: Result<ExprAST, Error>)
        ensures
            final(self).grammar() == old(self).grammar(),
            parsed(r, final(self).state()) == p_expression(
                old(self).grammar(),
                old(self).state(),
            ),
            r is Ok ==> within(final(self).grammar(), final(self).state()) && ahead(
                old(self).grammar(),
                old(self).state(),
                final(self).state(),
            ),
        decreases remaining(old(self).grammar(), old(self).state()), 3nat,
    {
        let lhs = self.parse_primary()?;
        self.parse_op(0, lhs)
    }

    fn parse_primary(&mut self) -> (r: Result<ExprAST, Error>)
        ensures
            final(self).grammar() == old(self).grammar(),
            parsed(r, final(self).state()) == p_primary(old(self).grammar(), old(self).state()),
            r is Ok ==> within(final(self).grammar(), final(self).state()) && ahead(
                old(self).grammar(),
                old(self).state(),
                final(self).state(),
            ),
        decreases remaining(old(self).grammar(), old(self).state()), 2nat,
    {
        let lhs = self.parse_token()?;
        self.parse_postfix(lhs)
    }

    #[verifier::loop_isolation(false)]
    fn parse_postfix(&mut self, lhs: ExprAST) -> (r: Result<ExprAST, Error>)
        requires
            within(old(self).grammar(), old(self).state()),
        ensures
            final(self).grammar() == old(self).grammar(),
            parsed(r, final(self).state()) == p_postfix(
                old(self).grammar(),
                lhs@,
                old(self).state(),
            ),
            r is Ok ==> within(final(self).grammar(), final(self).state()) && remaining(
                final(self).grammar(),
                final(self).state(),
            ) <= remaining(old(self).grammar(), old(self).state()),
    {
        let ghost g = self.grammar();
        let ghost start = self.state();
        let ghost first = lhs@;
        let mut lhs = lhs;
        loop
            invariant
                self.grammar() == g,
                within(g, self.state()),
                remaining(g, self.state()) <= remaining(g, start),
                p_postfix(g, lhs@, self.state()) == p_postfix(g, first, start),
            decreases remaining(g, self.state()),
        {
            if !self.cur_tok().is_postfix_op_token(self.registry) {
                return Ok(lhs);
            }
            let op = self.cur_tok().string();
            match self.next() {
                Ok(_) => {},
                Err(e) => {
                    return Err(e);
                },
            }
            lhs = ExprAST::Postfix(Box::new(lhs), op);
        }
    }

    #[verifier::loop_isolation(false)]
    fn parse_op(&mut self, exec_prec: i64, lhs: ExprAST) -> (r: Result<ExprAST, Error>)
        requires
            within(old(self).grammar(), old(self).state()),
        ensures
            final(self).grammar() == old(self).grammar(),
            parsed(r, final(self).state()) == p_op(
                old(self).grammar(),
                exec_prec as int,
                lhs@,
                false,
                old(self).state(),
            ),
            r is Ok ==> within(final(self).grammar(), final(self).state()) && remaining(
                final(self).grammar(),
                final(self).state(),
            ) <= remaining(old(self).grammar(), old(self).state()),
        decreases remaining(old(self).grammar(), old(self).state()), 7nat,
    {
        let ghost g = self.grammar();
        let ghost start = self.state();
        let ghost first = lhs@;
        let mut lhs = lhs;
        let mut is_not = false;
        loop
            invariant
                self.grammar() == g,
                within(g, self.state()),
                remaining(g, self.state()) <= remaining(g, start),
                p_op(g, exec_prec as int, lhs@, is_not, self.state()) == p_op(
                    g,
                    exec_prec as int,
                    first,
                    false,
                    start,
                ),
            decreases remaining(g, self.state()),
        {
            match self.op_step(exec_prec, lhs, is_not) {
                Climb::Done(r) => {
                    return r;
                },
                Climb::More(node, pending) => {
                    lhs = node;
                    is_not = pending;
                },
            }
        }
    }

    /// One step of the climb: reads the operator at hand, if it is one that
    /// goes on, and what belongs to it.
    fn op_step(&mut self, exec_prec: i64, lhs: ExprAST, is_not: bool) -> (r: Climb)
        requires
            within(old(self).grammar(), old(self).state()),
        ensures
            final(self).grammar() == old(self).grammar(),
            match r {
                Climb::Done(res) => parsed(res, final(self).state()) == p_op(
                    old(self).grammar(),
                    exec_prec as int,
                    lhs@,
                    is_not,
                    old(self).state(),
                ) && (res is Ok ==> within(final(self).grammar(), final(self).state())
                    && remaining(final(self).grammar(), final(self).state()) <= remaining(
                    old(self).grammar(),
                    old(self).state(),
                )),
                Climb::More(node, pending) => p_op(
                    old(self).grammar(),
                    exec_prec as int,
                    node@,
                    pending,
                    final(self).state(),
                ) == p_op(
                    old(self).grammar(),
                    exec_prec as int,
                    lhs@,
                    is_not,
                    old(self).state(),
                ) && within(final(self).grammar(), final(self).state()) && ahead(
                    old(self).grammar(),
                    old(self).state(),
                    final(self).state(),
                ),
            },
        decreases remaining(old(self).grammar(), old(self).state()), 5nat,
    {
        let op = match self.cur_tok() {
            Token::Operator(op, _) => op.clone(),
            _ => {
                return Climb::Done(Ok(lhs));
            },
        };
        if self.cur_tok().is_not_token() {
            match self.next() {
                Ok(_) => {},
                Err(e) => {
                    return Climb::Done(Err(e));
                },
            }
            if !self.cur_tok().is_binop_token(self.registry) {
                return Climb::Done(Err(Error::ExpectBinOpToken));
            }
            return Climb::More(lhs, true);
        }
        if self.cur_tok().is_question_mark() {
            return Climb::Done(self.parse_ternary(lhs));
        }
        let (tok_prec, r_bp) = self.registry.infix.get_precidence(op.as_str());
        if tok_prec < exec_prec {
            return Climb::Done(Ok(lhs));
        }
        match self.next() {
            Ok(_) => {},
            Err(e) => {
                return Climb::Done(Err(e));
            },
        }
        let rhs = match self.parse_rhs(r_bp) {
            Ok(rhs) => rhs,
            Err(e) => {
                return Climb::Done(Err(e));
            },
        };
        let ghost left = lhs@;
        let ghost right = rhs@;
        let node = ExprAST::Binary(op, Box::new(lhs), Box::new(rhs));
        assert(node@ == AstView::Binary(op@, Box::new(left), Box::new(right)));
        if is_not {
            let ghost inner = node@;
            let negated = ExprAST::Unary(String::from_str("not"), Box::new(node));
            assert(negated@ == AstView::Unary("not"@, Box::new(inner)));
            Climb::More(negated, false)
        } else {
            Climb::More(node, false)
        }
    }

    fn parse_rhs(&mut self, r_bp: i64) -> (r: Result<ExprAST, Error>)
        ensures
            final(self).grammar() == old(self).grammar(),
            parsed(r, final(self).state()) == p_rhs(
                old(self).grammar(),
                r_bp as int,
                old(self).state(),
            ),
            r is Ok ==> within(final(self).grammar(), final(self).state()) && ahead(
                old(self).grammar(),
                old(self).state(),
                final(self).state(),
            ),
        decreases remaining(old(self).grammar(), old(self).state()), 6nat,
    {
        let rhs = self.parse_primary()?;
        if self.cur_tok().is_binop_token(self.registry) && r_bp <= self.get_token_precidence() {
            self.parse_op(r_bp, rhs)
        } else {
            Ok(rhs)
        }
    }

    fn parse_ternary(&mut self, condition: ExprAST) -> (r: Result<ExprAST, Error>)
        requires
            within(old(self).grammar(), old(self).state()),
            !(old(self).state().cur is EOF),
        ensures
            final(self).grammar() == old(self).grammar(),
            parsed(r, final(self).state()) == p_ternary(
                old(self).grammar(),
                condition@,
                old(self).state(),
            ),
            r is Ok ==> within(final(self).grammar(), final(self).state()) && ahead(
                old(self).grammar(),
                old(self).state(),
                final(self).state(),
            ),
        decreases remaining(old(self).grammar(), old(self).state()), 0nat,
    {
        self.next()?;
        let a = self.parse_expression()?;
        if !self.cur_tok().is_colon() {
            return Err(Error::InvalidTernaryExprNeedColon());
        }
        self.next()?;
        let b = self.parse_expression()?;
        Ok(ExprAST::Ternary(Box::new(condition), Box::new(a), Box::new(b)))
    }

    /// The left binding power of the token at hand as an infix operator.
    fn get_token_precidence(&self) -> (r: i64)
        ensures
            r == (match self.state().cur {
                TokenView::Operator(op, _) => binding_powers(self.grammar().tables.infix, op).0,
                _ => -1,
            }),
    {
        match self.cur_tok() {
            Token::Operator(op, _) => self.registry.infix.get_precidence(op.as_str()).0,
            _ => -1,
        }
    }

    fn parse_delim(&mut self, ty: DelimTokenType) -> (r: Result<ExprAST, Error>)
        requires
            old(self).state().cur matches TokenView::Delim(d, _) && d == ty,
        ensures
            final(self).grammar() == old(self).grammar(),
            parsed(r, final(self).state()) == p_token(old(self).grammar(), old(self).state()),
            r is Ok ==> within(final(self).grammar(), final(self).state()) && ahead(
                old(self).grammar(),
                old(self).state(),
                final(self).state(),
            ),
        decreases remaining(old(self).grammar(), old(self).state()), 0nat, 1nat,
    {
        match ty {
            DelimTokenType::OpenParen => self.parse_open_paren(),
            DelimTokenType::OpenBracket => self.parse_open_bracket(),
            DelimTokenType::OpenBrace => self.parse_open_brace(),
            _ => Err(Error::NoOpenDelim),
        }
    }

    fn parse_open_paren(&mut self) -> (r: Result<ExprAST, Error>)
        requires
            !(old(self).state().cur is EOF),
        ensures
            final(self).grammar() == old(self).grammar(),
            parsed(r, final(self).state()) == p_paren(old(self).grammar(), old(self).state()),
            r is Ok ==> within(final(self).grammar(), final(self).state()) && ahead(
                old(self).grammar(),
                old(self).state(),
                final(self).state(),
            ),
        decreases remaining(old(self).grammar(), old(self).state()), 0nat, 0nat,
    {
        self.next()?;
        let expr = self.parse_expression()?;
        if !self.cur_tok().is_close_paren() {
            return Err(Error::NoCloseDelim);
        }
        self.next()?;
        Ok(expr)
    }

    #[verifier::loop_isolation(false)]
    fn parse_open_bracket(&mut self) -> (r: Result<ExprAST, Error>)
        requires
            !(old(self).state().cur is EOF),
        ensures
            final(self).grammar() == old(self).grammar(),
            parsed(r, final(self).state()) == p_bracket(old(self).grammar(), old(self).state()),
            r is Ok ==> within(final(self).grammar(), final(self).state()) && ahead(
                old(self).grammar(),
                old(self).state(),
                final(self).state(),
            ),
        decreases remaining(old(self).grammar(), old(self).state()), 0nat, 0nat,
    {
        let ghost g = self.grammar();
        let ghost entry = self.state();
        self.next()?;
        let ghost start = self.state();
        let mut exprs: Vec<ExprAST> = Vec::new();
        assert(asts_view(exprs@) =~= Seq::<AstView>::empty());
        while !self.at_close("]")
            invariant
                self.grammar() == g,
                within(g, self.state()),
                remaining(g, self.state()) <= remaining(g, start),
                ahead(g, entry, start),
                p_items(g, asts_view(exprs@), self.state()) == p_items(g, Seq::empty(), start),
            decreases remaining(g, self.state()),
        {
            let ghost acc = asts_view(exprs@);
            let item = match self.parse_expression() {
                Ok(item) => item,
                Err(e) => {
                    return Err(e);
                },
            };
            if !self.cur_tok().is_close_bracket() {
                match self.expect(",") {
                    Ok(_) => {},
                    Err(e) => {
                        return Err(e);
                    },
                }
            }
            let ghost view = item@;
            exprs.push(item);
            assert(asts_view(exprs@) =~= acc.push(view));
        }
        self.expect("]")?;
        proof {
            lemma_list_ast_view(exprs);
        }
        Ok(ExprAST::List(exprs))
    }

    #[verifier::loop_isolation(false)]
    fn parse_open_brace(&mut self) -> (r: Result<ExprAST, Error>)
        requires
            !(old(self).state().cur is EOF),
        ensures
            final(self).grammar() == old(self).grammar(),
            parsed(r, final(self).state()) == p_brace(old(self).grammar(), old(self).state()),
            r is Ok ==> within(final(self).grammar(), final(self).state()) && ahead(
                old(self).grammar(),
                old(self).state(),
                final(self).state(),
            ),
        decreases remaining(old(self).grammar(), old(self).state()), 0nat, 0nat,
    {
        let ghost g = self.grammar();
        let ghost entry = self.state();
        self.next()?;
        let ghost start = self.state();
        let mut m: Vec<(ExprAST, ExprAST)> = Vec::new();
        assert(ast_pairs_view(m@) =~= Seq::<(AstView, AstView)>::empty());
        while !self.at_close("}")
            invariant
                self.grammar() == g,
                within(g, self.state()),
                remaining(g, self.state()) <= remaining(g, start),
                ahead(g, entry, start),
                p_pairs(g, ast_pairs_view(m@), self.state()) == p_pairs(g, Seq::empty(), start),
            decreases remaining(g, self.state()),
        {
            let ghost acc = ast_pairs_view(m@);
            let k = match self.parse_expression() {
                Ok(k) => k,
                Err(e) => {
                    return Err(e);
                },
            };
            match self.expect(":") {
                Ok(_) => {},
                Err(e) => {
                    return Err(e);
                },
            }
            let v = match self.parse_expression() {
                Ok(v) => v,
                Err(e) => {
                    return Err(e);
                },
            };
            if !self.cur_tok().is_close_brace() {
                match self.expect(",") {
                    Ok(_) => {},
                    Err(e) => {
                        return Err(e);
                    },
                }
            }
            let ghost view = (k@, v@);
            m.push((k, v));
            assert(ast_pairs_view(m@) =~= acc.push(view));
        }
        self.expect("}")?;
        proof {
            lemma_dict_ast_view(m);
        }
        Ok(ExprAST::Dict(m))
    }

    fn parse_unary(&mut self, op: String) -> (r: Result<ExprAST, Error>)
        requires
            old(self).state().cur matches TokenView::Operator(o, _) && o == op@,
        ensures
            final(self).grammar() == old(self).grammar(),
            parsed(r, final(self).state()) == p_token(old(self).grammar(), old(self).state()),
            r is Ok ==> within(final(self).grammar(), final(self).state()) && ahead(
                old(self).grammar(),
                old(self).state(),
                final(self).state(),
            ),
        decreases remaining(old(self).grammar(), old(self).state()), 0nat, 1nat,
    {
        self.next()?;
        let rhs = self.parse_primary()?;
        Ok(ExprAST::Unary(op, Box::new(rhs)))
    }

    #[verifier::loop_isolation(false)]
    fn parse_function(&mut self, name: String) -> (r: Result<ExprAST, Error>)
        requires
            !(old(self).state().cur is EOF),
        ensures
            final(self).grammar() == old(self).grammar(),
            parsed(r, final(self).state()) == p_function(
                old(self).grammar(),
                name@,
                old(self).state(),
            ),
            r is Ok ==> within(final(self).grammar(), final(self).state()) && ahead(
                old(self).grammar(),
                old(self).state(),
                final(self).state(),
            ),
        decreases remaining(old(self).grammar(), old(self).state()), 0nat, 0nat,
    {
        let ghost g = self.grammar();
        let ghost entry = self.state();
        self.next()?;
        self.expect("(")?;
        let mut ans: Vec<ExprAST> = Vec::new();
        if self.cur_tok().is_close_paren() {
            self.next()?;
            proof {
                lemma_function_view(name, ans);
                assert(asts_view(ans@) =~= Seq::<AstView>::empty());
            }
            return Ok(ExprAST::Function(name, ans));
        }
        let ghost start = self.state();
        assert(asts_view(ans@) =~= Seq::<AstView>::empty());
        loop
            invariant
                self.grammar() == g,
                within(g, self.state()),
                remaining(g, self.state()) <= remaining(g, start),
                ahead(g, entry, start),
                p_args(g, asts_view(ans@), self.state()) == p_args(g, Seq::empty(), start),
            decreases remaining(g, self.state()),
        {
            let ghost acc = asts_view(ans@);
            let arg = match self.parse_expression() {
                Ok(arg) => arg,
                Err(e) => {
                    return Err(e);
                },
            };
            let ghost view = arg@;
            ans.push(arg);
            assert(asts_view(ans@) =~= acc.push(view));
            if self.cur_tok().is_close_paren() {
                match self.next() {
                    Ok(_) => {},
                    Err(e) => {
                        return Err(e);
                    },
                }
                proof {
                    lemma_function_view(name, ans);
                }
                return Ok(ExprAST::Function(name, ans));
            }
            match self.expect(",") {
                Ok(_) => {},
                Err(e) => {
                    return Err(e);
                },
            }
        }
    }
}

} // verus!
