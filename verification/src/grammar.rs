use vstd::prelude::*;
use crate::ast::{AstView, LiteralView};
use crate::error::ErrorView;
use crate::operator::binding_powers;
use crate::registry::RegistryView;
use crate::token::{operator_in, token_is, DelimTokenType, TokenView};
use crate::tokenizer::{lemma_lex_advances, lex, token_has_text};

verus! {

/// What decides how a text is read: the text itself and the operator
/// tables.
pub struct Grammar {
    pub text: Seq<char>,
    pub tables: RegistryView,
}

/// Where a parser stands: the place in the text up to which it has read,
/// and the token it is looking at.
pub struct PState {
    pub pos: int,
    pub cur: TokenView,
}

/// An expression that was read, with the state after it.
pub type Parsed = Result<(AstView, PState), ErrorView>;

/// Expressions that were read, with the state after them.
pub type ParsedItems = Result<(Seq<AstView>, PState), ErrorView>;

/// Pairs of expressions that were read, with the state after them.
pub type ParsedPairs = Result<(Seq<(AstView, AstView)>, PState), ErrorView>;

/// The state is within the text.
pub open spec fn within(g: Grammar, st: PState) -> bool {
    0 <= st.pos <= g.text.len()
}

/// How much is left to read: the characters after the place, and the token
/// at hand unless it is `EOF`.
pub open spec fn remaining(g: Grammar, st: PState) -> nat {
    let chars: nat = if st.pos < g.text.len() {
        (g.text.len() - st.pos) as nat
    } else {
        0
    };
    if st.cur is EOF {
        chars
    } else {
        chars + 1
    }
}

/// `next` has less left to read than `from`.
pub open spec fn ahead(g: Grammar, from: PState, next: PState) -> bool {
    remaining(g, next) < remaining(g, from)
}

/// The failure of a parser that reads on without getting ahead. Parsing
/// never ends in it for this reason; the rules below name it so that each
/// of them is seen to end.
pub open spec fn stalled() -> ErrorView {
    ErrorView::UnexpectedToken
}

/// The state after the next token is read.
pub open spec fn advance(g: Grammar, st: PState) -> Result<PState, ErrorView> {
    match lex(g.text, g.tables, st.pos) {
        (Ok(t), p) => Ok(PState { pos: p, cur: t }),
        (Err(e), _) => Err(e),
    }
}

/// Reading a token never leaves more to read, and leaves less where the
/// token at hand was not `EOF`.
pub proof fn lemma_advance(g: Grammar, st: PState)
    requires
        within(g, st),
    ensures
        advance(g, st) matches Ok(next) ==> within(g, next) && remaining(g, next) <= remaining(
            g,
            st,
        ) && (!(st.cur is EOF) ==> ahead(g, st, next)),
{
    lemma_lex_advances(g.text, g.tables, st.pos);
}

/// The state after the next token is read, where the token at hand is the
/// bracket, the operator or the comma `op`; the failure to read the next
/// token comes first.
pub open spec fn expect(g: Grammar, st: PState, op: Seq<char>) -> Result<PState, ErrorView> {
    match advance(g, st) {
        Err(e) => Err(e),
        Ok(next) => if token_has_text(st.cur, op) {
            Ok(next)
        } else {
            Err(ErrorView::ExpectedOpNotExist(op))
        },
    }
}

/// `ast` with the state after the token at hand.
pub open spec fn leaf(g: Grammar, st: PState, ast: AstView) -> Parsed {
    match advance(g, st) {
        Err(e) => Err(e),
        Ok(next) => Ok((ast, next)),
    }
}

/// An operand with the postfix operators that follow it, each applied to
/// what stands before it.
pub open spec fn p_postfix(g: Grammar, lhs: AstView, st: PState) -> Parsed
    decreases remaining(g, st),
{
    match st.cur {
        TokenView::Operator(op, _) => if g.tables.postfix.contains_key(op) {
            match advance(g, st) {
                Err(e) => Err(e),
                Ok(next) => if ahead(g, st, next) {
                    p_postfix(g, AstView::Postfix(Box::new(lhs), op), next)
                } else {
                    Err(stalled())
                },
            }
        } else {
            Ok((lhs, st))
        },
        _ => Ok((lhs, st)),
    }
}

/// Whether the token at hand is an infix operator that binds at least as
/// tightly as `power`.
pub open spec fn binds(g: Grammar, st: PState, power: int) -> bool {
    st.cur matches TokenView::Operator(op, _) && g.tables.infix.contains_key(op) && power
        <= binding_powers(g.tables.infix, op).0
}

/// A binary node, under a `not` where one was read before its operator.
pub open spec fn fold(op: Seq<char>, lhs: AstView, rhs: AstView, is_not: bool) -> AstView {
    let node = AstView::Binary(op, Box::new(lhs), Box::new(rhs));
    if is_not {
        AstView::Unary("not"@, Box::new(node))
    } else {
        node
    }
}

/// One expression: an operand, and the operators and operands that follow
/// it.
pub open spec fn p_expression(g: Grammar, st: PState) -> Parsed
    decreases remaining(g, st), 3nat,
{
    match p_primary(g, st) {
        Err(e) => Err(e),
        Ok((lhs, next)) => if ahead(g, st, next) {
            p_op(g, 0, lhs, false, next)
        } else {
            Err(stalled())
        },
    }
}

/// An operand: a term, and the postfix operators after it.
pub open spec fn p_primary(g: Grammar, st: PState) -> Parsed
    decreases remaining(g, st), 2nat,
{
    match p_token(g, st) {
        Err(e) => Err(e),
        Ok((lhs, next)) => p_postfix(g, lhs, next),
    }
}

/// A term: a literal, a reference, a call, a prefix operator with its
/// operand, or an expression, a list or a dictionary in brackets.
pub open spec fn p_token(g: Grammar, st: PState) -> Parsed
    decreases remaining(g, st), 1nat,
{
    match st.cur {
        TokenView::Number(val, _) => leaf(g, st, AstView::Literal(LiteralView::Number(val))),
        TokenView::Bool(val, _) => leaf(g, st, AstView::Literal(LiteralView::Bool(val))),
        TokenView::String(val, _) => leaf(g, st, AstView::Literal(LiteralView::String(val))),
        TokenView::Reference(val, _) => leaf(g, st, AstView::Reference(val)),
        TokenView::Function(name, _) => p_function(g, name, st),
        TokenView::Operator(op, _) => match advance(g, st) {
            Err(e) => Err(e),
            Ok(next) => if ahead(g, st, next) {
                match p_primary(g, next) {
                    Err(e) => Err(e),
                    Ok((rhs, last)) => Ok((AstView::Unary(op, Box::new(rhs)), last)),
                }
            } else {
                Err(stalled())
            },
        },
        TokenView::Delim(ty, _) => match ty {
            DelimTokenType::OpenParen => p_paren(g, st),
            DelimTokenType::OpenBracket => p_bracket(g, st),
            DelimTokenType::OpenBrace => p_brace(g, st),
            _ => Err(ErrorView::NoOpenDelim),
        },
        TokenView::EOF => Err(ErrorView::UnexpectedEOF(0)),
        _ => Err(ErrorView::UnexpectedToken),
    }
}

/// An expression in parentheses: the expression itself.
pub open spec fn p_paren(g: Grammar, st: PState) -> Parsed
    decreases remaining(g, st), 0nat,
{
    match advance(g, st) {
        Err(e) => Err(e),
        Ok(next) => if ahead(g, st, next) {
            match p_expression(g, next) {
                Err(e) => Err(e),
                Ok((expr, last)) => if token_is(last.cur, ")"@) {
                    leaf(g, last, expr)
                } else {
                    Err(ErrorView::NoCloseDelim)
                },
            }
        } else {
            Err(stalled())
        },
    }
}

/// A list in square brackets.
pub open spec fn p_bracket(g: Grammar, st: PState) -> Parsed
    decreases remaining(g, st), 0nat,
{
    match advance(g, st) {
        Err(e) => Err(e),
        Ok(next) => if ahead(g, st, next) {
            match p_items(g, Seq::empty(), next) {
                Err(e) => Err(e),
                Ok((items, last)) => match expect(g, last, "]"@) {
                    Err(e) => Err(e),
                    Ok(end) => Ok((AstView::List(items), end)),
                },
            }
        } else {
            Err(stalled())
        },
    }
}

/// The items of a list after the items `acc`, up to the closing bracket or
/// the end of the text. After each item comes a comma or the closing
/// bracket.
pub open spec fn p_items(g: Grammar, acc: Seq<AstView>, st: PState) -> ParsedItems
    decreases remaining(g, st), 4nat,
{
    if st.cur is EOF || token_is(st.cur, "]"@) {
        Ok((acc, st))
    } else {
        match p_expression(g, st) {
            Err(e) => Err(e),
            Ok((item, next)) => {
                let after = if token_is(next.cur, "]"@) {
                    Ok(next)
                } else {
                    expect(g, next, ","@)
                };
                match after {
                    Err(e) => Err(e),
                    Ok(last) => if ahead(g, st, last) {
                        p_items(g, acc.push(item), last)
                    } else {
                        Err(stalled())
                    },
                }
            },
        }
    }
}

/// A dictionary in braces.
pub open spec fn p_brace(g: Grammar, st: PState) -> Parsed
    decreases remaining(g, st), 0nat,
{
    match advance(g, st) {
        Err(e) => Err(e),
        Ok(next) => if ahead(g, st, next) {
            match p_pairs(g, Seq::empty(), next) {
                Err(e) => Err(e),
                Ok((pairs, last)) => match expect(g, last, "}"@) {
                    Err(e) => Err(e),
                    Ok(end) => Ok((AstView::Dict(pairs), end)),
                },
            }
        } else {
            Err(stalled())
        },
    }
}

/// The pairs of a dictionary after the pairs `acc`, up to the closing brace
/// or the end of the text. A colon stands between key and value; after each
/// pair comes a comma or the closing brace.
pub open spec fn p_pairs(g: Grammar, acc: Seq<(AstView, AstView)>, st: PState) -> ParsedPairs
    decreases remaining(g, st), 4nat,
{
    if st.cur is EOF || token_is(st.cur, "}"@) {
        Ok((acc, st))
    } else {
        match p_expression(g, st) {
            Err(e) => Err(e),
            Ok((key, next)) => match expect(g, next, ":"@) {
                Err(e) => Err(e),
                Ok(colon) => if ahead(g, st, colon) {
                    match p_expression(g, colon) {
                        Err(e) => Err(e),
                        Ok((value, then)) => {
                            let after = if token_is(then.cur, "}"@) {
                                Ok(then)
                            } else {
                                expect(g, then, ","@)
                            };
                            match after {
                                Err(e) => Err(e),
                                Ok(last) => if ahead(g, st, last) {
                                    p_pairs(g, acc.push((key, value)), last)
                                } else {
                                    Err(stalled())
                                },
                            }
                        },
                    }
                } else {
                    Err(stalled())
                },
            },
        }
    }
}

/// A call: the name, and the arguments in parentheses.
pub open spec fn p_function(g: Grammar, name: Seq<char>, st: PState) -> Parsed
    decreases remaining(g, st), 0nat,
{
    match advance(g, st) {
        Err(e) => Err(e),
        Ok(next) => match expect(g, next, "("@) {
            Err(e) => Err(e),
            Ok(open) => if token_is(open.cur, ")"@) {
                leaf(g, open, AstView::Function(name, Seq::empty()))
            } else if ahead(g, st, open) {
                match p_args(g, Seq::empty(), open) {
                    Err(e) => Err(e),
                    Ok((args, last)) => Ok((AstView::Function(name, args), last)),
                }
            } else {
                Err(stalled())
            },
        },
    }
}

/// The arguments of a call after the arguments `acc`: at least one, each
/// followed by a comma or by the closing parenthesis.
pub open spec fn p_args(g: Grammar, acc: Seq<AstView>, st: PState) -> ParsedItems
    decreases remaining(g, st), 4nat,
{
    match p_expression(g, st) {
        Err(e) => Err(e),
        Ok((arg, next)) => if token_is(next.cur, ")"@) {
            match advance(g, next) {
                Err(e) => Err(e),
                Ok(last) => Ok((acc.push(arg), last)),
            }
        } else {
            match expect(g, next, ","@) {
                Err(e) => Err(e),
                Ok(last) => if ahead(g, st, last) {
                    p_args(g, acc.push(arg), last)
                } else {
                    Err(stalled())
                },
            }
        }
    }
}

/// The operators that follow the operand `lhs`, by precedence climbing.
/// An operator whose precedence is under `min` ends the climb, as does a
/// token that is no operator. `is_not` says that a `not` was read and waits
/// for its infix operator.
///
/// A question mark makes `lhs` the condition of a conditional expression,
/// which ends the climb. A `not` must be followed by an infix operator; the
/// binary node of that operator is put under a `not`. Any other operator
/// takes what [`p_rhs`] reads as its right side, and the climb goes on with
/// the node of the two.
pub open spec fn p_op(g: Grammar, min: int, lhs: AstView, is_not: bool, st: PState) -> Parsed
    decreases remaining(g, st), 5nat,
{
    match st.cur {
        TokenView::Operator(op, _) => if op == "not"@ {
            match advance(g, st) {
                Err(e) => Err(e),
                Ok(next) => if !operator_in(next.cur, g.tables.infix) {
                    Err(ErrorView::ExpectBinOpToken)
                } else if ahead(g, st, next) {
                    p_op(g, min, lhs, true, next)
                } else {
                    Err(stalled())
                },
            }
        } else if op == "?"@ {
            p_ternary(g, lhs, st)
        } else if binding_powers(g.tables.infix, op).0 < min {
            Ok((lhs, st))
        } else {
            match advance(g, st) {
                Err(e) => Err(e),
                Ok(next) => if ahead(g, st, next) {
                    match p_rhs(g, binding_powers(g.tables.infix, op).1, next) {
                        Err(e) => Err(e),
                        Ok((rhs, last)) => if ahead(g, st, last) {
                            p_op(g, min, fold(op, lhs, rhs, is_not), false, last)
                        } else {
                            Err(stalled())
                        },
                    }
                } else {
                    Err(stalled())
                },
            }
        },
        _ => Ok((lhs, st)),
    }
}

/// The right side of an infix operator whose right binding power is
/// `power`: the next operand, which first climbs from `power` where an infix
/// operator follows that binds at least as tightly.
pub open spec fn p_rhs(g: Grammar, power: int, st: PState) -> Parsed
    decreases remaining(g, st), 6nat,
{
    match p_primary(g, st) {
        Err(e) => Err(e),
        Ok((rhs, then)) => if binds(g, then, power) {
            if ahead(g, st, then) {
                p_op(g, power, rhs, false, then)
            } else {
                Err(stalled())
            }
        } else {
            Ok((rhs, then))
        },
    }
}

/// A conditional expression with the condition `condition`: after the
/// question mark the first branch, a colon, and the second branch.
pub open spec fn p_ternary(g: Grammar, condition: AstView, st: PState) -> Parsed
    decreases remaining(g, st), 0nat,
{
    match advance(g, st) {
        Err(e) => Err(e),
        Ok(next) => if ahead(g, st, next) {
            match p_expression(g, next) {
                Err(e) => Err(e),
                Ok((a, colon)) => if !token_is(colon.cur, ":"@) {
                    Err(ErrorView::InvalidTernaryExprNeedColon)
                } else {
                    match advance(g, colon) {
                        Err(e) => Err(e),
                        Ok(then) => if ahead(g, st, then) {
                            match p_expression(g, then) {
                                Err(e) => Err(e),
                                Ok((b, last)) => Ok(
                                    (
                                        AstView::Ternary(
                                            Box::new(condition),
                                            Box::new(a),
                                            Box::new(b),
                                        ),
                                        last,
                                    ),
                                ),
                            }
                        } else {
                            Err(stalled())
                        },
                    }
                },
            }
        } else {
            Err(stalled())
        },
    }
}

/// One expression where there is exactly one, else the chain of them.
pub open spec fn collapse(statements: Seq<AstView>) -> AstView {
    if statements.len() == 1 {
        statements[0]
    } else {
        AstView::Chain(statements)
    }
}

/// The statements after the statements `acc`, up to the end of the text. A
/// semicolon after a statement is read over.
pub open spec fn p_chain(g: Grammar, acc: Seq<AstView>, st: PState) -> Parsed
    decreases remaining(g, st),
{
    if st.cur is EOF {
        Ok((collapse(acc), st))
    } else {
        match p_expression(g, st) {
            Err(e) => Err(e),
            Ok((statement, next)) => {
                let after = if next.cur is Semicolon {
                    advance(g, next)
                } else {
                    Ok(next)
                };
                match after {
                    Err(e) => Err(e),
                    Ok(last) => if ahead(g, st, last) {
                        p_chain(g, acc.push(statement), last)
                    } else {
                        Err(stalled())
                    },
                }
            },
        }
    }
}

/// The state of a parser before its first token is read.
pub open spec fn initial() -> PState {
    PState { pos: 0, cur: TokenView::EOF }
}

/// What a text means under the tables: the expression that its statements
/// make, or the first failure met in reading it.
pub open spec fn parse_text(g: Grammar) -> Result<AstView, ErrorView> {
    match advance(g, initial()) {
        Err(e) => Err(e),
        Ok(st) => match p_chain(g, Seq::empty(), st) {
            Err(e) => Err(e),
            Ok((ast, _)) => Ok(ast),
        },
    }
}

/// What is read stays within the text and leaves no more to read than
/// there was.
pub open spec fn reads_on<A>(g: Grammar, st: PState, r: Result<(A, PState), ErrorView>) -> bool {
    r matches Ok((_, next)) ==> within(g, next) && remaining(g, next) <= remaining(g, st)
}

/// What is read stays within the text and leaves less to read than there
/// was.
pub open spec fn gets_ahead<A>(g: Grammar, st: PState, r: Result<(A, PState), ErrorView>) -> bool {
    r matches Ok((_, next)) ==> within(g, next) && ahead(g, st, next)
}

/// Postfix operators are read without going back.
pub proof fn lemma_postfix_reads_on(g: Grammar, lhs: AstView, st: PState)
    requires
        within(g, st),
    ensures
        reads_on(g, st, p_postfix(g, lhs, st)),
    decreases remaining(g, st),
{
    lemma_advance(g, st);
    match st.cur {
        TokenView::Operator(op, _) => {
            if g.tables.postfix.contains_key(op) {
                match advance(g, st) {
                    Ok(next) => {
                        lemma_postfix_reads_on(g, AstView::Postfix(Box::new(lhs), op), next);
                    },
                    Err(_) => {},
                }
            }
        },
        _ => {},
    }
}

/// Every expression takes at least one token: what is read as an
/// expression leaves less to read than there was. The same holds of an
/// operand. So the rules never fail for want of getting ahead.
pub proof fn lemma_expression_gets_ahead(g: Grammar, st: PState)
    requires
        within(g, st),
    ensures
        gets_ahead(g, st, p_expression(g, st)),
        gets_ahead(g, st, p_primary(g, st)),
        p_primary(g, st) matches Ok((lhs, next)) ==> p_expression(g, st) == p_op(
            g,
            0,
            lhs,
            false,
            next,
        ),
    decreases remaining(g, st), 3nat,
{
    lemma_primary_gets_ahead(g, st);
    match p_primary(g, st) {
        Ok((lhs, next)) => {
            lemma_op_reads_on(g, 0, lhs, false, next);
        },
        Err(_) => {},
    }
}

/// An operand takes at least one token.
pub proof fn lemma_primary_gets_ahead(g: Grammar, st: PState)
    requires
        within(g, st),
    ensures
        gets_ahead(g, st, p_primary(g, st)),
    decreases remaining(g, st), 2nat,
{
    lemma_token_gets_ahead(g, st);
    match p_token(g, st) {
        Ok((lhs, next)) => {
            lemma_postfix_reads_on(g, lhs, next);
        },
        Err(_) => {},
    }
}

/// A term takes at least one token, and a prefix operator never waits in
/// vain for the text to go on.
pub proof fn lemma_token_gets_ahead(g: Grammar, st: PState)
    requires
        within(g, st),
    ensures
        gets_ahead(g, st, p_token(g, st)),
        st.cur matches TokenView::Operator(op, _) ==> p_token(g, st) == (match advance(g, st) {
            Err(e) => Err::<(AstView, PState), ErrorView>(e),
            Ok(next) => match p_primary(g, next) {
                Err(e) => Err(e),
                Ok((rhs, last)) => Ok((AstView::Unary(op, Box::new(rhs)), last)),
            },
        }),
    decreases remaining(g, st), 1nat,
{
    lemma_advance(g, st);
    match st.cur {
        TokenView::Function(name, _) => {
            lemma_function_gets_ahead(g, name, st);
        },
        TokenView::Operator(op, _) => {
            match advance(g, st) {
                Ok(next) => {
                    lemma_primary_gets_ahead(g, next);
                },
                Err(_) => {},
            }
        },
        TokenView::Delim(ty, _) => {
            match advance(g, st) {
                Ok(next) => {
                    match ty {
                        DelimTokenType::OpenParen => {
                            lemma_expression_gets_ahead(g, next);
                            match p_expression(g, next) {
                                Ok((_, last)) => {
                                    lemma_advance(g, last);
                                },
                                Err(_) => {},
                            }
                        },
                        DelimTokenType::OpenBracket => {
                            lemma_items_read_on(g, Seq::empty(), next);
                            match p_items(g, Seq::empty(), next) {
                                Ok((_, last)) => {
                                    lemma_advance(g, last);
                                },
                                Err(_) => {},
                            }
                        },
                        DelimTokenType::OpenBrace => {
                            lemma_pairs_read_on(g, Seq::empty(), next);
                            match p_pairs(g, Seq::empty(), next) {
                                Ok((_, last)) => {
                                    lemma_advance(g, last);
                                },
                                Err(_) => {},
                            }
                        },
                        _ => {},
                    }
                },
                Err(_) => {},
            }
        },
        _ => {},
    }
}

/// The items of a list are read without going back, and none of them holds
/// the reading up.
pub proof fn lemma_items_read_on(g: Grammar, acc: Seq<AstView>, st: PState)
    requires
        within(g, st),
    ensures
        reads_on(g, st, p_items(g, acc, st)),
    decreases remaining(g, st), 4nat,
{
    if !(st.cur is EOF || token_is(st.cur, "]"@)) {
        lemma_expression_gets_ahead(g, st);
        match p_expression(g, st) {
            Ok((item, next)) => {
                lemma_advance(g, next);
                let after = if token_is(next.cur, "]"@) {
                    Ok(next)
                } else {
                    expect(g, next, ","@)
                };
                match after {
                    Ok(last) => {
                        lemma_items_read_on(g, acc.push(item), last);
                    },
                    Err(_) => {},
                }
            },
            Err(_) => {},
        }
    }
}

/// The pairs of a dictionary are read without going back.
pub proof fn lemma_pairs_read_on(g: Grammar, acc: Seq<(AstView, AstView)>, st: PState)
    requires
        within(g, st),
    ensures
        reads_on(g, st, p_pairs(g, acc, st)),
    decreases remaining(g, st), 4nat,
{
    if !(st.cur is EOF || token_is(st.cur, "}"@)) {
        lemma_expression_gets_ahead(g, st);
        match p_expression(g, st) {
            Ok((key, next)) => {
                lemma_advance(g, next);
                match expect(g, next, ":"@) {
                    Ok(colon) => {
                        lemma_expression_gets_ahead(g, colon);
                        match p_expression(g, colon) {
                            Ok((value, then)) => {
                                lemma_advance(g, then);
                                let after = if token_is(then.cur, "}"@) {
                                    Ok(then)
                                } else {
                                    expect(g, then, ","@)
                                };
                                match after {
                                    Ok(last) => {
                                        lemma_pairs_read_on(g, acc.push((key, value)), last);
                                    },
                                    Err(_) => {},
                                }
                            },
                            Err(_) => {},
                        }
                    },
                    Err(_) => {},
                }
            },
            Err(_) => {},
        }
    }
}

/// A call takes at least one token.
pub proof fn lemma_function_gets_ahead(g: Grammar, name: Seq<char>, st: PState)
    requires
        within(g, st),
        !(st.cur is EOF),
    ensures
        gets_ahead(g, st, p_function(g, name, st)),
    decreases remaining(g, st), 0nat,
{
    lemma_advance(g, st);
    match advance(g, st) {
        Ok(next) => {
            lemma_advance(g, next);
            match expect(g, next, "("@) {
                Ok(open) => {
                    lemma_advance(g, open);
                    if !token_is(open.cur, ")"@) {
                        lemma_args_get_ahead(g, Seq::empty(), open);
                    }
                },
                Err(_) => {},
            }
        },
        Err(_) => {},
    }
}

/// The arguments of a call take at least one token.
pub proof fn lemma_args_get_ahead(g: Grammar, acc: Seq<AstView>, st: PState)
    requires
        within(g, st),
    ensures
        gets_ahead(g, st, p_args(g, acc, st)),
    decreases remaining(g, st), 4nat,
{
    lemma_expression_gets_ahead(g, st);
    match p_expression(g, st) {
        Ok((arg, next)) => {
            lemma_advance(g, next);
            if !token_is(next.cur, ")"@) {
                match expect(g, next, ","@) {
                    Ok(last) => {
                        lemma_args_get_ahead(g, acc.push(arg), last);
                    },
                    Err(_) => {},
                }
            }
        },
        Err(_) => {},
    }
}

/// The right side of an infix operator takes at least one token.
pub proof fn lemma_rhs_gets_ahead(g: Grammar, power: int, st: PState)
    requires
        within(g, st),
    ensures
        gets_ahead(g, st, p_rhs(g, power, st)),
    decreases remaining(g, st), 6nat,
{
    lemma_primary_gets_ahead(g, st);
    match p_primary(g, st) {
        Ok((rhs, then)) => {
            if binds(g, then, power) {
                lemma_op_reads_on(g, power, rhs, false, then);
            }
        },
        Err(_) => {},
    }
}

/// A conditional expression takes at least one token.
pub proof fn lemma_ternary_gets_ahead(g: Grammar, condition: AstView, st: PState)
    requires
        within(g, st),
        !(st.cur is EOF),
    ensures
        gets_ahead(g, st, p_ternary(g, condition, st)),
    decreases remaining(g, st), 0nat,
{
    lemma_advance(g, st);
    match advance(g, st) {
        Ok(next) => {
            lemma_expression_gets_ahead(g, next);
            match p_expression(g, next) {
                Ok((_, colon)) => {
                    lemma_advance(g, colon);
                    match advance(g, colon) {
                        Ok(then) => {
                            lemma_expression_gets_ahead(g, then);
                        },
                        Err(_) => {},
                    }
                },
                Err(_) => {},
            }
        },
        Err(_) => {},
    }
}

/// The climb is made without going back.
pub proof fn lemma_op_reads_on(g: Grammar, min: int, lhs: AstView, is_not: bool, st: PState)
    requires
        within(g, st),
    ensures
        reads_on(g, st, p_op(g, min, lhs, is_not, st)),
    decreases remaining(g, st), 5nat,
{
    lemma_advance(g, st);
    match st.cur {
        TokenView::Operator(op, _) => {
            if op == "not"@ {
                match advance(g, st) {
                    Ok(next) => {
                        if operator_in(next.cur, g.tables.infix) {
                            lemma_op_reads_on(g, min, lhs, true, next);
                        }
                    },
                    Err(_) => {},
                }
            } else if op == "?"@ {
                lemma_ternary_gets_ahead(g, lhs, st);
            } else if binding_powers(g.tables.infix, op).0 >= min {
                match advance(g, st) {
                    Ok(next) => {
                        lemma_rhs_gets_ahead(g, binding_powers(g.tables.infix, op).1, next);
                        match p_rhs(g, binding_powers(g.tables.infix, op).1, next) {
                            Ok((rhs, last)) => {
                                lemma_op_reads_on(g, min, fold(op, lhs, rhs, is_not), false, last);
                            },
                            Err(_) => {},
                        }
                    },
                    Err(_) => {},
                }
            }
        },
        _ => {},
    }
}

} // verus!
