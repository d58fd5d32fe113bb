//! An embeddable expression language: text is split into tokens, parsed by
//! precedence climbing against operator tables that a host can extend at any
//! time, and evaluated against caller-supplied variables and functions.
pub mod ast;
pub mod builtin;
pub mod context;
pub mod descriptor;
pub mod determinism;
pub mod display;
pub mod error;
pub mod eval;
pub mod function;
pub mod grammar;
pub mod init;
pub mod keyword;
pub mod laws;
pub mod number;
pub mod operator;
pub mod parser;
pub mod registry;
pub mod render;
pub mod store;
pub mod text;
pub mod token;
pub mod tokenizer;
pub mod value;

pub use crate::ast::{ExprAST, Literal};
pub use crate::context::{Context, ContextValue};
pub use crate::error::{Error, ErrorGroup};
pub use crate::function::InnerFunction;
pub use crate::init::init;
pub use crate::number::Number;
pub use crate::operator::{
    BinaryOpAssociativity, BinaryOpFunc, BinaryOpType, UnaryOpFunc,
};
pub use crate::registry::Registry;
pub use crate::value::Value;

use vstd::prelude::*;
use crate::error::ErrorView;
use crate::eval::{evaluates, witness, Bindings};
use crate::function::FunctionHandler;
use crate::grammar::{parse_text, Grammar};
use crate::operator::{BinaryOpConfig, BinaryOpHandler, PostfixOpHandler, UnaryOpHandler};
use crate::parser::Parser;
use crate::registry::RegistryView;
use crate::value::{result_view, ValueView};

verus! {

/// What evaluating the text `text` under the tables `r` with the bindings
/// `before` may give: the failure of reading it, or an outcome of evaluating
/// what was read.
pub open spec fn executes(
    text: Seq<char>,
    r: RegistryView,
    before: Bindings,
    res: Result<ValueView, ErrorView>,
) -> bool {
    match parse_text(Grammar { text, tables: r }) {
        Err(e) => res == Err::<ValueView, ErrorView>(e),
        Ok(ast) => exists|after: Bindings| #[trigger] witness(after) && evaluates(
            ast,
            r,
            before,
            res,
            after,
        ),
    }
}

/// Reads `expr` under the tables of `registry` and evaluates it with the
/// bindings of `ctx`.
pub fn execute(registry: &Registry, expr: &str, ctx: Context) -> (r: Result<Value, Error>)
    ensures
        executes(expr@, registry@, ctx@, result_view(r)),
{
    let mut ctx = ctx;
    let ast = parse_expression(registry, expr)?;
    let r = ast.exec(registry, &mut ctx);
    assert(witness(ctx@));
    r
}

/// Reads `expr` under the tables of `registry`: zero or more statements,
/// which make one expression.
pub fn parse_expression(registry: &Registry, expr: &str) -> (r: Result<ExprAST, Error>)
    ensures
        match parse_text(Grammar { text: expr@, tables: registry@ }) {
            Ok(ast) => r matches Ok(x) && x@ == ast,
            Err(e) => r matches Err(x) && x@ == e,
        },
{
    let mut parser = Parser::new(registry, expr)?;
    parser.parse_chain_expression()
}

/// Makes `name` a function that every expression read or run under
/// `registry` can call, in place of what the name stood for.
pub fn register_function(registry: &mut Registry, name: &str, handler: Box<dyn InnerFunction>)
    ensures
        final(registry)@ == (RegistryView {
            functions: old(registry)@.functions.insert(
                name@,
                FunctionHandler::Custom(old(registry).functions.custom_count() as usize),
            ),
            ..old(registry)@
        }),
        final(registry).functions.custom_count() == old(registry).functions.custom_count() + 1,
{
    registry.functions.register(name, handler);
}

/// Makes `op` a prefix operator with the handler `handler`, in place of
/// what the name stood for as a prefix operator.
pub fn register_prefix_op(registry: &mut Registry, op: &str, handler: Box<dyn UnaryOpFunc>)
    ensures
        final(registry)@ == (RegistryView {
            prefix: old(registry)@.prefix.insert(
                op@,
                UnaryOpHandler::Custom(old(registry).prefix.custom_count() as usize),
            ),
            ..old(registry)@
        }),
        final(registry).prefix.custom_count() == old(registry).prefix.custom_count() + 1,
{
    registry.prefix.register(op, handler);
}

/// Makes `op` a postfix operator with the handler `handler`, in place of
/// what the name stood for as a postfix operator.
pub fn register_postfix_op(registry: &mut Registry, op: &str, handler: Box<dyn UnaryOpFunc>)
    ensures
        final(registry)@ == (RegistryView {
            postfix: old(registry)@.postfix.insert(
                op@,
                PostfixOpHandler::Custom(old(registry).postfix.custom_count() as usize),
            ),
            ..old(registry)@
        }),
        final(registry).postfix.custom_count() == old(registry).postfix.custom_count() + 1,
{
    registry.postfix.register(op, handler);
}

/// Makes `op` an infix operator with the given precedence, class,
/// associativity and handler, in place of what the name stood for as an
/// infix operator.
pub fn register_infix_op(
    registry: &mut Registry,
    op: &str,
    precedence: i32,
    op_type: BinaryOpType,
    associativity: BinaryOpAssociativity,
    handler: Box<dyn BinaryOpFunc>,
)
    ensures
        final(registry)@ == (RegistryView {
            infix: old(registry)@.infix.insert(
                op@,
                BinaryOpConfig(
                    precedence,
                    op_type,
                    associativity,
                    BinaryOpHandler::Custom(old(registry).infix.custom_count() as usize),
                ),
            ),
            ..old(registry)@
        }),
        final(registry).infix.custom_count() == old(registry).infix.custom_count() + 1,
{
    registry.infix.register(op, precedence, op_type, associativity, handler);
}

} // verus!
