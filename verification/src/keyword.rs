use vstd::prelude::*;
use crate::registry::{Registry, RegistryView};
use crate::text::same_text;

verus! {

/// Whether `op` is one of the two marks of the conditional expression.
pub open spec fn ternary_op(op: Seq<char>) -> bool {
    op == "?"@ || op == ":"@
}

/// Whether `op` is an operator of any kind in the tables `r`.
pub open spec fn known_op(r: RegistryView, op: Seq<char>) -> bool {
    r.prefix.contains_key(op) || r.infix.contains_key(op) || r.postfix.contains_key(op)
        || ternary_op(op)
}

pub fn is_prefix_op(registry: &Registry, op: &str) -> (r: bool)
    ensures
        r == registry@.prefix.contains_key(op@),
{
    registry.prefix.exist(op)
}

pub fn is_infix_op(registry: &Registry, op: &str) -> (r: bool)
    ensures
        r == registry@.infix.contains_key(op@),
{
    registry.infix.exist(op)
}

pub fn is_postfix_op(registry: &Registry, op: &str) -> (r: bool)
    ensures
        r == registry@.postfix.contains_key(op@),
{
    registry.postfix.exist(op)
}

pub fn is_ternary_op(op: &str) -> (r: bool)
    ensures
        r == ternary_op(op@),
{
    same_text(op, "?") || same_text(op, ":")
}

/// Whether `op` is an operator of any kind: what the lexer asks of each
/// candidate text.
pub fn is_op(registry: &Registry, op: &str) -> (r: bool)
    ensures
        r == known_op(registry@, op@),
{
    is_prefix_op(registry, op) || is_infix_op(registry, op) || is_postfix_op(registry, op)
        || is_ternary_op(op)
}

pub fn is_not(op: &str) -> (r: bool)
    ensures
        r == (op@ == "not"@),
{
    same_text(op, "not")
}

} // verus!
