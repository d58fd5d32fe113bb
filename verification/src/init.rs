use vstd::prelude::*;
use crate::function::{with_builtin_functions, InnerFunctionManager};
use crate::operator::{
    with_builtin_infix, with_builtin_postfix, with_builtin_prefix, BinaryOpFuncManager,
    PostfixOpFuncManager, UnaryOpFuncManager,
};
use crate::registry::{Registry, RegistryView};

verus! {

/// The tables that hold the built-in operators and functions and nothing
/// else.
pub open spec fn builtin_registry() -> RegistryView {
    RegistryView {
        prefix: with_builtin_prefix(Map::empty()),
        infix: with_builtin_infix(Map::empty()),
        postfix: with_builtin_postfix(Map::empty()),
        functions: with_builtin_functions(Map::empty()),
    }
}

/// A registry with the built-in operators and functions.
pub fn init() -> (r: Registry)
    ensures
        r@ == builtin_registry(),
{
    let mut prefix = UnaryOpFuncManager::new();
    prefix.init();
    let mut infix = BinaryOpFuncManager::new();
    infix.init();
    let mut postfix = PostfixOpFuncManager::new();
    postfix.init();
    let functions = InnerFunctionManager::new();
    Registry { prefix, infix, postfix, functions }
}

} // verus!
