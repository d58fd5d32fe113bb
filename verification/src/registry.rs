use vstd::prelude::*;
use crate::function::{FunctionHandler, InnerFunctionManager};
use crate::operator::{
    BinaryOpConfig, BinaryOpFuncManager, PostfixOpFuncManager, PostfixOpHandler,
    UnaryOpFuncManager, UnaryOpHandler,
};

verus! {

/// The four tables that lexing, parsing and evaluation consult: the prefix,
/// infix and postfix operators, and the functions. A host may add to them at
/// any time; what an expression means is decided by what they hold when it
/// is read and when it is run.
pub struct Registry {
    pub prefix: UnaryOpFuncManager,
    pub infix: BinaryOpFuncManager,
    pub postfix: PostfixOpFuncManager,
    pub functions: InnerFunctionManager,
}

/// The four tables as maps from names.
pub struct RegistryView {
    pub prefix: Map<Seq<char>, UnaryOpHandler>,
    pub infix: Map<Seq<char>, BinaryOpConfig>,
    pub postfix: Map<Seq<char>, PostfixOpHandler>,
    pub functions: Map<Seq<char>, FunctionHandler>,
}

impl View for Registry {
    type V = RegistryView;

    open spec fn view(&self) -> RegistryView {
        RegistryView {
            prefix: self.prefix@,
            infix: self.infix@,
            postfix: self.postfix@,
            functions: self.functions@,
        }
    }
}

} // verus!
