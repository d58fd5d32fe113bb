use vstd::prelude::*;
use vstd::string::StringExecFns;
use crate::builtin::{function_apply, function_result, FunctionKind};
use crate::error::{Error, ErrorView};
use crate::store::Store;
use crate::value::{result_view, values_view, Value, ValueView};

verus! {

/// A function that a host supplies: it is called with the values of the
/// arguments.
pub trait InnerFunction: Send + Sync {
    fn call(&self, params: Vec<Value>) -> Result<Value, Error>;
}

/// A host's function, as a table keeps it.
pub struct CustomFunction {
    pub handler: Box<dyn InnerFunction>,
}

impl CustomFunction {
    /// Keeps the host's handler as it is.
    pub(crate) fn new(handler: Box<dyn InnerFunction>) -> (r: Self)
        ensures
            r == (CustomFunction { handler }),
    {
        CustomFunction { handler }
    }

    /// Calls the host's function. Nothing is known of what comes back.
    pub fn call(&self, params: Vec<Value>) -> Result<Value, Error> {
        self.handler.call(params)
    }
}

/// What a function name runs: a built-in computation, or the host's
/// function at the given place among those registered.
#[derive(Debug, Clone, Copy, PartialEq, Eq, Structural)]
pub enum FunctionHandler {
    Builtin(FunctionKind),
    Custom(usize),
}

/// What may come back from a function: a built-in function returns what its
/// kind computes; of a host's function nothing is known.
pub open spec fn function_outcome(
    handler: FunctionHandler,
    args: Seq<ValueView>,
    res: Result<ValueView, ErrorView>,
) -> bool {
    match handler {
        FunctionHandler::Builtin(kind) => res == function_result(kind, args),
        FunctionHandler::Custom(_) => true,
    }
}

/// The table `m` with the built-in functions added.
pub open spec fn with_builtin_functions(m: Map<Seq<char>, FunctionHandler>) -> Map<
    Seq<char>,
    FunctionHandler,
> {
    m.insert("min"@, FunctionHandler::Builtin(FunctionKind::Min)).insert(
        "max"@,
        FunctionHandler::Builtin(FunctionKind::Max),
    ).insert("sum"@, FunctionHandler::Builtin(FunctionKind::Sum)).insert(
        "mul"@,
        FunctionHandler::Builtin(FunctionKind::Mul),
    )
}

/// The functions that every expression can call: a table from names to
/// handlers, and the functions that hosts have registered.
pub struct InnerFunctionManager {
    store: Store<FunctionHandler>,
    customs: Vec<CustomFunction>,
}

impl InnerFunctionManager {
    /// The table from function names to handlers.
    pub closed spec fn view(&self) -> Map<Seq<char>, FunctionHandler> {
        self.store@
    }

    /// How many functions hosts have registered.
    pub closed spec fn custom_count(&self) -> nat {
        self.customs@.len()
    }

    /// The table of the built-in functions.
    pub fn new() -> (r: Self)
        ensures
            r@ == with_builtin_functions(Map::empty()),
            r.custom_count() == 0,
    {
        InnerFunctionManager { store: Self::internal_register(Store::new()), customs: Vec::new() }
    }

    fn internal_register(m: Store<FunctionHandler>) -> (r: Store<FunctionHandler>)
        ensures
            r@ == with_builtin_functions(m@),
    {
        let mut m = m;
        m.set("min", FunctionHandler::Builtin(FunctionKind::Min));
        m.set("max", FunctionHandler::Builtin(FunctionKind::Max));
        m.set("sum", FunctionHandler::Builtin(FunctionKind::Sum));
        m.set("mul", FunctionHandler::Builtin(FunctionKind::Mul));
        m
    }

    /// Registers the host's function `f` under `name`, in place of what the
    /// table had under that name.
    pub fn register(&mut self, name: &str, f: Box<dyn InnerFunction>)
        ensures
            final(self)@ == old(self)@.insert(
                name@,
                FunctionHandler::Custom(old(self).custom_count() as usize),
            ),
            final(self).custom_count() == old(self).custom_count() + 1,
    {
        let place = self.customs.len();
        self.customs.push(CustomFunction::new(f));
        self.store.set(name, FunctionHandler::Custom(place));
    }

    /// The handler of `name`.
    pub fn get(&self, name: &str) -> (r: Result<FunctionHandler, Error>)
        ensures
            match r {
                Ok(handler) => self@.contains_key(name@) && self@[name@] == handler,
                Err(e) => !self@.contains_key(name@) && e@
                    == ErrorView::InnerFunctionNotRegistered(name@),
            },
    {
        match self.store.get(name) {
            Some(handler) => Ok(*handler),
            None => Err(Error::InnerFunctionNotRegistered(String::from_str(name))),
        }
    }

    /// Calls the function `name` with the given arguments.
    pub fn apply(&self, name: &str, params: Vec<Value>) -> (r: Result<Value, Error>)
        ensures
            !self@.contains_key(name@) ==> result_view(r) == Err::<ValueView, ErrorView>(
                ErrorView::InnerFunctionNotRegistered(name@),
            ),
            self@.contains_key(name@) ==> function_outcome(
                self@[name@],
                values_view(params@),
                result_view(r),
            ),
    {
        match self.get(name)? {
            FunctionHandler::Builtin(kind) => function_apply(kind, params),
            FunctionHandler::Custom(i) => if i < self.customs.len() {
                self.customs[i].call(params)
            } else {
                Err(Error::InnerFunctionNotRegistered(String::from_str(name)))
            },
        }
    }
}

} // verus!
