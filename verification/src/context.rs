use vstd::prelude::*;
use crate::error::{Error, ErrorView};
use crate::function::{CustomFunction, InnerFunction};
use crate::store::Store;
use crate::value::{result_view, Value, ValueView};

verus! {

/// What a caller binds a name to: a value, or a function of its own.
pub enum ContextValue {
    Variable(Value),
    Function(Box<dyn InnerFunction>),
}

/// What a context holds under a name: a value, or the place of a function
/// among those that were bound.
pub enum ContextEntry {
    Variable(Value),
    Function(usize),
}

/// What a name is bound to, as the evaluation rules see it.
pub enum Binding {
    Variable(ValueView),
    Function,
}

pub open spec fn binding_of(entry: ContextEntry) -> Binding {
    match entry {
        ContextEntry::Variable(v) => Binding::Variable(v@),
        ContextEntry::Function(_) => Binding::Function,
    }
}

/// What reading the name `name` may give: the value of a variable, `Nil`
/// for a name that is not bound, and for a function whatever it returns when
/// called without arguments.
pub open spec fn reference_outcome(
    bindings: Map<Seq<char>, Binding>,
    name: Seq<char>,
    res: Result<ValueView, ErrorView>,
) -> bool {
    if bindings.contains_key(name) {
        match bindings[name] {
            Binding::Variable(v) => res == Ok::<ValueView, ErrorView>(v),
            Binding::Function => true,
        }
    } else {
        res == Ok::<ValueView, ErrorView>(ValueView::Nil)
    }
}

/// The variables and functions that a caller hands to an evaluation.
/// Assignments in an expression write to it.
pub struct Context {
    store: Store<ContextEntry>,
    functions: Vec<CustomFunction>,
}

impl Context {
    #[verifier::type_invariant]
    spec fn inv(self) -> bool {
        forall|k: Seq<char>| #[trigger]
            self.store@.contains_key(k) ==> (self.store@[k] matches ContextEntry::Function(i)
                ==> i < self.functions@.len())
    }

    /// The bindings, as a map from names.
    pub closed spec fn view(&self) -> Map<Seq<char>, Binding> {
        Map::new(
            |k: Seq<char>| self.store@.contains_key(k),
            |k: Seq<char>| binding_of(self.store@[k]),
        )
    }

    /// A context without bindings.
    pub fn new() -> (r: Self)
        ensures
            r@ == Map::<Seq<char>, Binding>::empty(),
    {
        let r = Context { store: Store::new(), functions: Vec::new() };
        assert(r@ =~= Map::<Seq<char>, Binding>::empty());
        r
    }

    /// Binds `name` to the function `func`.
    pub fn set_func(&mut self, name: &str, func: Box<dyn InnerFunction>)
        ensures
            final(self)@ == old(self)@.insert(name@, Binding::Function),
    {
        self.set(name, ContextValue::Function(func));
    }

    /// Binds `name` to the value `value`.
    pub fn set_variable(&mut self, name: &str, value: Value)
        ensures
            final(self)@ == old(self)@.insert(name@, Binding::Variable(value@)),
    {
        self.set(name, ContextValue::Variable(value));
    }

    /// Binds `name` to `v`, in place of what it was bound to.
    pub fn set(&mut self, name: &str, v: ContextValue)
        ensures
            final(self)@ == old(self)@.insert(
                name@,
                match v {
                    ContextValue::Variable(value) => Binding::Variable(value@),
                    ContextValue::Function(_) => Binding::Function,
                },
            ),
    {
        proof {
            use_type_invariant(&*self);
        }
        let mut taken = Context { store: Store::new(), functions: Vec::new() };
        std::mem::swap(self, &mut taken);
        let mut store = taken.store;
        let mut functions = taken.functions;
        let ghost before = store@;
        match v {
            ContextValue::Variable(value) => {
                store.set(name, ContextEntry::Variable(value));
            },
            ContextValue::Function(func) => {
                let place = functions.len();
                functions.push(CustomFunction::new(func));
                store.set(name, ContextEntry::Function(place));
            },
        }
        assert forall|k: Seq<char>| #[trigger] store@.contains_key(k) implies (
        store@[k] matches ContextEntry::Function(i) ==> i < functions@.len()) by {
            if k != name@ {
                assert(before.contains_key(k));
            }
        }
        *self = Context { store, functions };
        assert(self@ =~= old(self)@.insert(
            name@,
            match v {
                ContextValue::Variable(value) => Binding::Variable(value@),
                ContextValue::Function(_) => Binding::Function,
            },
        ));
    }

    /// The function that `name` is bound to, if it is bound to one.
    pub fn get_func(&self, name: &str) -> (r: Option<&CustomFunction>)
        ensures
            r is Some <==> self@.contains_key(name@) && self@[name@] is Function,
    {
        proof {
            use_type_invariant(self);
        }
        match self.store.get(name) {
            Some(ContextEntry::Function(i)) => Some(&self.functions[*i]),
            _ => None,
        }
    }

    /// The value that `name` is bound to, if it is bound to one.
    pub fn get_variable(&self, name: &str) -> (r: Option<Value>)
        ensures
            match r {
                Some(v) => self@.contains_key(name@) && self@[name@] == Binding::Variable(v@),
                None => !(self@.contains_key(name@) && self@[name@] is Variable),
            },
    {
        match self.store.get(name) {
            Some(ContextEntry::Variable(v)) => Some(v.clone()),
            _ => None,
        }
    }

    /// What `name` is bound to, if it is bound.
    pub fn get(&self, name: &str) -> (r: Option<&ContextEntry>)
        ensures
            match r {
                Some(entry) => self@.contains_key(name@) && self@[name@] == binding_of(*entry),
                None => !self@.contains_key(name@),
            },
    {
        self.store.get(name)
    }

    /// Reads `name`: the value of a variable, `Nil` for a name that is not
    /// bound, and for a function what it returns without arguments.
    pub fn value(&self, name: &str) -> (r: Result<Value, Error>)
        ensures
            reference_outcome(self@, name@, result_view(r)),
    {
        proof {
            use_type_invariant(self);
        }
        match self.store.get(name) {
            None => Ok(Value::Nil),
            Some(ContextEntry::Variable(v)) => Ok(v.clone()),
            Some(ContextEntry::Function(i)) => self.functions[*i].call(Vec::new()),
        }
    }
}

} // verus!
