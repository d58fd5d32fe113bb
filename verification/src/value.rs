use vstd::prelude::*;
use vstd::std_specs::cmp::PartialEqSpecImpl;
use vstd::std_specs::convert::FromSpecImpl;
use crate::error::{Error, ErrorView};
use crate::number::{dec_eq, dec_of_int, dec_to_i64, Dec, Number};

verus! {

/// A value of the language. A dictionary is a list of pairs in the order in
/// which they were written; a key may occur more than once.
#[derive(Debug)]
pub enum Value {
    String(String),
    Number(Number),
    Bool(bool),
    List(Vec<Value>),
    Dict(Vec<(Value, Value)>),
    Nil,
}

/// The mathematical content of a [`Value`].
pub enum ValueView {
    String(Seq<char>),
    Number(Dec),
    Bool(bool),
    List(Seq<ValueView>),
    Dict(Seq<(ValueView, ValueView)>),
    Nil,
}

pub open spec fn value_view(v: Value) -> ValueView
    decreases v,
{
    match v {
        Value::String(s) => ValueView::String(s@),
        Value::Number(n) => ValueView::Number(n@),
        Value::Bool(b) => ValueView::Bool(b),
        Value::List(items) => ValueView::List(
            Seq::new(
                items.len() as nat,
                |i: int|
                    if 0 <= i < items.len() {
                        value_view(items[i])
                    } else {
                        ValueView::Nil
                    },
            ),
        ),
        Value::Dict(pairs) => ValueView::Dict(
            Seq::new(
                pairs.len() as nat,
                |i: int|
                    if 0 <= i < pairs.len() {
                        (value_view(pairs[i].0), value_view(pairs[i].1))
                    } else {
                        (ValueView::Nil, ValueView::Nil)
                    },
            ),
        ),
        Value::Nil => ValueView::Nil,
    }
}

impl View for Value {
    type V = ValueView;

    open spec fn view(&self) -> ValueView {
        value_view(*self)
    }
}

/// The views of a sequence of values, in order.
pub open spec fn values_view(items: Seq<Value>) -> Seq<ValueView> {
    Seq::new(items.len(), |i: int| items[i]@)
}

/// The views of a sequence of pairs, in order.
pub open spec fn pairs_view(pairs: Seq<(Value, Value)>) -> Seq<(ValueView, ValueView)> {
    Seq::new(pairs.len(), |i: int| (pairs[i].0@, pairs[i].1@))
}

/// A list's view is the list of its items' views.
pub proof fn lemma_list_view(items: Vec<Value>)
    ensures
        Value::List(items)@ == ValueView::List(values_view(items@)),
{
    assert(Value::List(items)@->List_0 =~= values_view(items@));
}

/// A dictionary's view is the list of its pairs' views.
pub proof fn lemma_dict_view(pairs: Vec<(Value, Value)>)
    ensures
        Value::Dict(pairs)@ == ValueView::Dict(pairs_view(pairs@)),
{
    assert(Value::Dict(pairs)@->Dict_0 =~= pairs_view(pairs@));
}

/// The view of a result that holds a value.
pub open spec fn result_view(r: Result<Value, Error>) -> Result<ValueView, ErrorView> {
    match r {
        Ok(v) => Ok(v@),
        Err(e) => Err(e@),
    }
}

/// Equality of values: structural, but numbers are equal by value, so that
/// `1.0` equals `1.00`.
pub open spec fn value_eq(a: ValueView, b: ValueView) -> bool
    decreases a,
{
    match (a, b) {
        (ValueView::String(x), ValueView::String(y)) => x == y,
        (ValueView::Number(x), ValueView::Number(y)) => dec_eq(x, y),
        (ValueView::Bool(x), ValueView::Bool(y)) => x == y,
        (ValueView::List(x), ValueView::List(y)) => {
            &&& x.len() == y.len()
            &&& forall|i: int| 0 <= i < x.len() ==> value_eq(#[trigger] x[i], y[i])
        },
        (ValueView::Dict(x), ValueView::Dict(y)) => {
            &&& x.len() == y.len()
            &&& forall|i: int|
                0 <= i < x.len() ==> value_eq((#[trigger] x[i]).0, y[i].0) && value_eq(
                    x[i].1,
                    y[i].1,
                )
        },
        (ValueView::Nil, ValueView::Nil) => true,
        _ => false,
    }
}

impl Value {
    /// A copy of this value.
    #[verifier::loop_isolation(false)]
    pub fn duplicate(&self) -> (r: Value)
        ensures
            r@ == self@,
        decreases self,
    {
        match self {
            Value::String(s) => Value::String(s.clone()),
            Value::Number(n) => Value::Number(*n),
            Value::Bool(b) => Value::Bool(*b),
            Value::List(items) => {
                let mut out: Vec<Value> = Vec::new();
                let mut i: usize = 0;
                while i < items.len()
                    invariant
                        i <= items.len(),
                        out@.len() == i,
                        forall|k: int| 0 <= k < i ==> out@[k]@ == items@[k]@,
                    decreases items.len() - i,
                {
                    out.push(items[i].duplicate());
                    i += 1;
                }
                proof {
                    lemma_list_view(out);
                    lemma_list_view(*items);
                    assert(values_view(out@) =~= values_view(items@));
                }
                Value::List(out)
            },
            Value::Dict(pairs) => {
                let mut out: Vec<(Value, Value)> = Vec::new();
                let mut i: usize = 0;
                while i < pairs.len()
                    invariant
                        i <= pairs.len(),
                        out@.len() == i,
                        forall|k: int|
                            0 <= k < i ==> out@[k].0@ == pairs@[k].0@ && out@[k].1@
                                == pairs@[k].1@,
                    decreases pairs.len() - i,
                {
                    let key = pairs[i].0.duplicate();
                    let value = pairs[i].1.duplicate();
                    out.push((key, value));
                    i += 1;
                }
                proof {
                    lemma_dict_view(out);
                    lemma_dict_view(*pairs);
                    assert(pairs_view(out@) =~= pairs_view(pairs@));
                }
                Value::Dict(out)
            },
            Value::Nil => Value::Nil,
        }
    }

    /// Whether two values are equal; numbers are compared by value.
    #[verifier::loop_isolation(false)]
    pub fn equals(&self, other: &Value) -> (r: bool)
        ensures
            r == value_eq(self@, other@),
        decreases self,
    {
        match (self, other) {
            (Value::String(x), Value::String(y)) => *x == *y,
            (Value::Number(x), Value::Number(y)) => x.equals(y),
            (Value::Bool(x), Value::Bool(y)) => *x == *y,
            (Value::List(x), Value::List(y)) => {
                proof {
                    lemma_list_view(*x);
                    lemma_list_view(*y);
                }
                if x.len() != y.len() {
                    return false;
                }
                let mut i: usize = 0;
                while i < x.len()
                    invariant
                        i <= x.len(),
                        x.len() == y.len(),
                        forall|k: int| 0 <= k < i ==> value_eq(x@[k]@, y@[k]@),
                    decreases x.len() - i,
                {
                    if !x[i].equals(&y[i]) {
                        proof {
                            let a = values_view(x@);
                            let b = values_view(y@);
                            assert(!value_eq(a[i as int], b[i as int]));
                            assert(self@ == ValueView::List(a));
                            assert(other@ == ValueView::List(b));
                        }
                        return false;
                    }
                    i += 1;
                }
                true
            },
            (Value::Dict(x), Value::Dict(y)) => {
                proof {
                    lemma_dict_view(*x);
                    lemma_dict_view(*y);
                }
                if x.len() != y.len() {
                    return false;
                }
                let mut i: usize = 0;
                while i < x.len()
                    invariant
                        i <= x.len(),
                        x.len() == y.len(),
                        forall|k: int|
                            0 <= k < i ==> value_eq(x@[k].0@, y@[k].0@) && value_eq(
                                x@[k].1@,
                                y@[k].1@,
                            ),
                    decreases x.len() - i,
                {
                    if !x[i].0.equals(&y[i].0) || !x[i].1.equals(&y[i].1) {
                        proof {
                            let a = pairs_view(x@);
                            let b = pairs_view(y@);
                            assert(!(value_eq(a[i as int].0, b[i as int].0) && value_eq(
                                a[i as int].1,
                                b[i as int].1,
                            )));
                            assert(self@ == ValueView::Dict(a));
                            assert(other@ == ValueView::Dict(b));
                        }
                        return false;
                    }
                    i += 1;
                }
                true
            },
            (Value::Nil, Value::Nil) => true,
            _ => false,
        }
    }

    /// The number in this value.
    pub fn decimal(self) -> (r: Result<Number, Error>)
        ensures
            match self@ {
                ValueView::Number(d) => r matches Ok(n) && n@ == d,
                _ => r matches Err(e) && e@ == ErrorView::ShouldBeNumber,
            },
    {
        match self {
            Value::Number(val) => Ok(val),
            _ => Err(Error::ShouldBeNumber()),
        }
    }

    /// The text in this value.
    pub fn string(self) -> (r: Result<String, Error>)
        ensures
            match self@ {
                ValueView::String(t) => r matches Ok(s) && s@ == t,
                _ => r matches Err(e) && e@ == ErrorView::ShouldBeString,
            },
    {
        match self {
            Value::String(val) => Ok(val),
            _ => Err(Error::ShouldBeString()),
        }
    }

    /// The truth value in this value.
    pub fn bool(self) -> (r: Result<bool, Error>)
        ensures
            match self@ {
                ValueView::Bool(b) => r matches Ok(x) && x == b,
                _ => r matches Err(e) && e@ == ErrorView::ShouldBeBool,
            },
    {
        match self {
            Value::Bool(val) => Ok(val),
            _ => Err(Error::ShouldBeBool()),
        }
    }

    /// The integer in this value: a number written without a fraction that
    /// fits in 64 bits.
    pub fn integer(self) -> (r: Result<i64, Error>)
        ensures
            match self@ {
                ValueView::Number(d) => match dec_to_i64(d) {
                    Some(n) => r matches Ok(x) && x == n,
                    None => r matches Err(e) && e@ == ErrorView::InvalidInteger,
                },
                _ => r matches Err(e) && e@ == ErrorView::InvalidInteger,
            },
    {
        match self {
            Value::Number(val) => match val.to_i64() {
                Some(n) => Ok(n),
                None => Err(Error::InvalidInteger),
            },
            _ => Err(Error::InvalidInteger),
        }
    }

    /// The items of this list.
    pub fn list(self) -> (r: Result<Vec<Value>, Error>)
        ensures
            match self@ {
                ValueView::List(items) => r matches Ok(v) && values_view(v@) == items,
                _ => r matches Err(e) && e@ == ErrorView::ShouldBeList,
            },
    {
        match self {
            Value::List(list) => {
                proof {
                    lemma_list_view(list);
                }
                Ok(list)
            },
            _ => Err(Error::ShouldBeList()),
        }
    }
}

impl Clone for Value {
    fn clone(&self) -> (r: Value)
        ensures
            r@ == self@,
    {
        self.duplicate()
    }
}

impl PartialEq for Value {
    fn eq(&self, other: &Value) -> (r: bool) {
        self.equals(other)
    }
}

impl PartialEqSpecImpl for Value {
    open spec fn obeys_eq_spec() -> bool {
        true
    }

    open spec fn eq_spec(&self, other: &Value) -> bool {
        value_eq(self@, other@)
    }
}

impl From<&str> for Value {
    fn from(value: &str) -> (r: Value)
        ensures
            r@ == ValueView::String(value@),
    {
        Value::String(value.to_owned())
    }
}

impl FromSpecImpl<&str> for Value {
    open spec fn obeys_from_spec() -> bool {
        false
    }

    open spec fn from_spec(value: &str) -> Value {
        Value::Nil
    }
}

impl From<String> for Value {
    fn from(value: String) -> (r: Value) {
        Value::String(value)
    }
}

impl FromSpecImpl<String> for Value {
    open spec fn obeys_from_spec() -> bool {
        true
    }

    open spec fn from_spec(value: String) -> Value {
        Value::String(value)
    }
}

impl From<bool> for Value {
    fn from(value: bool) -> (r: Value) {
        Value::Bool(value)
    }
}

impl FromSpecImpl<bool> for Value {
    open spec fn obeys_from_spec() -> bool {
        true
    }

    open spec fn from_spec(value: bool) -> Value {
        Value::Bool(value)
    }
}

impl From<Vec<Value>> for Value {
    fn from(value: Vec<Value>) -> (r: Value) {
        Value::List(value)
    }
}

impl FromSpecImpl<Vec<Value>> for Value {
    open spec fn obeys_from_spec() -> bool {
        true
    }

    open spec fn from_spec(value: Vec<Value>) -> Value {
        Value::List(value)
    }
}

impl From<Number> for Value {
    fn from(value: Number) -> (r: Value) {
        Value::Number(value)
    }
}

impl FromSpecImpl<Number> for Value {
    open spec fn obeys_from_spec() -> bool {
        true
    }

    open spec fn from_spec(value: Number) -> Value {
        Value::Number(value)
    }
}

impl From<i64> for Value {
    fn from(value: i64) -> (r: Value)
        ensures
            r@ == ValueView::Number(dec_of_int(value as int)),
    {
        Value::Number(Number::from_i64(value))
    }
}

impl FromSpecImpl<i64> for Value {
    open spec fn obeys_from_spec() -> bool {
        false
    }

    open spec fn from_spec(value: i64) -> Value {
        Value::Nil
    }
}

impl From<i32> for Value {
    fn from(value: i32) -> (r: Value)
        ensures
            r@ == ValueView::Number(dec_of_int(value as int)),
    {
        Value::Number(Number::from_i64(value as i64))
    }
}

impl FromSpecImpl<i32> for Value {
    open spec fn obeys_from_spec() -> bool {
        false
    }

    open spec fn from_spec(value: i32) -> Value {
        Value::Nil
    }
}

impl From<u32> for Value {
    fn from(value: u32) -> (r: Value)
        ensures
            r@ == ValueView::Number(dec_of_int(value as int)),
    {
        Value::Number(Number::from_i64(value as i64))
    }
}

impl FromSpecImpl<u32> for Value {
    open spec fn obeys_from_spec() -> bool {
        false
    }

    open spec fn from_spec(value: u32) -> Value {
        Value::Nil
    }
}

} // verus!
