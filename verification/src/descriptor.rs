use vstd::prelude::*;
use vstd::string::StringExecFns;
use crate::ast::{
    ast_pairs_view, asts_view, lemma_chain_view, lemma_dict_ast_view, lemma_function_view,
    lemma_list_ast_view, AstView, ExprAST,
};
use crate::eval::{witness, witness_pair, witness_triple};
use crate::render::{joined, literal_text};
use crate::store::{texts, Slots};

verus! {

/// Describes a prefix operator applied to the description of its operand.
pub trait UnaryDescriptor: Send + Sync {
    fn describe(&self, op: String, rhs: String) -> String;
}

/// Describes an infix operator between the descriptions of its operands.
pub trait BinaryDescriptor: Send + Sync {
    fn describe(&self, op: String, lhs: String, rhs: String) -> String;
}

/// Describes a conditional expression from the descriptions of its parts.
pub trait TernaryDescriptor: Send + Sync {
    fn describe(&self, condition: String, lhs: String, rhs: String) -> String;
}

/// Describes a call from the descriptions of its arguments.
pub trait FunctionDescriptor: Send + Sync {
    fn describe(&self, name: String, params: Vec<String>) -> String;
}

/// Describes a reference.
pub trait ReferenceDescriptor: Send + Sync {
    fn describe(&self, name: String) -> String;
}

/// Describes a list from the descriptions of its items.
pub trait ListDescriptor: Send + Sync {
    fn describe(&self, params: Vec<String>) -> String;
}

/// Describes a dictionary from the descriptions of its keys and values.
pub trait MapDescriptor: Send + Sync {
    fn describe(&self, pairs: Vec<(String, String)>) -> String;
}

/// Describes a chain from the descriptions of its statements.
pub trait ChainDescriptor: Send + Sync {
    fn describe(&self, params: Vec<String>) -> String;
}

pub struct CustomUnaryDescriptor {
    pub handler: Box<dyn UnaryDescriptor>,
}

pub struct CustomBinaryDescriptor {
    pub handler: Box<dyn BinaryDescriptor>,
}

pub struct CustomTernaryDescriptor {
    pub handler: Box<dyn TernaryDescriptor>,
}

pub struct CustomFunctionDescriptor {
    pub handler: Box<dyn FunctionDescriptor>,
}

pub struct CustomReferenceDescriptor {
    pub handler: Box<dyn ReferenceDescriptor>,
}

pub struct CustomListDescriptor {
    pub handler: Box<dyn ListDescriptor>,
}

pub struct CustomMapDescriptor {
    pub handler: Box<dyn MapDescriptor>,
}

pub struct CustomChainDescriptor {
    pub handler: Box<dyn ChainDescriptor>,
}

impl CustomUnaryDescriptor {
    /// Keeps the host's handler as it is.
    pub(crate) fn new(handler: Box<dyn UnaryDescriptor>) -> (r: Self)
        ensures
            r == (CustomUnaryDescriptor { handler }),
    {
        CustomUnaryDescriptor { handler }
    }
}

impl CustomBinaryDescriptor {
    /// Keeps the host's handler as it is.
    pub(crate) fn new(handler: Box<dyn BinaryDescriptor>) -> (r: Self)
        ensures
            r == (CustomBinaryDescriptor { handler }),
    {
        CustomBinaryDescriptor { handler }
    }
}

impl CustomTernaryDescriptor {
    /// Keeps the host's handler as it is.
    pub(crate) fn new(handler: Box<dyn TernaryDescriptor>) -> (r: Self)
        ensures
            r == (CustomTernaryDescriptor { handler }),
    {
        CustomTernaryDescriptor { handler }
    }
}

impl CustomFunctionDescriptor {
    /// Keeps the host's handler as it is.
    pub(crate) fn new(handler: Box<dyn FunctionDescriptor>) -> (r: Self)
        ensures
            r == (CustomFunctionDescriptor { handler }),
    {
        CustomFunctionDescriptor { handler }
    }
}

impl CustomReferenceDescriptor {
    /// Keeps the host's handler as it is.
    pub(crate) fn new(handler: Box<dyn ReferenceDescriptor>) -> (r: Self)
        ensures
            r == (CustomReferenceDescriptor { handler }),
    {
        CustomReferenceDescriptor { handler }
    }
}

impl CustomListDescriptor {
    /// Keeps the host's handler as it is.
    pub(crate) fn new(handler: Box<dyn ListDescriptor>) -> (r: Self)
        ensures
            r == (CustomListDescriptor { handler }),
    {
        CustomListDescriptor { handler }
    }
}

impl CustomMapDescriptor {
    /// Keeps the host's handler as it is.
    pub(crate) fn new(handler: Box<dyn MapDescriptor>) -> (r: Self)
        ensures
            r == (CustomMapDescriptor { handler }),
    {
        CustomMapDescriptor { handler }
    }
}

impl CustomChainDescriptor {
    /// Keeps the host's handler as it is.
    pub(crate) fn new(handler: Box<dyn ChainDescriptor>) -> (r: Self)
        ensures
            r == (CustomChainDescriptor { handler }),
    {
        CustomChainDescriptor { handler }
    }
}

/// For which nodes a host has set a descriptor of its own: the operators,
/// functions and references by name, the other kinds as a whole.
pub struct DescriptorView {
    pub unary: Set<Seq<char>>,
    pub binary: Set<Seq<char>>,
    pub function: Set<Seq<char>>,
    pub reference: Set<Seq<char>>,
    pub ternary: bool,
    pub list: bool,
    pub map: bool,
    pub chain: bool,
}

/// The descriptors that hosts have set. A node for which none is set is
/// described in the default way.
pub struct DescriptorManager {
    unary: Slots<CustomUnaryDescriptor>,
    binary: Slots<CustomBinaryDescriptor>,
    function: Slots<CustomFunctionDescriptor>,
    reference: Slots<CustomReferenceDescriptor>,
    ternary: Option<CustomTernaryDescriptor>,
    list: Option<CustomListDescriptor>,
    map: Option<CustomMapDescriptor>,
    chain: Option<CustomChainDescriptor>,
}

impl DescriptorManager {
    pub closed spec fn view(&self) -> DescriptorView {
        DescriptorView {
            unary: self.unary.names(),
            binary: self.binary.names(),
            function: self.function.names(),
            reference: self.reference.names(),
            ternary: self.ternary is Some,
            list: self.list is Some,
            map: self.map is Some,
            chain: self.chain is Some,
        }
    }

    /// A manager in which no descriptor is set.
    pub fn new() -> (r: Self)
        ensures
            r@ == (DescriptorView {
                unary: Set::empty(),
                binary: Set::empty(),
                function: Set::empty(),
                reference: Set::empty(),
                ternary: false,
                list: false,
                map: false,
                chain: false,
            }),
    {
        DescriptorManager {
            unary: Slots::new(),
            binary: Slots::new(),
            function: Slots::new(),
            reference: Slots::new(),
            ternary: None,
            list: None,
            map: None,
            chain: None,
        }
    }

    pub fn set_unary_descriptor(&mut self, op: String, descriptor: Box<dyn UnaryDescriptor>)
        ensures
            final(self)@ == (DescriptorView { unary: old(self)@.unary.insert(op@), ..old(self)@ }),
    {
        self.unary.put(op.as_str(), CustomUnaryDescriptor::new(descriptor));
    }

    /// The descriptor set for the prefix operator `op`, if one is set.
    pub fn get_unary_descriptor(&self, op: String) -> (r: Option<&CustomUnaryDescriptor>)
        ensures
            r is Some <==> self@.unary.contains(op@),
    {
        self.unary.find(op.as_str())
    }

    pub fn set_binary_descriptor(&mut self, op: String, descriptor: Box<dyn BinaryDescriptor>)
        ensures
            final(self)@ == (DescriptorView {
                binary: old(self)@.binary.insert(op@),
                ..old(self)@
            }),
    {
        self.binary.put(op.as_str(), CustomBinaryDescriptor::new(descriptor));
    }

    /// The descriptor set for the infix operator `op`, if one is set.
    pub fn get_binary_descriptor(&self, op: String) -> (r: Option<&CustomBinaryDescriptor>)
        ensures
            r is Some <==> self@.binary.contains(op@),
    {
        self.binary.find(op.as_str())
    }

    pub fn set_ternary_descriptor(&mut self, descriptor: Box<dyn TernaryDescriptor>)
        ensures
            final(self)@ == (DescriptorView { ternary: true, ..old(self)@ }),
    {
        self.ternary = Some(CustomTernaryDescriptor::new(descriptor));
    }

    /// The descriptor set for conditional expressions, if one is set.
    pub fn get_ternary_descriptor(&self) -> (r: Option<&CustomTernaryDescriptor>)
        ensures
            r is Some <==> self@.ternary,
    {
        self.ternary.as_ref()
    }

    pub fn set_function_descriptor(
        &mut self,
        name: String,
        descriptor: Box<dyn FunctionDescriptor>,
    )
        ensures
            final(self)@ == (DescriptorView {
                function: old(self)@.function.insert(name@),
                ..old(self)@
            }),
    {
        self.function.put(name.as_str(), CustomFunctionDescriptor::new(descriptor));
    }

    /// The descriptor set for calls of `name`, if one is set.
    pub fn get_function_descriptor(&self, name: String) -> (r: Option<&CustomFunctionDescriptor>)
        ensures
            r is Some <==> self@.function.contains(name@),
    {
        self.function.find(name.as_str())
    }

    pub fn set_reference_descriptor(
        &mut self,
        name: String,
        descriptor: Box<dyn ReferenceDescriptor>,
    )
        ensures
            final(self)@ == (DescriptorView {
                reference: old(self)@.reference.insert(name@),
                ..old(self)@
            }),
    {
        self.reference.put(name.as_str(), CustomReferenceDescriptor::new(descriptor));
    }

    /// The descriptor set for the reference `name`, if one is set.
    pub fn get_reference_descriptor(&self, name: String) -> (r: Option<
        &CustomReferenceDescriptor,
    >)
        ensures
            r is Some <==> self@.reference.contains(name@),
    {
        self.reference.find(name.as_str())
    }

    pub fn set_list_descriptor(&mut self, descriptor: Box<dyn ListDescriptor>)
        ensures
            final(self)@ == (DescriptorView { list: true, ..old(self)@ }),
    {
        self.list = Some(CustomListDescriptor::new(descriptor));
    }

    /// The descriptor set for lists, if one is set.
    pub fn get_list_descriptor(&self) -> (r: Option<&CustomListDescriptor>)
        ensures
            r is Some <==> self@.list,
    {
        self.list.as_ref()
    }

    pub fn set_map_descriptor(&mut self, descriptor: Box<dyn MapDescriptor>)
        ensures
            final(self)@ == (DescriptorView { map: true, ..old(self)@ }),
    {
        self.map = Some(CustomMapDescriptor::new(descriptor));
    }

    /// The descriptor set for dictionaries, if one is set.
    pub fn get_map_descriptor(&self) -> (r: Option<&CustomMapDescriptor>)
        ensures
            r is Some <==> self@.map,
    {
        self.map.as_ref()
    }

    pub fn set_chain_descriptor(&mut self, descriptor: Box<dyn ChainDescriptor>)
        ensures
            final(self)@ == (DescriptorView { chain: true, ..old(self)@ }),
    {
        self.chain = Some(CustomChainDescriptor::new(descriptor));
    }

    /// The descriptor set for chains, if one is set.
    pub fn get_chain_descriptor(&self) -> (r: Option<&CustomChainDescriptor>)
        ensures
            r is Some <==> self@.chain,
    {
        self.chain.as_ref()
    }
}

/// The texts of a sequence of pairs of texts.
pub open spec fn text_pairs(pairs: Seq<(String, String)>) -> Seq<(Seq<char>, Seq<char>)> {
    Seq::new(pairs.len(), |i: int| (pairs[i].0@, pairs[i].1@))
}

/// Each pair as key, colon, value.
pub open spec fn pair_lines(pairs: Seq<(Seq<char>, Seq<char>)>) -> Seq<Seq<char>> {
    Seq::new(pairs.len(), |i: int| pairs[i].0 + ":"@ + pairs[i].1)
}

pub open spec fn default_unary(op: Seq<char>, rhs: Seq<char>) -> Seq<char> {
    op + rhs
}

pub open spec fn default_binary(op: Seq<char>, lhs: Seq<char>, rhs: Seq<char>) -> Seq<char> {
    lhs + op + rhs
}

pub open spec fn default_postfix(lhs: Seq<char>, op: Seq<char>) -> Seq<char> {
    lhs + op
}

pub open spec fn default_ternary(condition: Seq<char>, lhs: Seq<char>, rhs: Seq<char>) -> Seq<
    char,
> {
    condition + "?"@ + lhs + ":"@ + rhs
}

pub open spec fn default_function(name: Seq<char>, params: Seq<Seq<char>>) -> Seq<char> {
    name + "("@ + joined(params, ","@) + ")"@
}

pub open spec fn default_list(params: Seq<Seq<char>>) -> Seq<char> {
    "["@ + joined(params, ","@) + "]"@
}

pub open spec fn default_map(pairs: Seq<(Seq<char>, Seq<char>)>) -> Seq<char> {
    "{"@ + joined(pair_lines(pairs), ","@) + "}"@
}

pub open spec fn default_chain(params: Seq<Seq<char>>) -> Seq<char> {
    joined(params, ";"@)
}

/// Whether `text` may be the description of `a` under the descriptors `d`.
/// A node is described from the descriptions of its children: in the
/// default way where no descriptor is set for it; of what a host's
/// descriptor returns nothing is known. A literal is described by its text,
/// a postfix operator always in the default way.
pub open spec fn describes(a: AstView, d: DescriptorView, text: Seq<char>) -> bool
    decreases a,
{
    match a {
        AstView::Literal(l) => text == literal_text(l),
        AstView::Unary(op, rhs) => exists|t: Seq<char>| #[trigger]
            witness(t) && describes(*rhs, d, t) && (d.unary.contains(op) || text == default_unary(
                op,
                t,
            )),
        AstView::Binary(op, lhs, rhs) => exists|l: Seq<char>, r: Seq<char>| #[trigger]
            witness_pair(l, r) && describes(*lhs, d, l) && describes(*rhs, d, r) && (
            d.binary.contains(op) || text == default_binary(op, l, r)),
        AstView::Postfix(lhs, op) => exists|t: Seq<char>| #[trigger]
            witness(t) && describes(*lhs, d, t) && text == default_postfix(t, op),
        AstView::Ternary(condition, lhs, rhs) => exists|
            c: Seq<char>,
            l: Seq<char>,
            r: Seq<char>,
        | #[trigger]
            witness_triple(c, l, r) && describes(*condition, d, c) && describes(*lhs, d, l)
                && describes(*rhs, d, r) && (d.ternary || text == default_ternary(c, l, r)),
        AstView::Reference(name) => d.reference.contains(name) || text == name,
        AstView::Function(name, args) => exists|ts: Seq<Seq<char>>| #[trigger]
            witness(ts) && describes_each(args, d, ts) && (d.function.contains(name) || text
                == default_function(name, ts)),
        AstView::List(items) => exists|ts: Seq<Seq<char>>| #[trigger]
            witness(ts) && describes_each(items, d, ts) && (d.list || text == default_list(ts)),
        AstView::Dict(pairs) => exists|ts: Seq<(Seq<char>, Seq<char>)>| #[trigger]
            witness(ts) && describes_pairs(pairs, d, ts) && (d.map || text == default_map(ts)),
        AstView::Chain(items) => exists|ts: Seq<Seq<char>>| #[trigger]
            witness(ts) && describes_each(items, d, ts) && (d.chain || text == default_chain(ts)),
        AstView::Nil => text == Seq::<char>::empty(),
    }
}

/// Whether the texts `ts` may be the descriptions of `items`, one for one.
pub open spec fn describes_each(items: Seq<AstView>, d: DescriptorView, ts: Seq<Seq<char>>) -> bool
    decreases items,
{
    &&& ts.len() == items.len()
    &&& forall|i: int| 0 <= i < items.len() ==> describes(items[i], d, #[trigger] ts[i])
}

/// Whether the pairs of texts `ts` may be the descriptions of the keys and
/// values of `pairs`, one for one.
pub open spec fn describes_pairs(
    pairs: Seq<(AstView, AstView)>,
    d: DescriptorView,
    ts: Seq<(Seq<char>, Seq<char>)>,
) -> bool
    decreases pairs,
{
    &&& ts.len() == pairs.len()
    &&& forall|i: int|
        0 <= i < pairs.len() ==> describes(pairs[i].0, d, (#[trigger] ts[i]).0) && describes(
            pairs[i].1,
            d,
            ts[i].1,
        )
}

/// The texts `parts`, each after the first preceded by `sep`.
pub fn join(parts: &Vec<String>, sep: &str) -> (r: String)
    ensures
        r@ == joined(texts(parts@), sep@),
{
    let ghost all = texts(parts@);
    let mut s = String::new();
    let mut i: usize = 0;
    assert(all.take(0) =~= Seq::<Seq<char>>::empty());
    while i < parts.len()
        invariant
            i <= parts.len(),
            all == texts(parts@),
            s@ == joined(all.take(i as int), sep@),
        decreases parts.len() - i,
    {
        let ghost before = s@;
        proof {
            assert(all.take(i as int + 1).drop_last() =~= all.take(i as int));
            assert(all.take(i as int + 1).last() == parts@[i as int]@);
        }
        if i > 0 {
            s.append(sep);
        }
        s.append(parts[i].as_str());
        proof {
            if i == 0 {
                assert(before =~= Seq::<char>::empty());
                assert(s@ =~= parts@[0]@);
            }
        }
        i += 1;
    }
    assert(all.take(i as int) =~= all);
    s
}

/// The default description of a prefix operator: the operator, then its
/// operand.
pub fn default_unary_descriptor(op: String, rhs: String) -> (r: String)
    ensures
        r@ == default_unary(op@, rhs@),
{
    let mut s = op;
    s.append(rhs.as_str());
    s
}

/// The default description of an infix operator: it stands between its
/// operands.
pub fn default_binary_descriptor(op: String, lhs: String, rhs: String) -> (r: String)
    ensures
        r@ == default_binary(op@, lhs@, rhs@),
{
    let mut s = lhs;
    s.append(op.as_str());
    s.append(rhs.as_str());
    s
}

/// The default description of a conditional expression.
pub fn default_ternary_descriptor(condition: String, lhs: String, rhs: String) -> (r: String)
    ensures
        r@ == default_ternary(condition@, lhs@, rhs@),
{
    let mut s = condition;
    s.append("?");
    s.append(lhs.as_str());
    s.append(":");
    s.append(rhs.as_str());
    s
}

/// The default description of a call: the name, and the arguments in
/// parentheses with commas between them.
pub fn default_function_descriptor(name: String, params: Vec<String>) -> (r: String)
    ensures
        r@ == default_function(name@, texts(params@)),
{
    let mut s = name;
    s.append("(");
    let inner = join(&params, ",");
    s.append(inner.as_str());
    s.append(")");
    s
}

/// The default description of a reference: its name.
pub fn default_reference_descriptor(name: String) -> (r: String)
    ensures
        r@ == name@,
{
    name
}

/// The default description of a list: the items in square brackets with
/// commas between them.
pub fn default_list_descriptor(params: Vec<String>) -> (r: String)
    ensures
        r@ == default_list(texts(params@)),
{
    let mut s = String::from_str("[");
    let inner = join(&params, ",");
    s.append(inner.as_str());
    s.append("]");
    s
}

/// The default description of a dictionary: the pairs in braces, in their
/// order, with commas between them.
pub fn default_map_descriptor(m: Vec<(String, String)>) -> (r: String)
    ensures
        r@ == default_map(text_pairs(m@)),
{
    let mut s = String::from_str("{");
    let lines = lines_of(&m);
    let inner = join(&lines, ",");
    s.append(inner.as_str());
    s.append("}");
    s
}

/// The default description of a chain: the statements with semicolons
/// between them.
pub fn default_chain_descriptor(params: Vec<String>) -> (r: String)
    ensures
        r@ == default_chain(texts(params@)),
{
    join(&params, ";")
}

#[verifier::loop_isolation(false)]
fn describe_each(items: &Vec<ExprAST>, descriptors: &DescriptorManager) -> (r: Vec<String>)
    ensures
        describes_each(asts_view(items@), descriptors@, texts(r@)),
    decreases items,
{
    let mut out: Vec<String> = Vec::new();
    let mut i: usize = 0;
    while i < items.len()
        invariant
            i <= items.len(),
            out@.len() == i,
            forall|k: int| 0 <= k < i ==> describes(items@[k]@, descriptors@, out@[k]@),
        decreases items.len() - i,
    {
        out.push(items[i].describe(descriptors));
        i += 1;
    }
    out
}

#[verifier::loop_isolation(false)]
fn describe_pairs(pairs: &Vec<(ExprAST, ExprAST)>, descriptors: &DescriptorManager) -> (r: Vec<
    (String, String),
>)
    ensures
        describes_pairs(ast_pairs_view(pairs@), descriptors@, text_pairs(r@)),
    decreases pairs,
{
    let mut out: Vec<(String, String)> = Vec::new();
    let mut i: usize = 0;
    while i < pairs.len()
        invariant
            i <= pairs.len(),
            out@.len() == i,
            forall|k: int|
                0 <= k < i ==> describes(pairs@[k].0@, descriptors@, out@[k].0@) && describes(
                    pairs@[k].1@,
                    descriptors@,
                    out@[k].1@,
                ),
        decreases pairs.len() - i,
    {
        let key = pairs[i].0.describe(descriptors);
        let value = pairs[i].1.describe(descriptors);
        out.push((key, value));
        i += 1;
    }
    out
}

/// Each pair as key, colon, value.
fn lines_of(pairs: &Vec<(String, String)>) -> (r: Vec<String>)
    ensures
        texts(r@) == pair_lines(text_pairs(pairs@)),
{
    let mut out: Vec<String> = Vec::new();
    let mut i: usize = 0;
    while i < pairs.len()
        invariant
            i <= pairs.len(),
            out@.len() == i,
            forall|k: int| 0 <= k < i ==> out@[k]@ == pairs@[k].0@ + ":"@ + pairs@[k].1@,
        decreases pairs.len() - i,
    {
        let mut line = pairs[i].0.clone();
        line.append(":");
        line.append(pairs[i].1.as_str());
        out.push(line);
        i += 1;
    }
    assert(texts(out@) =~= pair_lines(text_pairs(pairs@)));
    out
}

impl ExprAST {
    /// A description of this expression, built from the descriptions of its
    /// children by the descriptors of `descriptors`.
    pub fn describe(&self, descriptors: &DescriptorManager) -> (r: String)
        ensures
            describes(self@, descriptors@, r@),
        decreases self,
    {
        match self {
            ExprAST::Literal(value) => match value {
                crate::ast::Literal::Number(n) => n.to_text(),
                crate::ast::Literal::Bool(b) => if *b {
                    String::from_str("true")
                } else {
                    String::from_str("false")
                },
                crate::ast::Literal::String(t) => {
                    let mut s = String::from_str("\"");
                    s.append(t.as_str());
                    s.append("\"");
                    s
                },
            },
            ExprAST::Unary(op, rhs) => {
                let t = rhs.describe(descriptors);
                assert(witness(t@));
                match descriptors.get_unary_descriptor(op.clone()) {
                    Some(d) => d.handler.describe(op.clone(), t),
                    None => default_unary_descriptor(op.clone(), t),
                }
            },
            ExprAST::Binary(op, lhs, rhs) => {
                let l = lhs.describe(descriptors);
                let r = rhs.describe(descriptors);
                assert(witness_pair(l@, r@));
                match descriptors.get_binary_descriptor(op.clone()) {
                    Some(d) => d.handler.describe(op.clone(), l, r),
                    None => default_binary_descriptor(op.clone(), l, r),
                }
            },
            ExprAST::Postfix(lhs, op) => {
                let mut s = lhs.describe(descriptors);
                assert(witness(s@));
                s.append(op.as_str());
                s
            },
            ExprAST::List(values) => {
                proof {
                    lemma_list_ast_view(*values);
                }
                let ts = describe_each(values, descriptors);
                assert(witness(texts(ts@)));
                match descriptors.get_list_descriptor() {
                    Some(d) => d.handler.describe(ts),
                    None => default_list_descriptor(ts),
                }
            },
            ExprAST::Dict(values) => {
                proof {
                    lemma_dict_ast_view(*values);
                }
                let ts = describe_pairs(values, descriptors);
                assert(witness(text_pairs(ts@)));
                match descriptors.get_map_descriptor() {
                    Some(d) => d.handler.describe(ts),
                    None => default_map_descriptor(ts),
                }
            },
            ExprAST::Function(name, values) => {
                proof {
                    lemma_function_view(*name, *values);
                }
                let ts = describe_each(values, descriptors);
                assert(witness(texts(ts@)));
                match descriptors.get_function_descriptor(name.clone()) {
                    Some(d) => d.handler.describe(name.clone(), ts),
                    None => default_function_descriptor(name.clone(), ts),
                }
            },
            ExprAST::Reference(name) => match descriptors.get_reference_descriptor(
                name.clone(),
            ) {
                Some(d) => d.handler.describe(name.clone()),
                None => default_reference_descriptor(name.clone()),
            },
            ExprAST::Chain(values) => {
                proof {
                    lemma_chain_view(*values);
                }
                let ts = describe_each(values, descriptors);
                assert(witness(texts(ts@)));
                match descriptors.get_chain_descriptor() {
                    Some(d) => d.handler.describe(ts),
                    None => default_chain_descriptor(ts),
                }
            },
            ExprAST::Ternary(condition, lhs, rhs) => {
                let c = condition.describe(descriptors);
                let l = lhs.describe(descriptors);
                let r = rhs.describe(descriptors);
                assert(witness_triple(c@, l@, r@));
                match descriptors.get_ternary_descriptor() {
                    Some(d) => d.handler.describe(c, l, r),
                    None => default_ternary_descriptor(c, l, r),
                }
            },
            ExprAST::Nil => String::new(),
        }
    }
}

} // verus!
