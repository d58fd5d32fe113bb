use vstd::prelude::*;
use vstd::string::StringExecFns;
use crate::builtin::{
    binary_apply, binary_result, postfix_apply, postfix_result, unary_apply, unary_result,
    ArithOp, BinaryOpKind, BitOp, CompareOp, PostfixOpKind, UnaryOpKind,
};
use crate::error::{Error, ErrorView};
use crate::store::Store;
use crate::value::{result_view, Value, ValueView};

verus! {

/// A handler that a host supplies for an infix operator.
pub trait BinaryOpFunc: Send + Sync {
    fn call(&self, left: Value, right: Value) -> Result<Value, Error>;
}

/// A handler that a host supplies for a prefix or a postfix operator.
pub trait UnaryOpFunc: Send + Sync {
    fn call(&self, value: Value) -> Result<Value, Error>;
}

/// Whether an infix operator only computes, or also writes its result to the
/// variable on its left.
#[derive(Debug, Clone, Copy, PartialEq, Eq, Structural)]
pub enum BinaryOpType {
    CALC,
    SETTER,
}

#[derive(Debug, Clone, Copy, PartialEq, Eq, Structural)]
pub enum BinaryOpAssociativity {
    LEFT,
    RIGHT,
}

/// What an infix operator runs: a built-in computation, or the host's
/// handler at the given place among those registered.
#[derive(Debug, Clone, Copy, PartialEq, Eq, Structural)]
pub enum BinaryOpHandler {
    Builtin(BinaryOpKind),
    Custom(usize),
}

/// What a prefix operator runs.
#[derive(Debug, Clone, Copy, PartialEq, Eq, Structural)]
pub enum UnaryOpHandler {
    Builtin(UnaryOpKind),
    Custom(usize),
}

/// What a postfix operator runs.
#[derive(Debug, Clone, Copy, PartialEq, Eq, Structural)]
pub enum PostfixOpHandler {
    Builtin(PostfixOpKind),
    Custom(usize),
}

/// An infix operator's precedence, class, associativity and handler.
#[derive(Debug, Clone, Copy, PartialEq, Eq, Structural)]
pub struct BinaryOpConfig(
    pub i32,
    pub BinaryOpType,
    pub BinaryOpAssociativity,
    pub BinaryOpHandler,
);

/// What may come back from an infix handler: a built-in handler returns
/// what its kind computes; of a host's handler nothing is known.
pub open spec fn binary_outcome(
    handler: BinaryOpHandler,
    l: ValueView,
    r: ValueView,
    res: Result<ValueView, ErrorView>,
) -> bool {
    match handler {
        BinaryOpHandler::Builtin(kind) => res == binary_result(kind, l, r),
        BinaryOpHandler::Custom(_) => true,
    }
}

/// What may come back from a prefix handler.
pub open spec fn unary_outcome(
    handler: UnaryOpHandler,
    v: ValueView,
    res: Result<ValueView, ErrorView>,
) -> bool {
    match handler {
        UnaryOpHandler::Builtin(kind) => res == unary_result(kind, v),
        UnaryOpHandler::Custom(_) => true,
    }
}

/// What may come back from a postfix handler.
pub open spec fn postfix_outcome(
    handler: PostfixOpHandler,
    v: ValueView,
    res: Result<ValueView, ErrorView>,
) -> bool {
    match handler {
        PostfixOpHandler::Builtin(kind) => res == postfix_result(kind, v),
        PostfixOpHandler::Custom(_) => true,
    }
}

/// The left and right binding powers of an infix operator: the precedence,
/// and one more for a left-associative operator, one less for a
/// right-associative one. A name that is no infix operator has -1 for both.
pub open spec fn binding_powers(table: Map<Seq<char>, BinaryOpConfig>, op: Seq<char>) -> (
    int,
    int,
) {
    if table.contains_key(op) {
        let config = table[op];
        (
            config.0 as int,
            if config.2 == BinaryOpAssociativity::LEFT {
                config.0 + 1
            } else {
                config.0 - 1
            },
        )
    } else {
        (-1, -1)
    }
}

pub open spec fn setter(kind: BinaryOpKind) -> BinaryOpConfig {
    BinaryOpConfig(
        20,
        BinaryOpType::SETTER,
        BinaryOpAssociativity::RIGHT,
        BinaryOpHandler::Builtin(kind),
    )
}

pub open spec fn calc(precedence: i32, kind: BinaryOpKind) -> BinaryOpConfig {
    BinaryOpConfig(
        precedence,
        BinaryOpType::CALC,
        BinaryOpAssociativity::LEFT,
        BinaryOpHandler::Builtin(kind),
    )
}

/// The table `m` with the built-in assignment operators added.
pub open spec fn with_builtin_setters(m: Map<Seq<char>, BinaryOpConfig>) -> Map<
    Seq<char>,
    BinaryOpConfig,
> {
    m.insert("="@, setter(BinaryOpKind::Replace)).insert(
        "+="@,
        setter(BinaryOpKind::Arith(ArithOp::Add)),
    ).insert("-="@, setter(BinaryOpKind::Arith(ArithOp::Sub))).insert(
        "*="@,
        setter(BinaryOpKind::Arith(ArithOp::Mul)),
    ).insert("/="@, setter(BinaryOpKind::Arith(ArithOp::Div))).insert(
        "%="@,
        setter(BinaryOpKind::Arith(ArithOp::Rem)),
    ).insert("<<="@, setter(BinaryOpKind::Bits(BitOp::Shl))).insert(
        ">>="@,
        setter(BinaryOpKind::Bits(BitOp::Shr)),
    ).insert("&="@, setter(BinaryOpKind::Bits(BitOp::And))).insert(
        "^="@,
        setter(BinaryOpKind::Bits(BitOp::Xor)),
    ).insert("|="@, setter(BinaryOpKind::Bits(BitOp::Or)))
}

/// The table `m` with the built-in boolean, comparison and bitwise operators
/// added.
pub open spec fn with_builtin_logic(m: Map<Seq<char>, BinaryOpConfig>) -> Map<
    Seq<char>,
    BinaryOpConfig,
> {
    m.insert("||"@, calc(40, BinaryOpKind::Or)).insert("&&"@, calc(50, BinaryOpKind::And)).insert(
        "<"@,
        calc(60, BinaryOpKind::Compare(CompareOp::Less)),
    ).insert("<="@, calc(60, BinaryOpKind::Compare(CompareOp::LessEq))).insert(
        ">"@,
        calc(60, BinaryOpKind::Compare(CompareOp::Greater)),
    ).insert(">="@, calc(60, BinaryOpKind::Compare(CompareOp::GreaterEq))).insert(
        "=="@,
        calc(60, BinaryOpKind::Equal),
    ).insert("!="@, calc(60, BinaryOpKind::NotEqual)).insert(
        "|"@,
        calc(70, BinaryOpKind::Bits(BitOp::Or)),
    ).insert("^"@, calc(80, BinaryOpKind::Bits(BitOp::Xor))).insert(
        "&"@,
        calc(90, BinaryOpKind::Bits(BitOp::And)),
    ).insert("<<"@, calc(100, BinaryOpKind::Bits(BitOp::Shl))).insert(
        ">>"@,
        calc(100, BinaryOpKind::Bits(BitOp::Shr)),
    )
}

/// The table `m` with the built-in arithmetic, text and membership operators
/// added.
pub open spec fn with_builtin_arith(m: Map<Seq<char>, BinaryOpConfig>) -> Map<
    Seq<char>,
    BinaryOpConfig,
> {
    m.insert("+"@, calc(110, BinaryOpKind::Arith(ArithOp::Add))).insert(
        "-"@,
        calc(110, BinaryOpKind::Arith(ArithOp::Sub)),
    ).insert("*"@, calc(120, BinaryOpKind::Arith(ArithOp::Mul))).insert(
        "/"@,
        calc(120, BinaryOpKind::Arith(ArithOp::Div)),
    ).insert("%"@, calc(120, BinaryOpKind::Arith(ArithOp::Rem))).insert(
        "beginWith"@,
        calc(200, BinaryOpKind::BeginWith),
    ).insert("endWith"@, calc(200, BinaryOpKind::EndWith)).insert(
        "in"@,
        calc(200, BinaryOpKind::In),
    )
}

/// The table `m` with every built-in infix operator added, each in place of
/// what `m` had under its name.
pub open spec fn with_builtin_infix(m: Map<Seq<char>, BinaryOpConfig>) -> Map<
    Seq<char>,
    BinaryOpConfig,
> {
    with_builtin_arith(with_builtin_logic(with_builtin_setters(m)))
}

/// The table `m` with every built-in prefix operator added.
pub open spec fn with_builtin_prefix(m: Map<Seq<char>, UnaryOpHandler>) -> Map<
    Seq<char>,
    UnaryOpHandler,
> {
    m.insert("-"@, UnaryOpHandler::Builtin(UnaryOpKind::Minus)).insert(
        "+"@,
        UnaryOpHandler::Builtin(UnaryOpKind::Plus),
    ).insert("!"@, UnaryOpHandler::Builtin(UnaryOpKind::Not)).insert(
        "not"@,
        UnaryOpHandler::Builtin(UnaryOpKind::Not),
    ).insert("AND"@, UnaryOpHandler::Builtin(UnaryOpKind::All)).insert(
        "OR"@,
        UnaryOpHandler::Builtin(UnaryOpKind::Any),
    )
}

/// The table `m` with every built-in postfix operator added.
pub open spec fn with_builtin_postfix(m: Map<Seq<char>, PostfixOpHandler>) -> Map<
    Seq<char>,
    PostfixOpHandler,
> {
    m.insert("++"@, PostfixOpHandler::Builtin(PostfixOpKind::Increment)).insert(
        "--"@,
        PostfixOpHandler::Builtin(PostfixOpKind::Decrement),
    )
}

/// A host's handler for an infix operator, as the table keeps it.
pub struct CustomBinaryOp {
    pub handler: Box<dyn BinaryOpFunc>,
}

/// A host's handler for a prefix or a postfix operator, as the table keeps
/// it.
pub struct CustomUnaryOp {
    pub handler: Box<dyn UnaryOpFunc>,
}

impl CustomBinaryOp {
    /// Keeps the host's handler as it is.
    pub(crate) fn new(handler: Box<dyn BinaryOpFunc>) -> (r: Self)
        ensures
            r == (CustomBinaryOp { handler }),
    {
        CustomBinaryOp { handler }
    }
}

impl CustomUnaryOp {
    /// Keeps the host's handler as it is.
    pub(crate) fn new(handler: Box<dyn UnaryOpFunc>) -> (r: Self)
        ensures
            r == (CustomUnaryOp { handler }),
    {
        CustomUnaryOp { handler }
    }
}

/// Whether the list `ops` holds the operator `name` with the precedence
/// `precedence`.
pub open spec fn listed(ops: Seq<(String, i32)>, name: Seq<char>, precedence: int) -> bool {
    exists|j: int| 0 <= j < ops.len() && (#[trigger] ops[j]).0@ == name && ops[j].1 == precedence
}

/// Whether the list `ops` goes from the lowest precedence to the highest.
pub open spec fn ascending(ops: Seq<(String, i32)>) -> bool {
    forall|i: int, j: int| 0 <= i <= j < ops.len() ==> (#[trigger] ops[i]).1 <= (#[trigger] ops[j]).1
}

/// What a list holds, it still holds after an entry is put in.
pub proof fn lemma_listed_insert(
    ops: Seq<(String, i32)>,
    at: int,
    entry: (String, i32),
    name: Seq<char>,
    precedence: int,
)
    requires
        0 <= at <= ops.len(),
        listed(ops, name, precedence),
    ensures
        listed(ops.insert(at, entry), name, precedence),
{
    let j = choose|j: int| 0 <= j < ops.len() && (#[trigger] ops[j]).0@ == name && ops[j].1 == precedence;
    let after = ops.insert(at, entry);
    if j < at {
        assert(after[j] == ops[j]);
    } else {
        assert(after[j + 1] == ops[j]);
    }
}

/// The infix operators: a table from names to configurations, and the
/// handlers that hosts have registered.
pub struct BinaryOpFuncManager {
    store: Store<BinaryOpConfig>,
    customs: Vec<CustomBinaryOp>,
}

impl BinaryOpFuncManager {
    /// The table from operator names to configurations.
    pub closed spec fn view(&self) -> Map<Seq<char>, BinaryOpConfig> {
        self.store@
    }

    /// How many handlers hosts have registered.
    pub closed spec fn custom_count(&self) -> nat {
        self.customs@.len()
    }

    /// The names in the table, in the order in which they were first
    /// registered.
    pub closed spec fn names(&self) -> Seq<Seq<char>> {
        self.store.keys()
    }

    /// A table without operators.
    pub fn new() -> (r: Self)
        ensures
            r@ == Map::<Seq<char>, BinaryOpConfig>::empty(),
            r.custom_count() == 0,
    {
        BinaryOpFuncManager { store: Store::new(), customs: Vec::new() }
    }

    fn register_builtin(
        &mut self,
        op: &str,
        precedence: i32,
        op_type: BinaryOpType,
        op_associativity: BinaryOpAssociativity,
        kind: BinaryOpKind,
    )
        ensures
            final(self)@ == old(self)@.insert(
                op@,
                BinaryOpConfig(
                    precedence,
                    op_type,
                    op_associativity,
                    BinaryOpHandler::Builtin(kind),
                ),
            ),
            final(self).custom_count() == old(self).custom_count(),
    {
        self.store.set(
            op,
            BinaryOpConfig(precedence, op_type, op_associativity, BinaryOpHandler::Builtin(kind)),
        );
    }

    /// Adds the built-in infix operators, each in place of what the table
    /// had under its name.
    pub fn init(&mut self)
        ensures
            final(self)@ == with_builtin_infix(old(self)@),
            final(self).custom_count() == old(self).custom_count(),
    {
        let setter = BinaryOpType::SETTER;
        let calc = BinaryOpType::CALC;
        let left = BinaryOpAssociativity::LEFT;
        let right = BinaryOpAssociativity::RIGHT;
        self.register_builtin("=", 20, setter, right, BinaryOpKind::Replace);
        self.register_builtin("+=", 20, setter, right, BinaryOpKind::Arith(ArithOp::Add));
        self.register_builtin("-=", 20, setter, right, BinaryOpKind::Arith(ArithOp::Sub));
        self.register_builtin("*=", 20, setter, right, BinaryOpKind::Arith(ArithOp::Mul));
        self.register_builtin("/=", 20, setter, right, BinaryOpKind::Arith(ArithOp::Div));
        self.register_builtin("%=", 20, setter, right, BinaryOpKind::Arith(ArithOp::Rem));
        self.register_builtin("<<=", 20, setter, right, BinaryOpKind::Bits(BitOp::Shl));
        self.register_builtin(">>=", 20, setter, right, BinaryOpKind::Bits(BitOp::Shr));
        self.register_builtin("&=", 20, setter, right, BinaryOpKind::Bits(BitOp::And));
        self.register_builtin("^=", 20, setter, right, BinaryOpKind::Bits(BitOp::Xor));
        self.register_builtin("|=", 20, setter, right, BinaryOpKind::Bits(BitOp::Or));
        assert(self@ == with_builtin_setters(old(self)@));
        self.register_builtin("||", 40, calc, left, BinaryOpKind::Or);
        self.register_builtin("&&", 50, calc, left, BinaryOpKind::And);
        self.register_builtin("<", 60, calc, left, BinaryOpKind::Compare(CompareOp::Less));
        self.register_builtin("<=", 60, calc, left, BinaryOpKind::Compare(CompareOp::LessEq));
        self.register_builtin(">", 60, calc, left, BinaryOpKind::Compare(CompareOp::Greater));
        self.register_builtin(">=", 60, calc, left, BinaryOpKind::Compare(CompareOp::GreaterEq));
        self.register_builtin("==", 60, calc, left, BinaryOpKind::Equal);
        self.register_builtin("!=", 60, calc, left, BinaryOpKind::NotEqual);
        self.register_builtin("|", 70, calc, left, BinaryOpKind::Bits(BitOp::Or));
        self.register_builtin("^", 80, calc, left, BinaryOpKind::Bits(BitOp::Xor));
        self.register_builtin("&", 90, calc, left, BinaryOpKind::Bits(BitOp::And));
        self.register_builtin("<<", 100, calc, left, BinaryOpKind::Bits(BitOp::Shl));
        self.register_builtin(">>", 100, calc, left, BinaryOpKind::Bits(BitOp::Shr));
        assert(self@ == with_builtin_logic(with_builtin_setters(old(self)@)));
        self.register_builtin("+", 110, calc, left, BinaryOpKind::Arith(ArithOp::Add));
        self.register_builtin("-", 110, calc, left, BinaryOpKind::Arith(ArithOp::Sub));
        self.register_builtin("*", 120, calc, left, BinaryOpKind::Arith(ArithOp::Mul));
        self.register_builtin("/", 120, calc, left, BinaryOpKind::Arith(ArithOp::Div));
        self.register_builtin("%", 120, calc, left, BinaryOpKind::Arith(ArithOp::Rem));
        self.register_builtin("beginWith", 200, calc, left, BinaryOpKind::BeginWith);
        self.register_builtin("endWith", 200, calc, left, BinaryOpKind::EndWith);
        self.register_builtin("in", 200, calc, left, BinaryOpKind::In);
    }

    /// Registers the host's handler `f` under `op`, in place of what the
    /// table had under that name.
    pub fn register(
        &mut self,
        op: &str,
        precidence: i32,
        op_type: BinaryOpType,
        op_associativity: BinaryOpAssociativity,
        f: Box<dyn BinaryOpFunc>,
    )
        ensures
            final(self)@ == old(self)@.insert(
                op@,
                BinaryOpConfig(
                    precidence,
                    op_type,
                    op_associativity,
                    BinaryOpHandler::Custom(old(self).custom_count() as usize),
                ),
            ),
            final(self).custom_count() == old(self).custom_count() + 1,
    {
        let place = self.customs.len();
        self.customs.push(CustomBinaryOp::new(f));
        self.store.set(
            op,
            BinaryOpConfig(precidence, op_type, op_associativity, BinaryOpHandler::Custom(place)),
        );
    }

    /// The configuration of `op`.
    pub fn get(&self, op: &str) -> (r: Result<BinaryOpConfig, Error>)
        ensures
            match r {
                Ok(config) => self@.contains_key(op@) && self@[op@] == config,
                Err(e) => !self@.contains_key(op@) && e@ == ErrorView::BinaryOpNotRegistered(op@),
            },
    {
        match self.store.get(op) {
            Some(config) => Ok(*config),
            None => Err(Error::BinaryOpNotRegistered(String::from_str(op))),
        }
    }

    /// The handler of `op`.
    pub fn get_handler(&self, op: &str) -> (r: Result<BinaryOpHandler, Error>)
        ensures
            match r {
                Ok(handler) => self@.contains_key(op@) && self@[op@].3 == handler,
                Err(e) => !self@.contains_key(op@) && e@ == ErrorView::BinaryOpNotRegistered(op@),
            },
    {
        Ok(self.get(op)?.3)
    }

    /// The class of `op`.
    pub fn get_op_type(&self, op: &str) -> (r: Result<BinaryOpType, Error>)
        ensures
            match r {
                Ok(op_type) => self@.contains_key(op@) && self@[op@].1 == op_type,
                Err(e) => !self@.contains_key(op@) && e@ == ErrorView::BinaryOpNotRegistered(op@),
            },
    {
        Ok(self.get(op)?.1)
    }

    /// The left and right binding powers of `op`.
    pub fn get_precidence(&self, op: &str) -> (r: (i64, i64))
        ensures
            (r.0 as int, r.1 as int) == binding_powers(self@, op@),
    {
        match self.get(op) {
            Err(_) => (-1, -1),
            Ok(config) => {
                let l_bp = config.0 as i64;
                match config.2 {
                    BinaryOpAssociativity::LEFT => (l_bp, l_bp + 1),
                    BinaryOpAssociativity::RIGHT => (l_bp, l_bp - 1),
                }
            },
        }
    }

    /// Makes `source` an operator with the configuration that `target` has
    /// now. What is registered under `target` later does not reach `source`.
    pub fn redirect(&mut self, source: &str, target: &str)
        requires
            old(self)@.contains_key(target@),
        ensures
            final(self)@ == old(self)@.insert(source@, old(self)@[target@]),
            final(self).custom_count() == old(self).custom_count(),
    {
        let config = match self.store.get(target) {
            Some(config) => *config,
            None => BinaryOpConfig(
                0,
                BinaryOpType::CALC,
                BinaryOpAssociativity::LEFT,
                BinaryOpHandler::Builtin(BinaryOpKind::Replace),
            ),
        };
        self.store.set(source, config);
    }

    /// The operators with their precedences, from the lowest precedence to
    /// the highest: one entry for each name in the table.
    pub fn operators(&self) -> (r: Vec<(String, i32)>)
        ensures
            r@.len() == self.names().len(),
            forall|k: int|
                0 <= k < self.names().len() ==> self@.contains_key(#[trigger] self.names()[k])
                    && listed(r@, self.names()[k], self@[self.names()[k]].0 as int),
            ascending(r@),
    {
        let n = self.store.len();
        let mut ans: Vec<(String, i32)> = Vec::new();
        let mut i: usize = 0;
        while i < n
            invariant
                i <= n,
                n == self.store.keys().len(),
                ans@.len() == i,
                forall|k: int|
                    0 <= k < i ==> self.store@.contains_key(#[trigger] self.store.keys()[k])
                        && listed(
                        ans@,
                        self.store.keys()[k],
                        self.store@[self.store.keys()[k]].0 as int,
                    ),
                ascending(ans@),
            decreases n - i,
        {
            let name = self.store.key_at(i).clone();
            let precedence = self.store.value_at(i).0;
            let mut at: usize = 0;
            while at < ans.len() && ans[at].1 <= precedence
                invariant
                    at <= ans@.len(),
                    forall|q: int| 0 <= q < at ==> (#[trigger] ans@[q]).1 <= precedence,
                decreases ans@.len() - at,
            {
                at += 1;
            }
            let ghost before = ans@;
            let ghost entry = (name, precedence);
            ans.insert(at, (name, precedence));
            proof {
                assert forall|k: int| 0 <= k < i + 1 implies self.store@.contains_key(
                    #[trigger] self.store.keys()[k],
                ) && listed(
                    ans@,
                    self.store.keys()[k],
                    self.store@[self.store.keys()[k]].0 as int,
                ) by {
                    if k < i {
                        lemma_listed_insert(
                            before,
                            at as int,
                            entry,
                            self.store.keys()[k],
                            self.store@[self.store.keys()[k]].0 as int,
                        );
                    } else {
                        assert(ans@[at as int] == entry);
                    }
                }
                assert forall|a: int, b: int| 0 <= a <= b < ans@.len() implies (#[trigger] ans@[a]).1
                    <= (#[trigger] ans@[b]).1 by {
                    let x = if a < at { a } else { a - 1 };
                    let y = if b < at { b } else { b - 1 };
                    if a != at && b != at {
                        assert(ans@[a] == before[x]);
                        assert(ans@[b] == before[y]);
                    } else if a == at && b != at {
                        assert(ans@[b] == before[y]);
                    } else if a != at && b == at {
                        assert(ans@[a] == before[x]);
                    }
                }
            }
            i += 1;
        }
        ans
    }

    /// Whether `op` is an infix operator.
    pub fn exist(&self, op: &str) -> (r: bool)
        ensures
            r == self@.contains_key(op@),
    {
        self.store.contains(op)
    }

    /// Runs the handler of `op` on two operands.
    pub fn apply(&self, op: &str, left: Value, right: Value) -> (r: Result<Value, Error>)
        ensures
            !self@.contains_key(op@) ==> result_view(r) == Err::<ValueView, ErrorView>(
                ErrorView::BinaryOpNotRegistered(op@),
            ),
            self@.contains_key(op@) ==> binary_outcome(
                self@[op@].3,
                left@,
                right@,
                result_view(r),
            ),
    {
        let config = self.get(op)?;
        match config.3 {
            BinaryOpHandler::Builtin(kind) => binary_apply(kind, left, right),
            BinaryOpHandler::Custom(i) => if i < self.customs.len() {
                self.customs[i].handler.call(left, right)
            } else {
                Err(Error::BinaryOpNotRegistered(String::from_str(op)))
            },
        }
    }
}


/// The prefix operators: a table from names to handlers, and the handlers
/// that hosts have registered.
pub struct UnaryOpFuncManager {
    store: Store<UnaryOpHandler>,
    customs: Vec<CustomUnaryOp>,
}

impl UnaryOpFuncManager {
    /// The table from operator names to handlers.
    pub closed spec fn view(&self) -> Map<Seq<char>, UnaryOpHandler> {
        self.store@
    }

    /// How many handlers hosts have registered.
    pub closed spec fn custom_count(&self) -> nat {
        self.customs@.len()
    }

    /// A table without operators.
    pub fn new() -> (r: Self)
        ensures
            r@ == Map::<Seq<char>, UnaryOpHandler>::empty(),
            r.custom_count() == 0,
    {
        UnaryOpFuncManager { store: Store::new(), customs: Vec::new() }
    }

    fn register_builtin(&mut self, op: &str, kind: UnaryOpKind)
        ensures
            final(self)@ == old(self)@.insert(op@, UnaryOpHandler::Builtin(kind)),
            final(self).custom_count() == old(self).custom_count(),
    {
        self.store.set(op, UnaryOpHandler::Builtin(kind));
    }

    /// Adds the built-in prefix operators, each in place of what the table
    /// had under its name.
    pub fn init(&mut self)
        ensures
            final(self)@ == with_builtin_prefix(old(self)@),
            final(self).custom_count() == old(self).custom_count(),
    {
        self.register_builtin("-", UnaryOpKind::Minus);
        self.register_builtin("+", UnaryOpKind::Plus);
        self.register_builtin("!", UnaryOpKind::Not);
        self.register_builtin("not", UnaryOpKind::Not);
        self.register_builtin("AND", UnaryOpKind::All);
        self.register_builtin("OR", UnaryOpKind::Any);
    }

    /// Registers the host's handler `f` under `op`, in place of what the
    /// table had under that name.
    pub fn register(&mut self, op: &str, f: Box<dyn UnaryOpFunc>)
        ensures
            final(self)@ == old(self)@.insert(
                op@,
                UnaryOpHandler::Custom(old(self).custom_count() as usize),
            ),
            final(self).custom_count() == old(self).custom_count() + 1,
    {
        let place = self.customs.len();
        self.customs.push(CustomUnaryOp::new(f));
        self.store.set(op, UnaryOpHandler::Custom(place));
    }

    /// The handler of `op`.
    pub fn get(&self, op: &str) -> (r: Result<UnaryOpHandler, Error>)
        ensures
            match r {
                Ok(handler) => self@.contains_key(op@) && self@[op@] == handler,
                Err(e) => !self@.contains_key(op@) && e@ == ErrorView::UnaryOpNotRegistered(op@),
            },
    {
        match self.store.get(op) {
            Some(handler) => Ok(*handler),
            None => Err(Error::UnaryOpNotRegistered(String::from_str(op))),
        }
    }

    /// Whether `op` is a prefix operator.
    pub fn exist(&self, op: &str) -> (r: bool)
        ensures
            r == self@.contains_key(op@),
    {
        self.store.contains(op)
    }

    /// Runs the handler of `op` on an operand.
    pub fn apply(&self, op: &str, value: Value) -> (r: Result<Value, Error>)
        ensures
            !self@.contains_key(op@) ==> result_view(r) == Err::<ValueView, ErrorView>(
                ErrorView::UnaryOpNotRegistered(op@),
            ),
            self@.contains_key(op@) ==> unary_outcome(self@[op@], value@, result_view(r)),
    {
        match self.get(op)? {
            UnaryOpHandler::Builtin(kind) => unary_apply(kind, value),
            UnaryOpHandler::Custom(i) => if i < self.customs.len() {
                self.customs[i].handler.call(value)
            } else {
                Err(Error::UnaryOpNotRegistered(String::from_str(op)))
            },
        }
    }
}

/// The postfix operators: a table from names to handlers, and the handlers
/// that hosts have registered.
pub struct PostfixOpFuncManager {
    store: Store<PostfixOpHandler>,
    customs: Vec<CustomUnaryOp>,
}

impl PostfixOpFuncManager {
    /// The table from operator names to handlers.
    pub closed spec fn view(&self) -> Map<Seq<char>, PostfixOpHandler> {
        self.store@
    }

    /// How many handlers hosts have registered.
    pub closed spec fn custom_count(&self) -> nat {
        self.customs@.len()
    }

    /// A table without operators.
    pub fn new() -> (r: Self)
        ensures
            r@ == Map::<Seq<char>, PostfixOpHandler>::empty(),
            r.custom_count() == 0,
    {
        PostfixOpFuncManager { store: Store::new(), customs: Vec::new() }
    }

    fn register_builtin(&mut self, op: &str, kind: PostfixOpKind)
        ensures
            final(self)@ == old(self)@.insert(op@, PostfixOpHandler::Builtin(kind)),
            final(self).custom_count() == old(self).custom_count(),
    {
        self.store.set(op, PostfixOpHandler::Builtin(kind));
    }

    /// Adds the built-in postfix operators, each in place of what the table
    /// had under its name.
    pub fn init(&mut self)
        ensures
            final(self)@ == with_builtin_postfix(old(self)@),
            final(self).custom_count() == old(self).custom_count(),
    {
        self.register_builtin("++", PostfixOpKind::Increment);
        self.register_builtin("--", PostfixOpKind::Decrement);
    }

    /// Registers the host's handler `f` under `op`, in place of what the
    /// table had under that name.
    pub fn register(&mut self, op: &str, f: Box<dyn UnaryOpFunc>)
        ensures
            final(self)@ == old(self)@.insert(
                op@,
                PostfixOpHandler::Custom(old(self).custom_count() as usize),
            ),
            final(self).custom_count() == old(self).custom_count() + 1,
    {
        let place = self.customs.len();
        self.customs.push(CustomUnaryOp::new(f));
        self.store.set(op, PostfixOpHandler::Custom(place));
    }

    /// The handler of `op`.
    pub fn get(&self, op: &str) -> (r: Result<PostfixOpHandler, Error>)
        ensures
            match r {
                Ok(handler) => self@.contains_key(op@) && self@[op@] == handler,
                Err(e) => !self@.contains_key(op@) && e@ == ErrorView::UnaryOpNotRegistered(op@),
            },
    {
        match self.store.get(op) {
            Some(handler) => Ok(*handler),
            None => Err(Error::UnaryOpNotRegistered(String::from_str(op))),
        }
    }

    /// Whether `op` is a postfix operator.
    pub fn exist(&self, op: &str) -> (r: bool)
        ensures
            r == self@.contains_key(op@),
    {
        self.store.contains(op)
    }

    /// Runs the handler of `op` on an operand.
    pub fn apply(&self, op: &str, value: Value) -> (r: Result<Value, Error>)
        ensures
            !self@.contains_key(op@) ==> result_view(r) == Err::<ValueView, ErrorView>(
                ErrorView::UnaryOpNotRegistered(op@),
            ),
            self@.contains_key(op@) ==> postfix_outcome(self@[op@], value@, result_view(r)),
    {
        match self.get(op)? {
            PostfixOpHandler::Builtin(kind) => postfix_apply(kind, value),
            PostfixOpHandler::Custom(i) => if i < self.customs.len() {
                self.customs[i].handler.call(value)
            } else {
                Err(Error::UnaryOpNotRegistered(String::from_str(op)))
            },
        }
    }
}

} // verus!
