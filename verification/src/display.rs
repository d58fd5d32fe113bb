use vstd::prelude::*;
use vstd::string::StringExecFns;
use crate::ast::{
    ast_pairs_view, asts_view, lemma_chain_view, lemma_dict_ast_view, lemma_function_view,
    lemma_list_ast_view, AstView, ExprAST, Literal, LiteralView,
};
use crate::error::{Error, ErrorView};
use crate::number::decimal_text;
use crate::token::{delim_text, Span, Token, TokenView};
use crate::value::{lemma_dict_view, lemma_list_view, pairs_view, values_view, Value, ValueView};

verus! {

/// The character of a decimal digit.
pub open spec fn digit_char(d: int) -> char {
    if d == 0 {
        '0'
    } else if d == 1 {
        '1'
    } else if d == 2 {
        '2'
    } else if d == 3 {
        '3'
    } else if d == 4 {
        '4'
    } else if d == 5 {
        '5'
    } else if d == 6 {
        '6'
    } else if d == 7 {
        '7'
    } else if d == 8 {
        '8'
    } else {
        '9'
    }
}

/// A natural number in decimal digits, without leading zeros.
pub open spec fn digits(n: nat) -> Seq<char>
    decreases n,
{
    if n < 10 {
        seq![digit_char(n as int)]
    } else {
        digits(n / 10).push(digit_char((n % 10) as int))
    }
}

/// The text of a truth value.
pub open spec fn bool_text(b: bool) -> Seq<char> {
    if b {
        "true"@
    } else {
        "false"@
    }
}

/// The message of a failure.
pub open spec fn error_text(e: ErrorView) -> Seq<char> {
    match e {
        ErrorView::InvalidNumber(s) => "invalid number: "@ + s,
        ErrorView::UnexpectedEOF(at) => "unexpected eof: "@ + digits(at as nat),
        ErrorView::UnterminatedString(at) => "unterminated string: "@ + digits(at as nat),
        ErrorView::InvalidBool(at) => "invalid bool: "@ + digits(at as nat),
        ErrorView::NotSupportedChar(at, ch) => "not supported char: "@ + digits(at as nat)
            + ", "@ + seq![ch],
        ErrorView::ReferenceNotExist(name) => "reference not exist: "@ + name,
        ErrorView::FunctionNotExist(name) => "function not exist: "@ + name,
        ErrorView::NotSupportedOp(op) => "not supported op: "@ + op,
        ErrorView::BinaryOpNotRegistered(op) => "binary op not registered: "@ + op,
        ErrorView::UnaryOpNotRegistered(op) => "unary op not registered: "@ + op,
        ErrorView::InnerFunctionNotRegistered(name) => "inner function not registered: "@ + name,
        ErrorView::ShouldBeNumber => "should be number"@,
        ErrorView::ShouldBeBool => "should be bool"@,
        ErrorView::ShouldBeList => "should be list"@,
        ErrorView::ParamInvalid => "param invalid"@,
        ErrorView::ShouldBeString => "should be string"@,
        ErrorView::InvalidTernaryExprNeedColon => "invalid ternary expr needs colon"@,
        ErrorView::ExpectedOpNotExist(op) => "expected op:"@ + op + " not exist"@,
        ErrorView::ExpectBinOpToken => "expected a binary op"@,
        ErrorView::WrongContextValueType => "wrong context value type"@,
        ErrorView::UnexpectedToken => "unexpected token"@,
        ErrorView::NotReferenceExpr => "not reference expr"@,
        ErrorView::NoOpenDelim => "no open delim"@,
        ErrorView::NoCloseDelim => "no close delim"@,
        ErrorView::InvalidOp(op) => "invalid op "@ + op,
        ErrorView::InvalidInteger => "invalid integer"@,
        ErrorView::InvalidFloat => "invalid float"@,
        ErrorView::DivideByZero => "divide by zero"@,
        ErrorView::NumberOverflow => "number overflow"@,
    }
}

/// The texts `parts`, one after the other.
pub open spec fn concat_all(parts: Seq<Seq<char>>) -> Seq<char>
    decreases parts.len(),
{
    if parts.len() == 0 {
        Seq::empty()
    } else {
        concat_all(parts.drop_last()) + parts.last()
    }
}

/// How a value is shown.
pub open spec fn value_text(v: ValueView) -> Seq<char>
    decreases v,
{
    match v {
        ValueView::String(s) => "value string: "@ + s,
        ValueView::Number(d) => "value number: "@ + decimal_text(d),
        ValueView::Bool(b) => "value bool: "@ + bool_text(b),
        ValueView::List(items) => "value list: ["@ + concat_all(value_parts(items)) + "]"@,
        ValueView::Dict(pairs) => "value map: {"@ + concat_all(pair_parts(pairs)) + "}"@,
        ValueView::Nil => "None"@,
    }
}

/// How each item of a list is shown: the item, then a comma.
pub open spec fn value_parts(items: Seq<ValueView>) -> Seq<Seq<char>>
    decreases items,
{
    Seq::new(
        items.len(),
        |i: int|
            if 0 <= i < items.len() {
                value_text(items[i]) + ","@
            } else {
                Seq::empty()
            },
    )
}

/// How each pair of a dictionary is shown.
pub open spec fn pair_parts(pairs: Seq<(ValueView, ValueView)>) -> Seq<Seq<char>>
    decreases pairs,
{
    Seq::new(
        pairs.len(),
        |i: int|
            if 0 <= i < pairs.len() {
                "key: "@ + value_text(pairs[i].0) + ",value: "@ + value_text(pairs[i].1) + "; "@
            } else {
                Seq::empty()
            },
    )
}

/// How a span is shown.
pub open spec fn span_text(span: Span) -> Seq<char> {
    "["@ + digits(span.0 as nat) + "..="@ + digits(span.1 as nat) + ")"@
}

/// How a token is shown.
pub open spec fn token_display(t: TokenView) -> Seq<char> {
    match t {
        TokenView::Bool(val, span) => "Bool Token: "@ + bool_text(val) + ", "@ + span_text(span),
        TokenView::Comma(val, span) => "Comma Token: "@ + val + ", "@ + span_text(span),
        TokenView::Number(val, span) => "Number Token: "@ + decimal_text(val) + ", "@
            + span_text(span),
        TokenView::Operator(val, span) => "Operator Token: "@ + val + ", "@ + span_text(span),
        TokenView::Reference(val, span) => "Reference Token: "@ + val + ", "@ + span_text(span),
        TokenView::Function(val, span) => "Function Token: "@ + val + ", "@ + span_text(span),
        TokenView::String(val, span) => "String Token: "@ + val + ", "@ + span_text(span),
        TokenView::Semicolon(val, span) => "Semicolon Token: "@ + val + ", "@ + span_text(span),
        TokenView::Delim(ty, span) => "Delim Token: "@ + delim_text(ty) + ", "@ + span_text(span),
        TokenView::EOF => "EOF"@,
    }
}

/// How a literal is shown.
pub open spec fn literal_display(l: LiteralView) -> Seq<char> {
    match l {
        LiteralView::Number(value) => "Number: "@ + decimal_text(value),
        LiteralView::Bool(value) => "Bool: "@ + bool_text(value),
        LiteralView::String(value) => "String: "@ + value,
    }
}

/// How an expression is shown: every node with its kind and its parts.
pub open spec fn ast_display(a: AstView) -> Seq<char>
    decreases a,
{
    match a {
        AstView::Literal(val) => "Literal AST: "@ + literal_display(val),
        AstView::Unary(op, rhs) => "Unary AST: Op: "@ + op + ", Rhs: "@ + ast_display(*rhs),
        AstView::Binary(op, lhs, rhs) => "Binary AST: Op: "@ + op + ", Lhs: "@ + ast_display(*lhs)
            + ", Rhs: "@ + ast_display(*rhs),
        AstView::Postfix(lhs, op) => "Postfix AST: Lhs: "@ + ast_display(*lhs) + ", Op: "@ + op,
        AstView::Ternary(condition, lhs, rhs) => "Ternary AST: Condition: "@ + ast_display(
            *condition,
        ) + ", Lhs: "@ + ast_display(*lhs) + ", Rhs: "@ + ast_display(*rhs),
        AstView::Reference(name) => "Reference AST: reference: "@ + name,
        AstView::Function(name, params) => "Function AST: name: "@ + name + ", params: ["@
            + concat_all(each_display(params, ","@)) + "]"@,
        AstView::List(params) => "List AST: params: ["@ + concat_all(each_display(params, ","@))
            + "]"@,
        AstView::Dict(pairs) => "Map AST: "@ + concat_all(pairs_display(pairs)),
        AstView::Chain(exprs) => "Chain AST: "@ + concat_all(each_display(exprs, ";"@)),
        AstView::Nil => "None"@,
    }
}

/// How each of `items` is shown, each followed by `end`.
pub open spec fn each_display(items: Seq<AstView>, end: Seq<char>) -> Seq<Seq<char>>
    decreases items,
{
    Seq::new(
        items.len(),
        |i: int|
            if 0 <= i < items.len() {
                ast_display(items[i]) + end
            } else {
                Seq::empty()
            },
    )
}

/// How each pair of a dictionary is shown: key and value in parentheses.
pub open spec fn pairs_display(pairs: Seq<(AstView, AstView)>) -> Seq<Seq<char>>
    decreases pairs,
{
    Seq::new(
        pairs.len(),
        |i: int|
            if 0 <= i < pairs.len() {
                "("@ + ast_display(pairs[i].0) + " "@ + ast_display(pairs[i].1) + "), "@
            } else {
                Seq::empty()
            },
    )
}

fn digit_text(d: usize) -> (r: &'static str)
    requires
        d < 10,
    ensures
        r@ == seq![digit_char(d as int)],
{
    proof {
        reveal_strlit("0");
        reveal_strlit("1");
        reveal_strlit("2");
        reveal_strlit("3");
        reveal_strlit("4");
        reveal_strlit("5");
        reveal_strlit("6");
        reveal_strlit("7");
        reveal_strlit("8");
        reveal_strlit("9");
    }
    let r = if d == 0 {
        "0"
    } else if d == 1 {
        "1"
    } else if d == 2 {
        "2"
    } else if d == 3 {
        "3"
    } else if d == 4 {
        "4"
    } else if d == 5 {
        "5"
    } else if d == 6 {
        "6"
    } else if d == 7 {
        "7"
    } else if d == 8 {
        "8"
    } else {
        "9"
    };
    assert(r@ =~= seq![digit_char(d as int)]);
    r
}

/// A number in decimal digits.
pub fn digits_of(n: usize) -> (r: String)
    ensures
        r@ == digits(n as nat),
    decreases n,
{
    if n < 10 {
        String::from_str(digit_text(n))
    } else {
        let mut s = digits_of(n / 10);
        s.append(digit_text(n % 10));
        assert(s@ =~= digits((n / 10) as nat).push(digit_char((n % 10) as int)));
        s
    }
}

/// `char::to_string`: the text that holds the one character `ch`.
#[verifier::external_body]
fn char_text(ch: char) -> (r: String)
    ensures
        r@ == seq![ch],
{
    ch.to_string()
}

fn bool_string(b: bool) -> (r: &'static str)
    ensures
        r@ == bool_text(b),
{
    if b {
        "true"
    } else {
        "false"
    }
}

fn labelled(label: &str, text: &str) -> (r: String)
    ensures
        r@ == label@ + text@,
{
    let mut s = String::from_str(label);
    s.append(text);
    s
}

impl Error {
    /// The message of this failure.
    pub fn to_string(&self) -> (r: String)
        ensures
            r@ == error_text(self@),
    {
        match self {
            Error::InvalidNumber(s) => labelled("invalid number: ", s.as_str()),
            Error::UnexpectedEOF(start) => labelled(
                "unexpected eof: ",
                digits_of(*start).as_str(),
            ),
            Error::UnterminatedString(start) => labelled(
                "unterminated string: ",
                digits_of(*start).as_str(),
            ),
            Error::InvalidBool(start) => labelled("invalid bool: ", digits_of(*start).as_str()),
            Error::NotSupportedChar(start, ch) => {
                let mut s = labelled("not supported char: ", digits_of(*start).as_str());
                s.append(", ");
                s.append(char_text(*ch).as_str());
                s
            },
            Error::ReferenceNotExist(name) => labelled("reference not exist: ", name.as_str()),
            Error::FunctionNotExist(name) => labelled("function not exist: ", name.as_str()),
            Error::NotSupportedOp(op) => labelled("not supported op: ", op.as_str()),
            Error::BinaryOpNotRegistered(op) => labelled(
                "binary op not registered: ",
                op.as_str(),
            ),
            Error::UnaryOpNotRegistered(op) => labelled("unary op not registered: ", op.as_str()),
            Error::InnerFunctionNotRegistered(name) => labelled(
                "inner function not registered: ",
                name.as_str(),
            ),
            Error::ShouldBeNumber() => String::from_str("should be number"),
            Error::ShouldBeBool() => String::from_str("should be bool"),
            Error::ShouldBeList() => String::from_str("should be list"),
            Error::ParamInvalid() => String::from_str("param invalid"),
            Error::ShouldBeString() => String::from_str("should be string"),
            Error::InvalidTernaryExprNeedColon() => String::from_str(
                "invalid ternary expr needs colon",
            ),
            Error::ExpectedOpNotExist(op) => {
                let mut s = labelled("expected op:", op.as_str());
                s.append(" not exist");
                s
            },
            Error::ExpectBinOpToken => String::from_str("expected a binary op"),
            Error::WrongContextValueType() => String::from_str("wrong context value type"),
            Error::UnexpectedToken() => String::from_str("unexpected token"),
            Error::NotReferenceExpr => String::from_str("not reference expr"),
            Error::NoOpenDelim => String::from_str("no open delim"),
            Error::NoCloseDelim => String::from_str("no close delim"),
            Error::InvalidOp(op) => labelled("invalid op ", op.as_str()),
            Error::InvalidInteger => String::from_str("invalid integer"),
            Error::InvalidFloat => String::from_str("invalid float"),
            Error::DivideByZero => String::from_str("divide by zero"),
            Error::NumberOverflow => String::from_str("number overflow"),
        }
    }
}

impl Span {
    /// How this span is shown.
    pub fn to_string(&self) -> (r: String)
        ensures
            r@ == span_text(*self),
    {
        let mut s = String::from_str("[");
        s.append(digits_of(self.0).as_str());
        s.append("..=");
        s.append(digits_of(self.1).as_str());
        s.append(")");
        s
    }
}

fn token_line(label: &str, text: &str, span: &Span) -> (r: String)
    ensures
        r@ == label@ + text@ + ", "@ + span_text(*span),
{
    let mut s = String::from_str(label);
    s.append(text);
    s.append(", ");
    s.append(span.to_string().as_str());
    s
}

impl Token {
    /// How this token is shown: its kind, its text and its span.
    pub fn to_string(&self) -> (r: String)
        ensures
            r@ == token_display(self@),
    {
        match self {
            Token::Bool(val, span) => token_line("Bool Token: ", bool_string(*val), span),
            Token::Comma(val, span) => token_line("Comma Token: ", val.as_str(), span),
            Token::Number(val, span) => token_line(
                "Number Token: ",
                val.to_text().as_str(),
                span,
            ),
            Token::Operator(val, span) => token_line("Operator Token: ", val.as_str(), span),
            Token::Reference(val, span) => token_line("Reference Token: ", val.as_str(), span),
            Token::Function(val, span) => token_line("Function Token: ", val.as_str(), span),
            Token::String(val, span) => token_line("String Token: ", val.as_str(), span),
            Token::Semicolon(val, span) => token_line("Semicolon Token: ", val.as_str(), span),
            Token::Delim(ty, span) => token_line("Delim Token: ", ty.string().as_str(), span),
            Token::EOF => String::from_str("EOF"),
        }
    }
}

impl Literal {
    /// How this literal is shown.
    pub fn to_string(&self) -> (r: String)
        ensures
            r@ == literal_display(self@),
    {
        match self {
            Literal::Number(value) => labelled("Number: ", value.to_text().as_str()),
            Literal::Bool(value) => labelled("Bool: ", bool_string(*value)),
            Literal::String(value) => labelled("String: ", value.as_str()),
        }
    }
}

#[verifier::loop_isolation(false)]
fn show_values(items: &Vec<Value>) -> (r: String)
    ensures
        r@ == concat_all(value_parts(values_view(items@))),
    decreases items,
{
    let ghost all = value_parts(values_view(items@));
    let mut s = String::new();
    let mut i: usize = 0;
    assert(all.take(0) =~= Seq::<Seq<char>>::empty());
    while i < items.len()
        invariant
            i <= items.len(),
            s@ == concat_all(all.take(i as int)),
        decreases items.len() - i,
    {
        proof {
            assert(all.take(i as int + 1).drop_last() =~= all.take(i as int));
        }
        let part = items[i].to_string();
        s.append(part.as_str());
        s.append(",");
        assert(s@ =~= concat_all(all.take(i as int)) + (part@ + ","@));
        i += 1;
    }
    assert(all.take(i as int) =~= all);
    s
}

#[verifier::loop_isolation(false)]
fn show_pairs(pairs: &Vec<(Value, Value)>) -> (r: String)
    ensures
        r@ == concat_all(pair_parts(pairs_view(pairs@))),
    decreases pairs,
{
    let ghost all = pair_parts(pairs_view(pairs@));
    let mut s = String::new();
    let mut i: usize = 0;
    assert(all.take(0) =~= Seq::<Seq<char>>::empty());
    while i < pairs.len()
        invariant
            i <= pairs.len(),
            s@ == concat_all(all.take(i as int)),
        decreases pairs.len() - i,
    {
        proof {
            assert(all.take(i as int + 1).drop_last() =~= all.take(i as int));
        }
        let key = pairs[i].0.to_string();
        let value = pairs[i].1.to_string();
        s.append("key: ");
        s.append(key.as_str());
        s.append(",value: ");
        s.append(value.as_str());
        s.append("; ");
        assert(s@ =~= concat_all(all.take(i as int)) + ("key: "@ + key@ + ",value: "@ + value@
            + "; "@));
        i += 1;
    }
    assert(all.take(i as int) =~= all);
    s
}

impl Value {
    /// How this value is shown.
    pub fn to_string(&self) -> (r: String)
        ensures
            r@ == value_text(self@),
        decreases self,
    {
        match self {
            Value::String(val) => labelled("value string: ", val.as_str()),
            Value::Number(val) => labelled("value number: ", val.to_text().as_str()),
            Value::Bool(val) => labelled("value bool: ", bool_string(*val)),
            Value::List(values) => {
                proof {
                    lemma_list_view(*values);
                }
                let mut s = String::from_str("value list: [");
                s.append(show_values(values).as_str());
                s.append("]");
                s
            },
            Value::Dict(m) => {
                proof {
                    lemma_dict_view(*m);
                }
                let mut s = String::from_str("value map: {");
                s.append(show_pairs(m).as_str());
                s.append("}");
                s
            },
            Value::Nil => String::from_str("None"),
        }
    }
}

#[verifier::loop_isolation(false)]
fn show_each(items: &Vec<ExprAST>, end: &str) -> (r: String)
    ensures
        r@ == concat_all(each_display(asts_view(items@), end@)),
    decreases items,
{
    let ghost all = each_display(asts_view(items@), end@);
    let mut s = String::new();
    let mut i: usize = 0;
    assert(all.take(0) =~= Seq::<Seq<char>>::empty());
    while i < items.len()
        invariant
            i <= items.len(),
            s@ == concat_all(all.take(i as int)),
        decreases items.len() - i,
    {
        proof {
            assert(all.take(i as int + 1).drop_last() =~= all.take(i as int));
        }
        let part = items[i].to_string();
        s.append(part.as_str());
        s.append(end);
        assert(s@ =~= concat_all(all.take(i as int)) + (part@ + end@));
        i += 1;
    }
    assert(all.take(i as int) =~= all);
    s
}

#[verifier::loop_isolation(false)]
fn show_ast_pairs(pairs: &Vec<(ExprAST, ExprAST)>) -> (r: String)
    ensures
        r@ == concat_all(pairs_display(ast_pairs_view(pairs@))),
    decreases pairs,
{
    let ghost all = pairs_display(ast_pairs_view(pairs@));
    let mut s = String::new();
    let mut i: usize = 0;
    assert(all.take(0) =~= Seq::<Seq<char>>::empty());
    while i < pairs.len()
        invariant
            i <= pairs.len(),
            s@ == concat_all(all.take(i as int)),
        decreases pairs.len() - i,
    {
        proof {
            assert(all.take(i as int + 1).drop_last() =~= all.take(i as int));
        }
        let key = pairs[i].0.to_string();
        let value = pairs[i].1.to_string();
        s.append("(");
        s.append(key.as_str());
        s.append(" ");
        s.append(value.as_str());
        s.append("), ");
        assert(s@ =~= concat_all(all.take(i as int)) + ("("@ + key@ + " "@ + value@ + "), "@));
        i += 1;
    }
    assert(all.take(i as int) =~= all);
    s
}

impl ExprAST {
    /// How this expression is shown: every node with its kind and its
    /// parts.
    pub fn to_string(&self) -> (r: String)
        ensures
            r@ == ast_display(self@),
        decreases self,
    {
        match self {
            ExprAST::Literal(val) => labelled("Literal AST: ", val.to_string().as_str()),
            ExprAST::Unary(op, rhs) => {
                let mut s = labelled("Unary AST: Op: ", op.as_str());
                s.append(", Rhs: ");
                s.append(rhs.to_string().as_str());
                s
            },
            ExprAST::Binary(op, lhs, rhs) => {
                let mut s = labelled("Binary AST: Op: ", op.as_str());
                s.append(", Lhs: ");
                s.append(lhs.to_string().as_str());
                s.append(", Rhs: ");
                s.append(rhs.to_string().as_str());
                s
            },
            ExprAST::Postfix(lhs, op) => {
                let mut s = labelled("Postfix AST: Lhs: ", lhs.to_string().as_str());
                s.append(", Op: ");
                s.append(op.as_str());
                s
            },
            ExprAST::Ternary(condition, lhs, rhs) => {
                let mut s = labelled("Ternary AST: Condition: ", condition.to_string().as_str());
                s.append(", Lhs: ");
                s.append(lhs.to_string().as_str());
                s.append(", Rhs: ");
                s.append(rhs.to_string().as_str());
                s
            },
            ExprAST::Reference(name) => labelled("Reference AST: reference: ", name.as_str()),
            ExprAST::Function(name, params) => {
                proof {
                    lemma_function_view(*name, *params);
                }
                let mut s = labelled("Function AST: name: ", name.as_str());
                s.append(", params: [");
                s.append(show_each(params, ",").as_str());
                s.append("]");
                s
            },
            ExprAST::List(params) => {
                proof {
                    lemma_list_ast_view(*params);
                }
                let mut s = labelled("List AST: params: [", show_each(params, ",").as_str());
                s.append("]");
                s
            },
            ExprAST::Dict(m) => {
                proof {
                    lemma_dict_ast_view(*m);
                }
                labelled("Map AST: ", show_ast_pairs(m).as_str())
            },
            ExprAST::Chain(exprs) => {
                proof {
                    lemma_chain_view(*exprs);
                }
                labelled("Chain AST: ", show_each(exprs, ";").as_str())
            },
            ExprAST::Nil => String::from_str("None"),
        }
    }
}

} // verus!
