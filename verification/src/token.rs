use vstd::prelude::*;
use vstd::std_specs::convert::FromSpecImpl;
use vstd::string::StringExecFns;
use crate::number::{decimal_text, Dec, Number};
use crate::registry::Registry;
use crate::text::same_text;

verus! {

/// The three kinds of bracket, each open and closed.
#[derive(Debug, Clone, Copy, PartialEq, Eq, Structural)]
pub enum DelimTokenType {
    OpenParen,
    CloseParen,
    OpenBracket,
    CloseBracket,
    OpenBrace,
    CloseBrace,
    Unknown,
}

/// The bracket that a character stands for.
pub open spec fn delim_of_char(c: char) -> DelimTokenType {
    if c == '(' {
        DelimTokenType::OpenParen
    } else if c == ')' {
        DelimTokenType::CloseParen
    } else if c == '[' {
        DelimTokenType::OpenBracket
    } else if c == ']' {
        DelimTokenType::CloseBracket
    } else if c == '{' {
        DelimTokenType::OpenBrace
    } else if c == '}' {
        DelimTokenType::CloseBrace
    } else {
        DelimTokenType::Unknown
    }
}

/// The text of a bracket.
pub open spec fn delim_text(d: DelimTokenType) -> Seq<char> {
    match d {
        DelimTokenType::OpenParen => "("@,
        DelimTokenType::CloseParen => ")"@,
        DelimTokenType::OpenBracket => "["@,
        DelimTokenType::CloseBracket => "]"@,
        DelimTokenType::OpenBrace => "{"@,
        DelimTokenType::CloseBrace => "}"@,
        DelimTokenType::Unknown => "??"@,
    }
}

/// The bracket that a text stands for.
pub open spec fn delim_of_text(s: Seq<char>) -> DelimTokenType {
    if s == "("@ {
        DelimTokenType::OpenParen
    } else if s == ")"@ {
        DelimTokenType::CloseParen
    } else if s == "["@ {
        DelimTokenType::OpenBracket
    } else if s == "]"@ {
        DelimTokenType::CloseBracket
    } else if s == "{"@ {
        DelimTokenType::OpenBrace
    } else if s == "}"@ {
        DelimTokenType::CloseBrace
    } else {
        DelimTokenType::Unknown
    }
}

impl From<char> for DelimTokenType {
    fn from(value: char) -> (r: DelimTokenType) {
        if value == '(' {
            DelimTokenType::OpenParen
        } else if value == ')' {
            DelimTokenType::CloseParen
        } else if value == '[' {
            DelimTokenType::OpenBracket
        } else if value == ']' {
            DelimTokenType::CloseBracket
        } else if value == '{' {
            DelimTokenType::OpenBrace
        } else if value == '}' {
            DelimTokenType::CloseBrace
        } else {
            DelimTokenType::Unknown
        }
    }
}

impl FromSpecImpl<char> for DelimTokenType {
    open spec fn obeys_from_spec() -> bool {
        true
    }

    open spec fn from_spec(value: char) -> DelimTokenType {
        delim_of_char(value)
    }
}

impl From<&str> for DelimTokenType {
    fn from(value: &str) -> (r: DelimTokenType) {
        if same_text(value, "(") {
            DelimTokenType::OpenParen
        } else if same_text(value, ")") {
            DelimTokenType::CloseParen
        } else if same_text(value, "[") {
            DelimTokenType::OpenBracket
        } else if same_text(value, "]") {
            DelimTokenType::CloseBracket
        } else if same_text(value, "{") {
            DelimTokenType::OpenBrace
        } else if same_text(value, "}") {
            DelimTokenType::CloseBrace
        } else {
            DelimTokenType::Unknown
        }
    }
}

impl FromSpecImpl<&str> for DelimTokenType {
    open spec fn obeys_from_spec() -> bool {
        true
    }

    open spec fn from_spec(value: &str) -> DelimTokenType {
        delim_of_text(value@)
    }
}

impl DelimTokenType {
    /// The text of this bracket.
    pub fn string(&self) -> (s: String)
        ensures
            s@ == delim_text(*self),
    {
        match self {
            DelimTokenType::OpenParen => String::from_str("("),
            DelimTokenType::CloseParen => String::from_str(")"),
            DelimTokenType::OpenBracket => String::from_str("["),
            DelimTokenType::CloseBracket => String::from_str("]"),
            DelimTokenType::OpenBrace => String::from_str("{"),
            DelimTokenType::CloseBrace => String::from_str("}"),
            DelimTokenType::Unknown => String::from_str("??"),
        }
    }
}

/// Where a token stands in the text: the byte offsets of its first character
/// and of the character after its last.
#[derive(Debug, Clone, Copy, PartialEq, Eq, Structural)]
pub struct Span(pub usize, pub usize);

/// One lexical unit.
#[derive(Debug, PartialEq)]
pub enum Token {
    Operator(String, Span),
    Delim(DelimTokenType, Span),
    Number(Number, Span),
    Comma(String, Span),
    Bool(bool, Span),
    String(String, Span),
    Reference(String, Span),
    Function(String, Span),
    Semicolon(String, Span),
    EOF,
}

/// The mathematical content of a [`Token`].
pub enum TokenView {
    Operator(Seq<char>, Span),
    Delim(DelimTokenType, Span),
    Number(Dec, Span),
    Comma(Seq<char>, Span),
    Bool(bool, Span),
    String(Seq<char>, Span),
    Reference(Seq<char>, Span),
    Function(Seq<char>, Span),
    Semicolon(Seq<char>, Span),
    EOF,
}

impl View for Token {
    type V = TokenView;

    open spec fn view(&self) -> TokenView {
        match self {
            Token::Operator(s, span) => TokenView::Operator(s@, *span),
            Token::Delim(d, span) => TokenView::Delim(*d, *span),
            Token::Number(n, span) => TokenView::Number(n@, *span),
            Token::Comma(s, span) => TokenView::Comma(s@, *span),
            Token::Bool(b, span) => TokenView::Bool(*b, *span),
            Token::String(s, span) => TokenView::String(s@, *span),
            Token::Reference(s, span) => TokenView::Reference(s@, *span),
            Token::Function(s, span) => TokenView::Function(s@, *span),
            Token::Semicolon(s, span) => TokenView::Semicolon(s@, *span),
            Token::EOF => TokenView::EOF,
        }
    }
}

/// Whether a token is the bracket or the operator with the text `expected`.
pub open spec fn token_is(token: TokenView, expected: Seq<char>) -> bool {
    match token {
        TokenView::Delim(d, _) => delim_text(d) == expected,
        TokenView::Operator(op, _) => op == expected,
        _ => false,
    }
}

/// Whether a token is an operator whose name is in `names`.
pub open spec fn operator_in<V>(token: TokenView, names: Map<Seq<char>, V>) -> bool {
    token matches TokenView::Operator(op, _) && names.contains_key(op)
}

/// The text that a token shows.
pub open spec fn token_text(token: TokenView) -> Seq<char> {
    match token {
        TokenView::Operator(s, _) => s,
        TokenView::Number(n, _) => decimal_text(n),
        TokenView::Comma(s, _) => s,
        TokenView::Bool(b, _) => if b {
            "true"@
        } else {
            "false"@
        },
        TokenView::String(s, _) => s,
        TokenView::Reference(s, _) => s,
        TokenView::Function(s, _) => s,
        TokenView::Semicolon(s, _) => s,
        TokenView::Delim(d, _) => delim_text(d),
        TokenView::EOF => "EOF"@,
    }
}

/// Whether `token` is the bracket or the operator with the text `expected`.
pub fn check_op(token: &Token, expected: &str) -> (r: bool)
    ensures
        r == token_is(token@, expected@),
{
    match token {
        Token::Delim(op, _) => {
            let text = op.string();
            same_text(text.as_str(), expected)
        },
        Token::Operator(op, _) => same_text(op.as_str(), expected),
        _ => false,
    }
}

impl Clone for Token {
    fn clone(&self) -> (r: Token)
        ensures
            r@ == self@,
    {
        match self {
            Token::Operator(s, span) => Token::Operator(s.clone(), *span),
            Token::Delim(d, span) => Token::Delim(*d, *span),
            Token::Number(n, span) => Token::Number(*n, *span),
            Token::Comma(s, span) => Token::Comma(s.clone(), *span),
            Token::Bool(b, span) => Token::Bool(*b, *span),
            Token::String(s, span) => Token::String(s.clone(), *span),
            Token::Reference(s, span) => Token::Reference(s.clone(), *span),
            Token::Function(s, span) => Token::Function(s.clone(), *span),
            Token::Semicolon(s, span) => Token::Semicolon(s.clone(), *span),
            Token::EOF => Token::EOF,
        }
    }
}

impl Token {
    pub fn is_open_paren(&self) -> (r: bool)
        ensures
            r == token_is(self@, "("@),
    {
        check_op(self, "(")
    }

    pub fn is_close_paren(&self) -> (r: bool)
        ensures
            r == token_is(self@, ")"@),
    {
        check_op(self, ")")
    }

    pub fn is_open_bracket(&self) -> (r: bool)
        ensures
            r == token_is(self@, "["@),
    {
        check_op(self, "[")
    }

    pub fn is_close_bracket(&self) -> (r: bool)
        ensures
            r == token_is(self@, "]"@),
    {
        check_op(self, "]")
    }

    pub fn is_open_brace(&self) -> (r: bool)
        ensures
            r == token_is(self@, "{"@),
    {
        check_op(self, "{")
    }

    pub fn is_close_brace(&self) -> (r: bool)
        ensures
            r == token_is(self@, "}"@),
    {
        check_op(self, "}")
    }

    pub fn is_question_mark(&self) -> (r: bool)
        ensures
            r == token_is(self@, "?"@),
    {
        check_op(self, "?")
    }

    pub fn is_colon(&self) -> (r: bool)
        ensures
            r == token_is(self@, ":"@),
    {
        check_op(self, ":")
    }

    pub fn is_eof(&self) -> (r: bool)
        ensures
            r == (self@ is EOF),
    {
        match self {
            Token::EOF => true,
            _ => false,
        }
    }

    pub fn is_op_token(&self) -> (r: bool)
        ensures
            r == (self@ is Operator),
    {
        match self {
            Token::Operator(_, _) => true,
            _ => false,
        }
    }

    /// Whether this token is an operator that the registry holds as a
    /// postfix operator.
    pub fn is_postfix_op_token(&self, registry: &Registry) -> (r: bool)
        ensures
            r == operator_in(self@, registry@.postfix),
    {
        match self {
            Token::Operator(op, _) => registry.postfix.exist(op.as_str()),
            _ => false,
        }
    }

    /// Whether this token is an operator that the registry holds as an infix
    /// operator.
    pub fn is_binop_token(&self, registry: &Registry) -> (r: bool)
        ensures
            r == operator_in(self@, registry@.infix),
    {
        match self {
            Token::Operator(op, _) => registry.infix.exist(op.as_str()),
            _ => false,
        }
    }

    pub fn is_not_token(&self) -> (r: bool)
        ensures
            r == (self@ matches TokenView::Operator(op, _) && op == "not"@),
    {
        match self {
            Token::Operator(op, _) => same_text(op.as_str(), "not"),
            _ => false,
        }
    }

    pub fn is_semicolon(&self) -> (r: bool)
        ensures
            r == (self@ is Semicolon),
    {
        match self {
            Token::Semicolon(_, _) => true,
            _ => false,
        }
    }

    /// The text that this token shows.
    pub fn string(&self) -> (s: String)
        ensures
            s@ == token_text(self@),
    {
        match self {
            Token::Operator(op, _) => op.clone(),
            Token::Number(val, _) => val.to_text(),
            Token::Comma(val, _) => val.clone(),
            Token::Bool(val, _) => if *val {
                String::from_str("true")
            } else {
                String::from_str("false")
            },
            Token::String(val, _) => val.clone(),
            Token::Reference(val, _) => val.clone(),
            Token::Function(val, _) => val.clone(),
            Token::Semicolon(val, _) => val.clone(),
            Token::Delim(ty, _) => ty.string(),
            Token::EOF => String::from_str("EOF"),
        }
    }
}

} // verus!
