use vstd::prelude::*;

verus! {

/// Every way in which lexing, parsing or evaluation can fail.
#[derive(Debug, PartialEq)]
pub enum Error {
    InvalidNumber(String),
    UnexpectedEOF(usize),
    UnterminatedString(usize),
    InvalidBool(usize),
    NotSupportedChar(usize, char),
    ReferenceNotExist(String),
    FunctionNotExist(String),
    NotSupportedOp(String),
    BinaryOpNotRegistered(String),
    UnaryOpNotRegistered(String),
    InnerFunctionNotRegistered(String),
    ShouldBeNumber(),
    ShouldBeBool(),
    ShouldBeList(),
    ParamInvalid(),
    ShouldBeString(),
    InvalidTernaryExprNeedColon(),
    ExpectedOpNotExist(String),
    ExpectBinOpToken,
    WrongContextValueType(),
    UnexpectedToken(),
    NotReferenceExpr,
    NoOpenDelim,
    NoCloseDelim,
    InvalidOp(String),
    InvalidInteger,
    InvalidFloat,
    DivideByZero,
    NumberOverflow,
}

/// The mathematical content of an [`Error`]: texts are sequences of
/// characters, offsets are integers.
pub enum ErrorView {
    InvalidNumber(Seq<char>),
    UnexpectedEOF(int),
    UnterminatedString(int),
    InvalidBool(int),
    NotSupportedChar(int, char),
    ReferenceNotExist(Seq<char>),
    FunctionNotExist(Seq<char>),
    NotSupportedOp(Seq<char>),
    BinaryOpNotRegistered(Seq<char>),
    UnaryOpNotRegistered(Seq<char>),
    InnerFunctionNotRegistered(Seq<char>),
    ShouldBeNumber,
    ShouldBeBool,
    ShouldBeList,
    ParamInvalid,
    ShouldBeString,
    InvalidTernaryExprNeedColon,
    ExpectedOpNotExist(Seq<char>),
    ExpectBinOpToken,
    WrongContextValueType,
    UnexpectedToken,
    NotReferenceExpr,
    NoOpenDelim,
    NoCloseDelim,
    InvalidOp(Seq<char>),
    InvalidInteger,
    InvalidFloat,
    DivideByZero,
    NumberOverflow,
}

impl View for Error {
    type V = ErrorView;

    open spec fn view(&self) -> ErrorView {
        match self {
            Error::InvalidNumber(s) => ErrorView::InvalidNumber(s@),
            Error::UnexpectedEOF(at) => ErrorView::UnexpectedEOF(*at as int),
            Error::UnterminatedString(at) => ErrorView::UnterminatedString(*at as int),
            Error::InvalidBool(at) => ErrorView::InvalidBool(*at as int),
            Error::NotSupportedChar(at, ch) => ErrorView::NotSupportedChar(*at as int, *ch),
            Error::ReferenceNotExist(s) => ErrorView::ReferenceNotExist(s@),
            Error::FunctionNotExist(s) => ErrorView::FunctionNotExist(s@),
            Error::NotSupportedOp(s) => ErrorView::NotSupportedOp(s@),
            Error::BinaryOpNotRegistered(s) => ErrorView::BinaryOpNotRegistered(s@),
            Error::UnaryOpNotRegistered(s) => ErrorView::UnaryOpNotRegistered(s@),
            Error::InnerFunctionNotRegistered(s) => ErrorView::InnerFunctionNotRegistered(s@),
            Error::ShouldBeNumber() => ErrorView::ShouldBeNumber,
            Error::ShouldBeBool() => ErrorView::ShouldBeBool,
            Error::ShouldBeList() => ErrorView::ShouldBeList,
            Error::ParamInvalid() => ErrorView::ParamInvalid,
            Error::ShouldBeString() => ErrorView::ShouldBeString,
            Error::InvalidTernaryExprNeedColon() => ErrorView::InvalidTernaryExprNeedColon,
            Error::ExpectedOpNotExist(s) => ErrorView::ExpectedOpNotExist(s@),
            Error::ExpectBinOpToken => ErrorView::ExpectBinOpToken,
            Error::WrongContextValueType() => ErrorView::WrongContextValueType,
            Error::UnexpectedToken() => ErrorView::UnexpectedToken,
            Error::NotReferenceExpr => ErrorView::NotReferenceExpr,
            Error::NoOpenDelim => ErrorView::NoOpenDelim,
            Error::NoCloseDelim => ErrorView::NoCloseDelim,
            Error::InvalidOp(s) => ErrorView::InvalidOp(s@),
            Error::InvalidInteger => ErrorView::InvalidInteger,
            Error::InvalidFloat => ErrorView::InvalidFloat,
            Error::DivideByZero => ErrorView::DivideByZero,
            Error::NumberOverflow => ErrorView::NumberOverflow,
        }
    }
}

/// The five groups into which the failures fall.
#[derive(Debug, PartialEq, Eq, Structural, Clone, Copy)]
pub enum ErrorGroup {
    Lexical,
    Syntactic,
    Resolution,
    Type,
    Arithmetic,
}

/// The group of a failure, stated over its view.
pub open spec fn group_of(e: ErrorView) -> ErrorGroup {
    match e {
        ErrorView::InvalidNumber(_) => ErrorGroup::Lexical,
        ErrorView::UnexpectedEOF(_) => ErrorGroup::Lexical,
        ErrorView::UnterminatedString(_) => ErrorGroup::Lexical,
        ErrorView::InvalidBool(_) => ErrorGroup::Lexical,
        ErrorView::NotSupportedChar(_, _) => ErrorGroup::Lexical,
        ErrorView::InvalidTernaryExprNeedColon => ErrorGroup::Syntactic,
        ErrorView::ExpectedOpNotExist(_) => ErrorGroup::Syntactic,
        ErrorView::ExpectBinOpToken => ErrorGroup::Syntactic,
        ErrorView::UnexpectedToken => ErrorGroup::Syntactic,
        ErrorView::NoOpenDelim => ErrorGroup::Syntactic,
        ErrorView::NoCloseDelim => ErrorGroup::Syntactic,
        ErrorView::ReferenceNotExist(_) => ErrorGroup::Resolution,
        ErrorView::FunctionNotExist(_) => ErrorGroup::Resolution,
        ErrorView::NotSupportedOp(_) => ErrorGroup::Resolution,
        ErrorView::BinaryOpNotRegistered(_) => ErrorGroup::Resolution,
        ErrorView::UnaryOpNotRegistered(_) => ErrorGroup::Resolution,
        ErrorView::InnerFunctionNotRegistered(_) => ErrorGroup::Resolution,
        ErrorView::NotReferenceExpr => ErrorGroup::Resolution,
        ErrorView::InvalidOp(_) => ErrorGroup::Resolution,
        ErrorView::ShouldBeNumber => ErrorGroup::Type,
        ErrorView::ShouldBeBool => ErrorGroup::Type,
        ErrorView::ShouldBeList => ErrorGroup::Type,
        ErrorView::ShouldBeString => ErrorGroup::Type,
        ErrorView::ParamInvalid => ErrorGroup::Type,
        ErrorView::WrongContextValueType => ErrorGroup::Type,
        ErrorView::InvalidInteger => ErrorGroup::Type,
        ErrorView::InvalidFloat => ErrorGroup::Type,
        ErrorView::DivideByZero => ErrorGroup::Arithmetic,
        ErrorView::NumberOverflow => ErrorGroup::Arithmetic,
    }
}

impl Error {
    /// The group this failure belongs to.
    pub fn group(&self) -> (g: ErrorGroup)
        ensures
            g == group_of(self@),
    {
        match self {
            Error::InvalidNumber(_) | Error::UnexpectedEOF(_) | Error::UnterminatedString(_)
            | Error::InvalidBool(_) | Error::NotSupportedChar(_, _) => ErrorGroup::Lexical,
            Error::InvalidTernaryExprNeedColon() | Error::ExpectedOpNotExist(_)
            | Error::ExpectBinOpToken | Error::UnexpectedToken() | Error::NoOpenDelim
            | Error::NoCloseDelim => ErrorGroup::Syntactic,
            Error::ReferenceNotExist(_) | Error::FunctionNotExist(_) | Error::NotSupportedOp(_)
            | Error::BinaryOpNotRegistered(_) | Error::UnaryOpNotRegistered(_)
            | Error::InnerFunctionNotRegistered(_) | Error::NotReferenceExpr
            | Error::InvalidOp(_) => ErrorGroup::Resolution,
            Error::ShouldBeNumber() | Error::ShouldBeBool() | Error::ShouldBeList()
            | Error::ShouldBeString() | Error::ParamInvalid() | Error::WrongContextValueType()
            | Error::InvalidInteger | Error::InvalidFloat => ErrorGroup::Type,
            Error::DivideByZero | Error::NumberOverflow => ErrorGroup::Arithmetic,
        }
    }
}

} // verus!
