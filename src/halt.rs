use vstd::prelude::*;

use crate::numeric::{Query, QueryView};
use crate::parser::{datum_of, Datum, Expression};

verus! {

/// Why parsing or evaluation failed.
#[derive(Debug, PartialEq)]
pub enum Failure {
    /// The text does not start with an open parenthesis.
    ExpectedOpenParen,
    /// The tokens ran out before the matching close parenthesis.
    UnexpectedEnd,
    UndefinedSymbol(String),
    UndefinedProcedure(String),
    /// A list to apply is empty or not headed by a symbol.
    ExpectedSymbol,
    InvalidDefine,
    InvalidIf,
    /// An `if` condition evaluated to something other than a boolean.
    InvalidCondition,
    /// A procedure parameter that is not a symbol.
    InvalidParameter,
    /// An operator argument that is not a number.
    NotANumber,
    /// An operator called with a number of arguments it does not take.
    WrongArity,
    DivideByZero,
    /// Nesting went deeper than the evaluator allows.
    TooDeep,
}

/// Why a computation stopped without a result: it needs a numeric fact from
/// the host, or it failed.
#[derive(Debug, PartialEq)]
pub enum Halt {
    Needs(Query),
    Failed(Failure),
}

/// The model of a `Failure`.
pub enum FailureView {
    ExpectedOpenParen,
    UnexpectedEnd,
    UndefinedSymbol(Seq<char>),
    UndefinedProcedure(Seq<char>),
    ExpectedSymbol,
    InvalidDefine,
    InvalidIf,
    InvalidCondition,
    InvalidParameter,
    NotANumber,
    WrongArity,
    DivideByZero,
    TooDeep,
}

/// The model of a `Halt`.
pub enum HaltView {
    Needs(QueryView),
    Failed(FailureView),
}

impl View for Failure {
    type V = FailureView;

    open spec fn view(&self) -> FailureView {
        match self {
            Failure::ExpectedOpenParen => FailureView::ExpectedOpenParen,
            Failure::UnexpectedEnd => FailureView::UnexpectedEnd,
            Failure::UndefinedSymbol(s) => FailureView::UndefinedSymbol(s@),
            Failure::UndefinedProcedure(s) => FailureView::UndefinedProcedure(s@),
            Failure::ExpectedSymbol => FailureView::ExpectedSymbol,
            Failure::InvalidDefine => FailureView::InvalidDefine,
            Failure::InvalidIf => FailureView::InvalidIf,
            Failure::InvalidCondition => FailureView::InvalidCondition,
            Failure::InvalidParameter => FailureView::InvalidParameter,
            Failure::NotANumber => FailureView::NotANumber,
            Failure::WrongArity => FailureView::WrongArity,
            Failure::DivideByZero => FailureView::DivideByZero,
            Failure::TooDeep => FailureView::TooDeep,
        }
    }
}

impl View for Halt {
    type V = HaltView;

    open spec fn view(&self) -> HaltView {
        match self {
            Halt::Needs(q) => HaltView::Needs(q@),
            Halt::Failed(f) => HaltView::Failed(f@),
        }
    }
}

/// `r` is the outcome that the model `s` describes.
pub open spec fn produces(r: Result<Expression, Halt>, s: Result<Datum, HaltView>) -> bool {
    match r {
        Ok(e) => s == Ok::<Datum, HaltView>(datum_of(e)),
        Err(h) => s == Err::<Datum, HaltView>(h@),
    }
}

} // verus!
