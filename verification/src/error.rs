//! Errors: what can go wrong while a program is parsed or run.
use vstd::prelude::*;
use crate::statement::{Statement, StatementView};
use crate::value::{Value, ValueView};

verus! {

/// The mathematical model of an error kind.
pub enum ErrorKindView {
    UnknownVariable(Seq<char>),
    UnexpectedType(Seq<char>, ValueView),
    IndexOutOfBounds(ValueView, i32),
    IndexUnindexable(ValueView),
    IOError(Seq<char>),
    BudgetExhausted,
}

/// What went wrong while an expression was evaluated or a statement executed.
#[derive(Debug, PartialEq, Eq)]
pub enum ErrorKind {
    /// The name has no binding.
    UnknownVariable(String),
    /// A value was not of the expected kind: the kind's name, and the value.
    UnexpectedType(String, Value),
    /// An index was outside a list or string: the list or string, and the index.
    IndexOutOfBounds(Value, i32),
    /// A value that is neither a list nor a string was indexed or measured.
    IndexUnindexable(Value),
    /// A line of input could not be read.
    IOError(String),
    /// The loop budget ran out before a loop ended.
    BudgetExhausted,
}

impl View for ErrorKind {
    type V = ErrorKindView;

    open spec fn view(&self) -> ErrorKindView {
        match self {
            ErrorKind::UnknownVariable(name) => ErrorKindView::UnknownVariable(name@),
            ErrorKind::UnexpectedType(expected, v) => ErrorKindView::UnexpectedType(expected@, v@),
            ErrorKind::IndexOutOfBounds(v, i) => ErrorKindView::IndexOutOfBounds(v@, *i),
            ErrorKind::IndexUnindexable(v) => ErrorKindView::IndexUnindexable(v@),
            ErrorKind::IOError(reason) => ErrorKindView::IOError(reason@),
            ErrorKind::BudgetExhausted => ErrorKindView::BudgetExhausted,
        }
    }
}

/// The mathematical model of an error.
pub struct ErrorView {
    pub kind: ErrorKindView,
    pub place: StatementView,
}

/// An error, with the statement that was executing when it arose.
#[derive(Debug, PartialEq, Eq)]
pub struct Error {
    pub kind: ErrorKind,
    pub place: Statement,
}

impl View for Error {
    type V = ErrorView;

    open spec fn view(&self) -> ErrorView {
        ErrorView { kind: self.kind@, place: self.place@ }
    }
}

impl Error {
    /// An error of the given kind that arose in the given statement.
    pub fn new(kind: ErrorKind, place: Statement) -> (r: Error)
        ensures
            r.kind == kind,
            r.place == place,
    {
        Error { kind, place }
    }
}

/// A failure to parse: the text does not follow the grammar from `position` on.
#[derive(Debug, PartialEq, Eq, Clone, Copy)]
pub struct ParseError {
    /// The number of characters of the text that were parsed.
    pub position: usize,
}

/// The result of evaluating an expression.
pub type SwResult<T> = Result<T, ErrorKind>;

/// The result of executing a statement.
pub type SwErResult<T> = Result<T, Error>;

/// The model of the result of an evaluation.
pub open spec fn value_result(r: Result<Value, ErrorKind>) -> Result<ValueView, ErrorKindView> {
    match r {
        Ok(v) => Ok(v@),
        Err(e) => Err(e@),
    }
}

/// The model of a result whose success holds a plain value.
pub open spec fn plain_result<T>(r: Result<T, ErrorKind>) -> Result<T, ErrorKindView> {
    match r {
        Ok(v) => Ok(v),
        Err(e) => Err(e@),
    }
}

/// The model of the result of an execution.
pub open spec fn run_result(r: Result<(), Error>) -> Result<(), ErrorView> {
    match r {
        Ok(_) => Ok(()),
        Err(e) => Err(e@),
    }
}

} // verus!
