//! The errors of evaluation.
use crate::value::{Value, ValueView};
use vstd::prelude::*;

verus! {

/// What can go wrong when a value is evaluated or narrowed.
#[derive(Debug, PartialEq, Eq)]
pub enum Error {
    /// A value of one kind was expected and another was found.
    BadValue { expected: String, got: Value },
    UndefinedVariable(String),
    UndefinedMixin(String),
    UndefinedFunction(String),
    /// A function failed: its name, and why.
    BadCall { name: String, cause: Box<Error> },
    /// The source text could not be read: what was wrong, and where.
    Parse { msg: String, span: usize },
    Unsupported { feature: String },
}

/// The model of an [`Error`].
pub enum ErrorView {
    BadValue { expected: Seq<char>, got: ValueView },
    UndefinedVariable(Seq<char>),
    UndefinedMixin(Seq<char>),
    UndefinedFunction(Seq<char>),
    BadCall { name: Seq<char>, cause: Box<ErrorView> },
    Parse { msg: Seq<char>, span: int },
    Unsupported { feature: Seq<char> },
}

impl Error {
    /// The model of the error.
    pub open spec fn model(&self) -> ErrorView
        decreases self,
    {
        match self {
            Error::BadValue { expected, got } => ErrorView::BadValue {
                expected: expected@,
                got: got@,
            },
            Error::UndefinedVariable(name) => ErrorView::UndefinedVariable(name@),
            Error::UndefinedMixin(name) => ErrorView::UndefinedMixin(name@),
            Error::UndefinedFunction(name) => ErrorView::UndefinedFunction(name@),
            Error::BadCall { name, cause } => ErrorView::BadCall {
                name: name@,
                cause: Box::new(cause.model()),
            },
            Error::Parse { msg, span } => ErrorView::Parse { msg: msg@, span: *span as int },
            Error::Unsupported { feature } => ErrorView::Unsupported { feature: feature@ },
        }
    }

    /// The error for a value that is not of the expected kind.
    pub fn bad_value(expected: &str, got: &Value) -> (e: Error)
        ensures
            e@ == (ErrorView::BadValue { expected: expected@, got: got@ }),
    {
        Error::BadValue { expected: String::from_str(expected), got: got.dup() }
    }

    /// The error for a function that failed.
    pub fn bad_call(name: &str, cause: Error) -> (e: Error)
        ensures
            e@ == (ErrorView::BadCall { name: name@, cause: Box::new(cause@) }),
    {
        Error::BadCall { name: String::from_str(name), cause: Box::new(cause) }
    }
}

impl View for Error {
    type V = ErrorView;

    open spec fn view(&self) -> ErrorView {
        self.model()
    }
}

} // verus!
