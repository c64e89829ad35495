//! The failures of the evaluator.

use vstd::prelude::*;
use vstd::string::StringExecFns;

verus! {

/// A failure of the evaluator or of a typed accessor.
#[derive(Debug, PartialEq, Eq)]
pub enum Error {
    /// A pop or peek on an empty stack, or too few values for a binding.
    StackError(String),
    /// A value that is not of the kind asked for; holds that kind's name.
    CastError(String),
    /// A name that neither the locals nor the functions know.
    UnknownSymbol(String),
}

/// The mathematical value of an [`Error`].
pub enum ErrorView {
    StackError(Seq<char>),
    CastError(Seq<char>),
    UnknownSymbol(Seq<char>),
}

impl View for Error {
    type V = ErrorView;

    open spec fn view(&self) -> ErrorView {
        match self {
            Error::StackError(m) => ErrorView::StackError(m@),
            Error::CastError(m) => ErrorView::CastError(m@),
            Error::UnknownSymbol(m) => ErrorView::UnknownSymbol(m@),
        }
    }
}

impl Clone for Error {
    fn clone(&self) -> (r: Self)
        ensures
            r@ == self@,
    {
        match self {
            Error::StackError(m) => Error::StackError(m.clone()),
            Error::CastError(m) => Error::CastError(m.clone()),
            Error::UnknownSymbol(m) => Error::UnknownSymbol(m.clone()),
        }
    }
}

/// The text that an error shows to a person.
pub open spec fn message_of(e: ErrorView) -> Seq<char> {
    match e {
        ErrorView::StackError(m) => "Stack error: "@ + m,
        ErrorView::CastError(m) => "Downcast error: expected "@ + m,
        ErrorView::UnknownSymbol(m) => "The symbol `"@ + m + "` is not defined"@,
    }
}

impl Error {
    /// The text that this error shows to a person.
    pub fn message(&self) -> (r: String)
        ensures
            r@ == message_of(self@),
    {
        match self {
            Error::StackError(m) => String::from_str("Stack error: ").concat(m.as_str()),
            Error::CastError(m) => String::from_str("Downcast error: expected ").concat(
                m.as_str(),
            ),
            Error::UnknownSymbol(m) => String::from_str("The symbol `").concat(m.as_str()).concat(
                "` is not defined",
            ),
        }
    }
}

} // verus!
