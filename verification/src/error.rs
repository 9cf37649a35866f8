//! The error that every parser of this crate reports.

use vstd::prelude::*;
use vstd::string::*;

verus! {

/// What was wrong with a flag value.
#[derive(Debug, Clone, Copy, PartialEq, Eq, Structural)]
pub enum ErrorKind {
    /// The package name is missing.
    Usage,
    /// A file flag is not `<source-path>:<dest-path>` with two non-empty parts.
    InvalidFileMapping,
    /// A changelog flag does not have exactly three parts.
    InvalidChangelogEntry,
    /// The date of a changelog flag is no calendar date.
    InvalidDate,
    /// A dependency flag does not follow the constraint grammar.
    InvalidDependencyExpression,
}

/// An error with its kind and a message for the user.
#[derive(Debug, Clone, PartialEq, Eq)]
pub struct AppError {
    pub kind: ErrorKind,
    pub cause: String,
}

/// The mathematical value of an [`AppError`].
pub struct ErrorView {
    pub kind: ErrorKind,
    pub cause: Seq<char>,
}

impl View for AppError {
    type V = ErrorView;

    open spec fn view(&self) -> ErrorView {
        ErrorView { kind: self.kind, cause: self.cause@ }
    }
}

impl AppError {
    /// An error of the given kind with the given message.
    pub fn new(kind: ErrorKind, cause: String) -> (e: AppError)
        ensures
            e@ == (ErrorView { kind, cause: cause@ }),
    {
        AppError { kind, cause }
    }

    /// The message for the user.
    pub fn message(&self) -> (text: String)
        ensures
            text@ == self@.cause,
    {
        self.cause.clone()
    }
}

} // verus!
