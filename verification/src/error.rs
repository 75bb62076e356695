//! Typed failures of the coordination core.
//!
//! Every verb returns a tagged result: `NotFound` when the target id does
//! not exist at all, `PreconditionFailed` when the id exists but the
//! required current-state predicate did not hold (the dominant class: the
//! other side of a lost race), `ValidationError` for malformed input, and
//! `BackendUnavailable` for a transport or storage failure, with the
//! underlying cause preserved for diagnostics.

use vstd::prelude::*;

verus! {

#[derive(Clone, Copy, PartialEq, Eq, Structural, Debug)]
pub enum ErrorKind {
    NotFound,
    PreconditionFailed,
    ValidationError,
    BackendUnavailable,
}

#[derive(Debug)]
pub struct Error {
    kind: ErrorKind,
    message: String,
    cause: Option<String>,
}

#[verifier::ext_equal]
pub ghost struct ErrorView {
    pub kind: ErrorKind,
    pub message: Seq<char>,
    pub cause: Option<Seq<char>>,
}

impl View for Error {
    type V = ErrorView;

    closed spec fn view(&self) -> ErrorView {
        ErrorView { kind: self.kind, message: self.message@, cause: self.cause.deep_view() }
    }
}

impl Clone for Error {
    fn clone(&self) -> (r: Self)
        ensures
            r@ == self@,
    {
        Error { kind: self.kind, message: self.message.clone(), cause: self.cause.clone() }
    }
}

impl Error {
    /// A backend failure with the given message and no cause.
    pub fn new(message: &str) -> (r: Self)
        ensures
            r@ == (ErrorView {
                kind: ErrorKind::BackendUnavailable,
                message: message@,
                cause: None,
            }),
    {
        Error { kind: ErrorKind::BackendUnavailable, message: message.to_owned(), cause: None }
    }

    /// The same error with a cause attached, preserved for diagnostics.
    pub fn with_cause(self, cause: &str) -> (r: Self)
        ensures
            r@ == (ErrorView { cause: Some(cause@), ..self@ }),
    {
        Error { kind: self.kind, message: self.message, cause: Some(cause.to_owned()) }
    }

    /// A precondition failure: the target exists but its current state did
    /// not satisfy the verb's predicate.
    pub fn msg(msg: &str) -> (r: Self)
        ensures
            r@ == (ErrorView {
                kind: ErrorKind::PreconditionFailed,
                message: msg@,
                cause: None,
            }),
    {
        Error { kind: ErrorKind::PreconditionFailed, message: msg.to_owned(), cause: None }
    }

    /// A backend failure carrying an underlying error's own text as its
    /// message.
    pub fn from_error(err: &str) -> (r: Self)
        ensures
            r@ == (ErrorView { kind: ErrorKind::BackendUnavailable, message: err@, cause: None }),
    {
        Error { kind: ErrorKind::BackendUnavailable, message: err.to_owned(), cause: None }
    }

    /// A backend failure with the given message and an underlying error as
    /// its cause.
    pub fn wrap(err: &str, msg: &str) -> (r: Self)
        ensures
            r@ == (ErrorView {
                kind: ErrorKind::BackendUnavailable,
                message: msg@,
                cause: Some(err@),
            }),
    {
        Error {
            kind: ErrorKind::BackendUnavailable,
            message: msg.to_owned(),
            cause: Some(err.to_owned()),
        }
    }

    /// An error of an explicitly chosen kind.
    pub fn tagged(kind: ErrorKind, message: &str) -> (r: Self)
        ensures
            r@ == (ErrorView { kind, message: message@, cause: None }),
    {
        Error { kind, message: message.to_owned(), cause: None }
    }

    pub fn kind(&self) -> (k: ErrorKind)
        ensures
            k == self@.kind,
    {
        self.kind
    }

    /// The human-readable reason.
    pub fn text(&self) -> (r: String)
        ensures
            r@ == self@.message,
    {
        self.message.clone()
    }

    /// The preserved underlying cause, if any.
    pub fn cause_text(&self) -> (r: Option<String>)
        ensures
            r.deep_view() == self@.cause,
    {
        self.cause.clone()
    }
}

} // verus!
