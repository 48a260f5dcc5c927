//! The errors with which the engine refuses an operation.

use vstd::prelude::*;
use vstd::string::*;

verus! {

/// Why an operation was refused.
#[derive(Clone, Copy, Debug, PartialEq, Eq, Structural)]
pub enum ErrorKind {
    /// A task, relationship, relationship type, template or group that was
    /// referred to does not exist.
    NotFound,
    /// A structural rule does not hold of the request.
    Validation,
    /// The operation is not allowed on this row, or a blocking
    /// relationship vetoes the transition.
    Forbidden,
    /// Stored text does not have the expected form.
    Deserialization,
}

/// A refusal: its kind, and a message for the caller.
#[derive(Debug)]
pub struct EngineError {
    pub kind: ErrorKind,
    pub message: String,
}

/// The mathematical value of an [`EngineError`].
pub struct EngineErrorView {
    pub kind: ErrorKind,
    pub message: Seq<char>,
}

impl View for EngineError {
    type V = EngineErrorView;

    open spec fn view(&self) -> EngineErrorView {
        EngineErrorView { kind: self.kind, message: self.message@ }
    }
}

impl DeepView for EngineError {
    type V = EngineErrorView;

    open spec fn deep_view(&self) -> EngineErrorView {
        self@
    }
}

/// The view of an error of the given kind with the given message.
pub open spec fn refusal(kind: ErrorKind, message: Seq<char>) -> EngineErrorView {
    EngineErrorView { kind, message }
}

impl ErrorKind {
    /// The label under which the kind is shown.
    pub open spec fn label(self) -> Seq<char> {
        match self {
            ErrorKind::NotFound => "not found"@,
            ErrorKind::Validation => "validation error"@,
            ErrorKind::Forbidden => "forbidden"@,
            ErrorKind::Deserialization => "deserialization error"@,
        }
    }

    /// The label under which the kind is shown.
    pub fn as_str(&self) -> (s: &'static str)
        ensures
            s@ == self.label(),
    {
        match self {
            ErrorKind::NotFound => "not found",
            ErrorKind::Validation => "validation error",
            ErrorKind::Forbidden => "forbidden",
            ErrorKind::Deserialization => "deserialization error",
        }
    }
}

impl EngineError {
    /// A refusal of the given kind with the given message.
    pub fn new(kind: ErrorKind, message: &str) -> (e: EngineError)
        ensures
            e@ == refusal(kind, message@),
    {
        EngineError { kind, message: message.to_owned() }
    }

    /// A refusal because something that was referred to does not exist.
    pub fn not_found(message: &str) -> (e: EngineError)
        ensures
            e@ == refusal(ErrorKind::NotFound, message@),
    {
        EngineError::new(ErrorKind::NotFound, message)
    }

    /// A refusal because a structural rule does not hold.
    pub fn validation(message: &str) -> (e: EngineError)
        ensures
            e@ == refusal(ErrorKind::Validation, message@),
    {
        EngineError::new(ErrorKind::Validation, message)
    }

    /// A refusal because the operation is not allowed.
    pub fn forbidden(message: &str) -> (e: EngineError)
        ensures
            e@ == refusal(ErrorKind::Forbidden, message@),
    {
        EngineError::new(ErrorKind::Forbidden, message)
    }

    /// A refusal because stored text does not have the expected form.
    pub fn deserialization(message: &str) -> (e: EngineError)
        ensures
            e@ == refusal(ErrorKind::Deserialization, message@),
    {
        EngineError::new(ErrorKind::Deserialization, message)
    }

    /// The kind's label, a colon and the message.
    pub fn to_string(&self) -> (s: String)
        ensures
            s@ == self.kind.label() + ": "@ + self.message@,
    {
        let mut s = String::from_str(self.kind.as_str());
        s.append(": ");
        s.append(self.message.as_str());
        s
    }
}

impl Clone for EngineError {
    fn clone(&self) -> (e: Self)
        ensures
            e@ == self@,
    {
        EngineError { kind: self.kind, message: self.message.clone() }
    }
}

} // verus!
