use vstd::prelude::*;
use std::io::ErrorKind;

verus! {

/// `std::io::ErrorKind`, carried through as an opaque value.
#[verifier::external_type_specification]
#[verifier::external_body]
pub struct ExErrorKind(ErrorKind);

/// Why a packet could not be written: the kind of I/O error and a message.
pub struct SerializeError {
    error: ErrorKind,
    message: String,
}

impl SerializeError {
    /// The kind of error.
    pub closed spec fn kind(self) -> ErrorKind {
        self.error
    }

    /// The message.
    pub closed spec fn text(self) -> Seq<char> {
        self.message@
    }

    /// An error of kind `error` with `message`.
    pub fn new(error: ErrorKind, message: String) -> (e: SerializeError)
        ensures
            e.kind() == error,
            e.text() == message@,
    {
        SerializeError { error, message }
    }

    /// The kind of error.
    pub fn error_kind(&self) -> (k: ErrorKind)
        ensures
            k == self.kind(),
    {
        self.error
    }

    /// The message.
    pub fn message(&self) -> (m: &String)
        ensures
            m@ == self.text(),
    {
        &self.message
    }
}

/// Why a packet could not be read: the kind of I/O error and a message.
pub struct DeserializeError {
    error: ErrorKind,
    message: String,
}

impl DeserializeError {
    /// The kind of error.
    pub closed spec fn kind(self) -> ErrorKind {
        self.error
    }

    /// The message.
    pub closed spec fn text(self) -> Seq<char> {
        self.message@
    }

    /// An error of kind `error` with `message`.
    pub fn new(error: ErrorKind, message: String) -> (e: DeserializeError)
        ensures
            e.kind() == error,
            e.text() == message@,
    {
        DeserializeError { error, message }
    }

    /// The kind of error.
    pub fn error_kind(&self) -> (k: ErrorKind)
        ensures
            k == self.kind(),
    {
        self.error
    }

    /// The message.
    pub fn message(&self) -> (m: &String)
        ensures
            m@ == self.text(),
    {
        &self.message
    }
}

} // verus!
