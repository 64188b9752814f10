//! The error that every fallible function of the crate returns.
use vstd::prelude::*;

verus! {

/// The kinds of failure that a run distinguishes.
#[derive(Clone, Copy, Debug, PartialEq, Eq, Structural)]
pub enum ErrorKind {
    /// The data is not what it has to be: bytes that are no text, a document that
    /// does not follow the schema, a title that no file can be named after.
    InvalidData,
    /// A path names a node of the wrong kind.
    InvalidInput,
    /// A path names nothing.
    NotFound,
    /// A path names something that may not be read or written.
    PermissionDenied,
    /// Any other failure of the file system.
    Other,
}

/// A failure: its kind, and the message that tells a reader what failed.
#[derive(Debug, PartialEq, Eq)]
pub struct NoteError {
    pub kind: ErrorKind,
    pub message: String,
}

/// The mathematical value of a [`NoteError`].
pub struct ErrorModel {
    pub kind: ErrorKind,
    pub message: Seq<char>,
}

impl View for NoteError {
    type V = ErrorModel;

    open spec fn view(&self) -> ErrorModel {
        ErrorModel { kind: self.kind, message: self.message@ }
    }
}

impl Clone for NoteError {
    fn clone(&self) -> (r: Self)
        ensures
            r@ == self@,
    {
        NoteError { kind: self.kind, message: self.message.clone() }
    }
}

impl NoteError {
    /// The failure of the given kind with the given message.
    pub fn new(kind: ErrorKind, message: String) -> (r: NoteError)
        ensures
            r@ == (ErrorModel { kind, message: message@ }),
    {
        NoteError { kind, message }
    }

    /// The kind of the failure.
    pub fn kind(&self) -> (r: ErrorKind)
        ensures
            r == self@.kind,
    {
        self.kind
    }

    /// The message, as it is shown to a reader.
    pub fn to_text(&self) -> (r: String)
        ensures
            r@ == self@.message,
    {
        self.message.clone()
    }
}

/// The view of a result whose error is a [`NoteError`].
pub open spec fn text_result(r: Result<String, NoteError>) -> Result<Seq<char>, ErrorModel> {
    match r {
        Ok(text) => Ok(text@),
        Err(e) => Err(e@),
    }
}

} // verus!
