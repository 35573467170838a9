//! Input/output failures as plain data.
use vstd::prelude::*;

verus! {

/// Kind of an input/output failure, as far as the servers tell kinds apart.
#[derive(Debug, Clone, Copy, PartialEq, Eq, Structural)]
pub enum IoErrorKind {
    NotFound,
    InvalidData,
    UnexpectedEof,
    BrokenPipe,
    ConnectionAborted,
    ConnectionReset,
    Other,
}

/// An input/output failure.
#[derive(Debug)]
pub struct IoError {
    pub kind: IoErrorKind,
    pub message: String,
}

/// What an [`IoError`] stands for.
pub struct IoErrorView {
    pub kind: IoErrorKind,
    pub message: Seq<char>,
}

impl View for IoError {
    type V = IoErrorView;

    open spec fn view(&self) -> IoErrorView {
        IoErrorView { kind: self.kind, message: self.message@ }
    }
}

impl IoError {
    /// A failure of a kind, with a message.
    pub fn new(kind: IoErrorKind, message: &str) -> (e: Self)
        ensures
            e@ == (IoErrorView { kind, message: message@ }),
    {
        IoError { kind, message: message.to_owned() }
    }

    /// The kind.
    pub fn kind(&self) -> (kind: IoErrorKind)
        ensures
            kind == self@.kind,
    {
        self.kind
    }

    /// The message.
    pub fn message(&self) -> (text: &str)
        ensures
            text@ == self@.message,
    {
        self.message.as_str()
    }
}

} // verus!
