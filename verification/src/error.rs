//! The errors with which the server answers.

use vstd::prelude::*;

verus! {

/// The kind of an error.
#[derive(Debug, Clone, Copy, PartialEq, Eq, Structural)]
pub enum ErrorKind {
    /// The request asks for something that cannot be.
    InvalidParams,
    /// The request was in order and failed.
    InternalError,
}

/// An error of the server.
#[derive(Debug)]
pub struct McpError {
    pub kind: ErrorKind,
    pub message: String,
}

impl McpError {
    /// Whether the error is of a kind and says a text.
    pub open spec fn says(self, kind: ErrorKind, message: Seq<char>) -> bool {
        self.kind == kind && self.message@ == message
    }

    /// An error in the parameters of a request.
    pub fn invalid_params(message: String) -> (r: McpError)
        ensures
            r.says(ErrorKind::InvalidParams, message@),
    {
        McpError { kind: ErrorKind::InvalidParams, message }
    }

    /// A failure to fulfil a request.
    pub fn internal_error(message: String) -> (r: McpError)
        ensures
            r.says(ErrorKind::InternalError, message@),
    {
        McpError { kind: ErrorKind::InternalError, message }
    }
}

} // verus!
