use vstd::prelude::*;

verus! {

/// Classified failure of a request handler.  The carried text is returned
/// verbatim as the RPC error payload.
#[derive(Debug, Clone, PartialEq, Eq)]
pub enum HandlerError {
    /// The parameters had the wrong shape or type; no registry access was
    /// attempted.
    InvalidParams(String),
    /// A mutation targeted a key that is absent from the registry.
    NotFound(String),
    /// A failure surfaced from within a scoped-access transformation.
    Internal(String),
}

impl HandlerError {
    /// The message text of the error, whichever class it belongs to.
    pub open spec fn message_text(self) -> Seq<char> {
        match self {
            HandlerError::InvalidParams(m) => m@,
            HandlerError::NotFound(m) => m@,
            HandlerError::Internal(m) => m@,
        }
    }

    /// The verbatim message carried by the error.
    pub fn message(&self) -> (r: &String)
        ensures
            r@ == self.message_text(),
    {
        match self {
            HandlerError::InvalidParams(m) => m,
            HandlerError::NotFound(m) => m,
            HandlerError::Internal(m) => m,
        }
    }
}

} // verus!
