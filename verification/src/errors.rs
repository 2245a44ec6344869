//! The error taxonomy of the engine. `NotFound` is an unknown session,
//! prompt or checkpoint; `InvalidState` a rewind mode the available data
//! cannot support; `IoFailure` a spawn/read/write error reported by the
//! shell; `ProtocolError` a malformed JSON-RPC exchange or a request
//! timeout; `GitFailure` a failed git operation. User-facing text
//! distinguishes the expected-and-explained from the unexpected.

use vstd::prelude::*;

verus! {

#[derive(Debug)]
pub enum CoreError {
    NotFound(String),
    InvalidState(String),
    IoFailure(String),
    ProtocolError(String),
    GitFailure(String),
}

impl CoreError {
    /// The message carried by the error, whatever its kind.
    pub open spec fn message_view(&self) -> Seq<char> {
        match self {
            CoreError::NotFound(m) => m@,
            CoreError::InvalidState(m) => m@,
            CoreError::IoFailure(m) => m@,
            CoreError::ProtocolError(m) => m@,
            CoreError::GitFailure(m) => m@,
        }
    }

    /// The message carried by the error.
    pub fn message(&self) -> (r: &String)
        ensures
            r@ == self.message_view(),
    {
        match self {
            CoreError::NotFound(m) => m,
            CoreError::InvalidState(m) => m,
            CoreError::IoFailure(m) => m,
            CoreError::ProtocolError(m) => m,
            CoreError::GitFailure(m) => m,
        }
    }
}

} // verus!
