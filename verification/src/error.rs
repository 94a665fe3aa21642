//! A transport failure described by plain values, so that the library's error
//! types can carry one.

use vstd::prelude::*;

verus! {

/// The class of a failed read or write on a pipe.
#[derive(Clone, Copy, Debug, PartialEq, Eq, Structural)]
pub enum IoErrorKind {
    UnexpectedEof,
    WouldBlock,
    Interrupted,
    TimedOut,
    InvalidData,
    WriteZero,
    BrokenPipe,
    ConnectionReset,
    Other,
}

/// A failed read or write: its class and its message.
#[derive(Clone, Debug, PartialEq, Eq)]
pub struct IoError {
    pub kind: IoErrorKind,
    pub message: String,
}

} // verus!
