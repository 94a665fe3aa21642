//! Clipboard mirroring between a Wayland compositor and the Windows clipboard:
//! the bounded wire protocol, text normalization and the synchronization state.

use vstd::prelude::*;

pub mod agent;
pub mod broker;
pub mod error;
pub mod le;
pub mod pipe;
pub mod protocol;
pub mod selection;
pub mod session;
pub mod state;
pub mod status;
pub mod strings;
pub mod text;
pub mod wayland;

verus! {

/// Version of the broker/agent wire protocol.
pub const PROTOCOL_VERSION: u16 = 3;

/// Largest clipboard text, in UTF-8 bytes, that either side forwards.
pub const MAX_TEXT_BYTES: usize = 16777216;

} // verus!
