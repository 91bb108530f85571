//! Errors of the protocol core.

use vstd::prelude::*;

verus! {

/// Why a codec, router or transport operation failed.
#[derive(Clone, Copy, Debug, PartialEq, Eq, Structural)]
pub enum SocketError {
    /// The packet identifier could not be decoded or has no handler.
    InvalidPacket,
    /// A payload field is truncated or holds an invalid tag or text.
    DecodeError,
    /// The connection is closed.
    TransportError,
    /// The byte buffer could not grow (capacity or allocation failure).
    BufferError,
}

} // verus!
