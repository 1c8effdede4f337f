//! Error types of the mix server library.

use vstd::prelude::*;

verus! {

/// Errors raised while opening or using a per-epoch mix key and its
/// replay cache.
#[derive(Clone, Copy, Debug, PartialEq, Eq, Structural)]
pub enum MixKeyError {
    /// The durable replay store could not be created or written.
    CreateCacheFailed,
    /// The durable replay store exists but belongs to a different epoch,
    /// or its reserved records are corrupt.
    LoadCacheFailed,
    /// Key material could not be generated or decoded.
    KeyError,
    /// The durable replay store failed while reading or writing.
    IoError,
}

/// Errors raised by the crypto worker while unwrapping one packet.
#[derive(Clone, Copy, Debug, PartialEq, Eq, Structural)]
pub enum UnwrapPacketError {
    /// The worker's key set holds no key for the current epoch.
    NoKey,
    /// The replay cache failed while the tag was being checked or recorded.
    CacheFail,
    /// The packet's replay tag was seen before.
    Replay,
    /// The unwrap primitive failed under every candidate epoch's key.
    UnwrapFailed,
}

/// Errors raised while constructing a packet.
#[derive(Clone, Copy, Debug, PartialEq, Eq, Structural)]
pub enum PacketError {
    /// The input buffer's length is not the Sphinx packet size.
    WrongSize,
}

} // verus!
