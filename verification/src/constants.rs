//! Deployment constants shared by the packet pipeline and the key store.

use vstd::prelude::*;

verus! {

/// Size in bytes of a Sphinx packet ciphertext.  Every packet entering the
/// node must have exactly this length.
pub const SPHINX_PACKET_SIZE: usize = 2413;

/// Size in bytes of the replay-detection tag produced by a Sphinx unwrap.
pub const SPHINX_REPLAY_TAG_SIZE: usize = 32;

/// Size in bytes of an X25519 private or public key.
pub const KEY_SIZE: usize = 32;

/// Tolerance in seconds at epoch boundaries during which packets keyed to
/// the adjacent epoch are still accepted.
pub const GRACE_PERIOD: u64 = 600;

/// Number of epochs for which mix keys are retained: previous, current, next.
pub const NUM_MIX_KEYS: u64 = 3;

/// How often, in milliseconds, the replay store's writeback cache is flushed.
pub const FLUSH_FREQUENCY: u64 = 10000;

} // verus!
