//! The node's configuration: logging, server role and sizing, and how
//! the PKI is reached.  The text-format loader lives in the surrounding
//! program; these are the plain values the library works with.

use vstd::prelude::*;

verus! {

/// Logging destination and verbosity.
#[derive(Clone, Debug)]
pub struct Logging {
    pub disable: bool,
    pub log_file: String,
    pub level: String,
}

/// The node's identity, addresses, role, worker counts, and the two
/// tuning values the packet pipeline needs: the expected line rate for
/// replay-cache sizing and the crypto workers' dwell-time slack.
#[derive(Clone, Debug)]
pub struct Server {
    pub identifier: String,
    pub addresses: Vec<String>,
    pub data_dir: String,
    pub is_provider: bool,
    pub num_wire_workers: u16,
    pub num_crypto_workers: u16,
    pub line_rate: u64,
    pub crypto_worker_slack_time: u64,
}

/// A single non-voting PKI authority.
#[derive(Clone, Debug)]
pub struct Nonvoting {
    pub address: String,
    pub public_key: String,
}

/// One voting PKI peer.
#[derive(Clone, Debug)]
pub struct Peer {
    pub addresses: Vec<String>,
    pub identity_public_key: String,
    pub link_public_key: String,
}

/// The voting-authority PKI mode.
#[derive(Clone, Debug)]
pub struct Voting {
    pub epoch_duration: u64,
    pub peers: Vec<Peer>,
}

/// Which PKI mode the node runs in.
#[derive(Clone, Debug)]
pub struct Pki {
    pub nonvoting: Option<Nonvoting>,
    pub voting: Option<Voting>,
}

/// The whole configuration file.
#[derive(Clone, Debug)]
pub struct Config {
    pub logging: Logging,
    pub server: Server,
    pub pki: Pki,
}

} // verus!
