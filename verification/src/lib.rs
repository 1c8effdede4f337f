//! Core logic of a Sphinx-based mix server: fixed-size packet handling,
//! per-epoch mix keys with a durable replay cache, epoch clock arithmetic,
//! link-command dispatch, and the crypto-worker packet pipeline.

pub mod clock;
pub mod codec;
pub mod commands;
pub mod config;
pub mod constants;
pub mod crypto_worker;
pub mod errors;
pub mod mix_key;
pub mod packet;
pub mod server;
pub mod store;
pub mod wire_worker;
