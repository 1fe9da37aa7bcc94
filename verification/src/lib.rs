//! A verified TCP SYN port scanner engine.
//!
//! The crate builds the scan's target space from registered addresses,
//! CIDR blocks and port ranges, gates transmission through a token-bucket
//! rate limiter, authenticates replies with a keyed cookie embedded in the
//! TCP sequence number, and deduplicates confirmed-open results across
//! retry passes.

pub mod seqs;
pub mod ports;
pub mod hosts;
pub mod parse;
pub mod codec;
pub mod limiter;
pub mod fmt;
pub mod targets;
pub mod sink;
pub mod wire;
pub mod engine;
pub mod outside;
pub mod config;
