//! Canonical 32-byte commitments for cross-chain messages.
//!
//! A message is encoded into three byte preimages with a fixed tuple
//! encoding, each preimage and the raw payload is digested with Keccak-256,
//! and the digests are combined under a domain separator into the final
//! commitment. Every function states its result over mathematical models
//! (`Seq<u8>`, `nat`) and is proved against them.

pub mod encoding;
pub mod error;
pub mod extra_args;
pub mod hasher;
pub mod injective;
pub mod keccak;
pub mod laws;
pub mod message;
pub mod preimage;
pub mod source_poller;
pub mod word;
