//! Resolution of a version-control revision hash.
//!
//! The library validates and parses the output of a revision query
//! (forty hexadecimal characters naming twenty bytes) into a [`hash::Hash`],
//! and offers two projections of that hash: a lowercase hexadecimal string
//! and the most significant eight bytes as a big-endian 64-bit integer.
//! Running the external command itself is left to the caller, who hands
//! the observed [`resolve::CommandOutcome`] to [`resolve::resolve`].

pub mod hash;
pub mod hex;
pub mod resolve;
