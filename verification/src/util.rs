//! The encodings and hashes that a capability is made of.

pub mod base32;
pub mod hashutil;
pub mod netstring;
