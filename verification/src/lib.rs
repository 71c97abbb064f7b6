//! Test-vector generation for a light-client bridge of the Mel blockchain:
//! hashing, ed25519 signing, stdcode serialization of headers, stake documents
//! and transactions, and their ABI-style hex framing.

pub mod hexcode;
pub mod abi;
pub mod model;
pub mod encoding;
pub mod crypto;
pub mod random;
pub mod generate;
pub mod vectors;
pub mod consensus;
pub mod parse;
pub mod layout;
