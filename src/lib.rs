//! Construction of the genesis state of the Edgeware ledger: key derivation for
//! development networks, decoding of the lockdrop allocation, merging of balance
//! sources and assembly of the complete genesis snapshot for each network profile.

pub mod genesis;
pub mod keys;
pub mod loader;
pub mod merger;
pub mod types;
pub mod validation;
