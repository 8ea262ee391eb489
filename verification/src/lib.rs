//! Vanity-address miner for a CREATE3-style contract-address scheme.
//!
//! The library derives, from a deployer address, a candidate name and a
//! creation-code fingerprint, the address at which the contract would be
//! deployed, and searches a bounded counter space for a name whose derived
//! address starts with a desired textual prefix.

pub mod abi;
pub mod bytes;
pub mod create3;
pub mod hexfmt;
pub mod keccak;
pub mod search;
