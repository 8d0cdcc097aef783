//! A verified non-fungible-token ledger.
//!
//! The crate models an on-ledger NFT registry: per-address ownership and
//! operator sets, a time-boxed and supply-capped minting policy, a transfer
//! engine, a standards registry, and a tagged binary event codec. Every
//! entrypoint is a deterministic state transition on plain values; a host
//! that persists state and performs I/O sits outside this crate.

pub mod assoc;
pub mod cis2;
pub mod codec;
pub mod contract_view;
pub mod error;
pub mod events;
pub mod getters;
pub mod init;
pub mod laws;
pub mod mint;
pub mod setters;
pub mod state;
pub mod types;
