//! Plain value types shared by the whole ledger.
//!
//! Addresses are opaque identifiers: an account is named by a single numeric
//! id, a contract by an index/subindex pair. Token identifiers are numeric
//! and totally ordered; token amounts are bounded by one since every token is
//! non-fungible.

use vstd::prelude::*;

verus! {

/// Identifier of a token within one ledger instance.
pub type ContractTokenId = u32;

/// Amount of a single token moved by a transfer; always 0 or 1 here.
pub type ContractTokenAmount = u8;

/// 1-based position of a token in the global mint order.
pub type MintCountTokenID = u32;

/// Identifier of an external account.
pub type AccountAddress = u64;

/// Identifier of a deployed contract instance.
#[derive(PartialEq, Eq, Structural, Clone, Copy, Debug)]
pub struct ContractAddress {
    pub index: u64,
    pub subindex: u64,
}

/// Either an external account or a contract instance; used uniformly as
/// owner, operator, and sender.
#[derive(PartialEq, Eq, Structural, Clone, Copy, Debug)]
pub enum Address {
    Account(AccountAddress),
    Contract(ContractAddress),
}

} // verus!
