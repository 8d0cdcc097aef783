//! Error kinds reported by the ledger.
//!
//! Every error aborts the whole current call: the entrypoints guarantee that
//! on any `Err` result the state is unchanged.

use vstd::prelude::*;

verus! {

/// Errors specific to this contract, beyond the token-standard ones.
#[derive(PartialEq, Eq, Structural, Clone, Copy, Debug)]
pub enum CustomContractError {
    /// Failed parsing a parameter.
    ParseParams,
    /// Failed logging: log is full.
    LogFull,
    /// Failed logging: log is malformed.
    LogMalformed,
    /// A token with the same id has already been minted.
    TokenIdAlreadyExists,
    /// A nested contract invocation failed.
    InvokeContractError,
    /// The minting window has not opened yet.
    MintingNotStarted,
    /// The minting deadline has passed.
    MintDeadlineReached,
    /// Minting would exceed the supply cap.
    MaxTotalSupplyReached,
    /// The owners, tokens and URIs arrays differ in length.
    ArraysNotSameLength,
    /// A client call for the token standard failed.
    Cis2ClientError,
    /// The queried address has no record.
    InvalidAddress,
}

/// The full error type of the ledger: the token-standard errors plus the
/// contract-specific ones.
#[derive(PartialEq, Eq, Structural, Clone, Copy, Debug)]
pub enum ContractError {
    /// The queried or transferred token id was never minted.
    InvalidTokenId,
    /// The sender does not hold the token being moved.
    InsufficientFunds,
    /// The sender may not perform this operation.
    Unauthorized,
    /// A contract-specific failure.
    Custom(CustomContractError),
}

pub type ContractResult<A> = Result<A, ContractError>;

} // verus!
