//! Read-only queries over the ledger: mint sequence numbers, the
//! configuration, and one address's record.

use vstd::prelude::*;

use crate::error::{ContractError, ContractResult, CustomContractError};
use crate::state::State;
use crate::types::{AccountAddress, Address, ContractTokenId, MintCountTokenID};

verus! {

/// The parameter of `getMintCountTokenID`: the token ids to look up.
pub struct MintCountQueryParams {
    pub queries: Vec<ContractTokenId>,
}

/// One mint sequence number per queried token id, in order.
#[derive(PartialEq, Eq, Clone, Debug)]
pub struct TokenMintCountQueryResponse(pub Vec<MintCountTokenID>);

/// Answer a list of mint-sequence-number queries, in order. Fails
/// `InvalidTokenId` when any queried token was never minted.
pub fn contract_get_mint_count_token_id(state: &State, params: &MintCountQueryParams) -> (r: ContractResult<TokenMintCountQueryResponse>)
    requires
        state.wf(),
    ensures
        ({
            let v = state@;
            let qs = params.queries@;
            if forall|i: int| 0 <= i < qs.len() ==> v.all_tokens.contains(#[trigger] qs[i]) {
                &&& r is Ok
                &&& r.unwrap().0@.len() == qs.len()
                &&& forall|i: int| 0 <= i < qs.len() ==> r.unwrap().0@[i] == v.mint_count[#[trigger] qs[i]]
            } else {
                r == Err::<TokenMintCountQueryResponse, ContractError>(ContractError::InvalidTokenId)
            }
        }),
{
    let n = params.queries.len();
    let mut out: Vec<MintCountTokenID> = Vec::new();
    let mut i: usize = 0;
    while i < n
        invariant
            n == params.queries@.len(),
            i <= n,
            state.wf(),
            out@.len() == i,
            forall|j: int| 0 <= j < i ==> state@.all_tokens.contains(#[trigger] params.queries@[j]),
            forall|j: int| 0 <= j < i ==> out@[j] == state@.mint_count[#[trigger] params.queries@[j]],
        decreases n - i,
    {
        let token_id = params.queries[i];
        if !state.contains_token(&token_id) {
            return Err(ContractError::InvalidTokenId);
        }
        match state.mint_count_of(&token_id) {
            Some(count) => {
                out.push(count);
            },
            None => {
                return Err(ContractError::InvalidTokenId);
            },
        }
        i += 1;
    }
    Ok(TokenMintCountQueryResponse(out))
}

/// The minting configuration, as one read-only snapshot.
#[derive(PartialEq, Eq, Structural, Clone, Copy, Debug)]
pub struct ViewSettings {
    pub minter: AccountAddress,
    pub mint_start: u64,
    pub mint_deadline: u64,
    pub max_total_supply: u32,
}

/// A snapshot of the minting configuration.
pub fn contract_view_settings(state: &State) -> (r: ViewSettings)
    ensures
        r.minter == state@.minter,
        r.mint_start == state@.mint_start,
        r.mint_deadline == state@.mint_deadline,
        r.max_total_supply == state@.max_total_supply,
{
    ViewSettings {
        minter: state.minter,
        mint_start: state.mint_start,
        mint_deadline: state.mint_deadline,
        max_total_supply: state.max_total_supply,
    }
}

/// One address's record: the tokens it owns and its operators.
#[derive(PartialEq, Eq, Clone, Debug)]
pub struct ViewAddress {
    pub owned_tokens: Vec<ContractTokenId>,
    pub operators: Vec<Address>,
}

/// The parameter of `viewAddress`.
#[derive(PartialEq, Eq, Structural, Clone, Copy, Debug)]
pub struct ContractViewAddressQueryParams {
    pub address: Address,
}

/// A snapshot of the sender's record. Fails `InvalidAddress` for an
/// address that never owned a token nor was granted an operator.
pub fn contract_view_address(state: &State, sender: Address) -> (r: ContractResult<ViewAddress>)
    requires
        state.wf(),
    ensures
        ({
            let v = state@;
            if v.records.contains_key(sender) {
                &&& r is Ok
                &&& r.unwrap().owned_tokens@.to_set() == v.records[sender].owned_tokens
                &&& r.unwrap().operators@.to_set() == v.records[sender].operators
                &&& r.unwrap().owned_tokens@.no_duplicates()
                &&& r.unwrap().operators@.no_duplicates()
            } else {
                r == Err::<ViewAddress, ContractError>(
                    ContractError::Custom(CustomContractError::InvalidAddress))
            }
        }),
{
    match state.record_snapshot(&sender) {
        Some(rec) => Ok(ViewAddress { owned_tokens: rec.owned_tokens, operators: rec.operators }),
        None => Err(ContractError::Custom(CustomContractError::InvalidAddress)),
    }
}

} // verus!
