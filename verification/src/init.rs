//! Creation of a ledger instance.

use vstd::prelude::*;

use crate::events::{ContractEvent, ContractEventView, DeployEvent, DeployEventView, MetadataUrl};
use crate::state::{AddressStateView, State};
use crate::types::{AccountAddress, Address, ContractAddress, ContractTokenId, MintCountTokenID};

verus! {

/// The configuration a new ledger instance is created with.
pub struct InitParams {
    pub name: String,
    pub symbol: String,
    pub contract_uri: MetadataUrl,
    pub minter: AccountAddress,
    /// First time (inclusive) at which minting is allowed, Unix milliseconds.
    pub mint_start: u64,
    /// First time (exclusive bound) past which minting is refused, Unix milliseconds.
    pub mint_deadline: u64,
    pub max_total_supply: u32,
}

/// A copy of a metadata URL.
fn clone_metadata_url(u: &MetadataUrl) -> (r: MetadataUrl)
    ensures
        r@ == u@,
{
    let hash = match &u.hash {
        Some(h) => Some(crate::cis2::clone_bytes(h)),
        None => None,
    };
    MetadataUrl { url: u.url.clone(), hash: hash }
}

/// Create an empty ledger with the given configuration, and the `Deploy`
/// event recording that configuration.
pub fn contract_init(params: InitParams) -> (r: (State, ContractEvent))
    ensures
        r.0.wf(),
        r.0@.name == params.name@,
        r.0@.symbol == params.symbol@,
        r.0@.records == Map::<Address, AddressStateView>::empty(),
        r.0@.all_tokens == Set::<ContractTokenId>::empty(),
        r.0@.token_uris == Map::<ContractTokenId, Seq<char>>::empty(),
        r.0@.implementors == Map::<Seq<char>, Seq<ContractAddress>>::empty(),
        r.0@.minter == params.minter,
        r.0@.counter == 0,
        r.0@.mint_count == Map::<ContractTokenId, MintCountTokenID>::empty(),
        r.0@.mint_start == params.mint_start,
        r.0@.mint_deadline == params.mint_deadline,
        r.0@.max_total_supply == params.max_total_supply,
        r.1@ == ContractEventView::Deploy(DeployEventView {
            name: params.name@,
            symbol: params.symbol@,
            contract_uri: params.contract_uri@,
            minter: params.minter,
            mint_start: params.mint_start,
            mint_deadline: params.mint_deadline,
            max_total_supply: params.max_total_supply,
        }),
{
    let event = ContractEvent::Deploy(DeployEvent {
        name: params.name.clone(),
        symbol: params.symbol.clone(),
        contract_uri: clone_metadata_url(&params.contract_uri),
        minter: params.minter,
        mint_start: params.mint_start,
        mint_deadline: params.mint_deadline,
        max_total_supply: params.max_total_supply,
    });
    let state = State::init(params);
    (state, event)
}

} // verus!
