//! A full dump of the ledger state, meant for diagnostics and testing.

use vstd::prelude::*;

use crate::state::{clone_addresses, clone_counts, clone_tokens, State};
use crate::types::{Address, ContractTokenId};

verus! {

/// One address's record in the dump.
#[derive(PartialEq, Eq, Clone, Debug)]
pub struct ViewAddressState {
    pub owned_tokens: Vec<ContractTokenId>,
    pub operators: Vec<Address>,
}

/// The entire contents of the ledger.
#[derive(PartialEq, Eq, Clone, Debug)]
pub struct ViewState {
    pub name: String,
    pub symbol: String,
    pub state: Vec<(Address, ViewAddressState)>,
    pub all_tokens: Vec<ContractTokenId>,
    pub token_uris: Vec<String>,
    pub counter: u32,
    pub mint_count: Vec<(ContractTokenId, u32)>,
    pub mint_start: u64,
    pub mint_deadline: u64,
    pub max_total_supply: u32,
}

/// A faithful copy of everything in the state, record by record and entry
/// by entry, in store order.
pub fn contract_view(state: &State) -> (r: ViewState)
    requires
        state.wf(),
    ensures
        r.name@ == state@.name,
        r.symbol@ == state@.symbol,
        r.state@.len() == state.address_state@.len(),
        forall|j: int| 0 <= j < r.state@.len() ==> {
            &&& (#[trigger] r.state@[j]).0 == state.address_state@[j].0
            &&& r.state@[j].1.owned_tokens@ == state.address_state@[j].1.owned_tokens@
            &&& r.state@[j].1.operators@ == state.address_state@[j].1.operators@
        },
        r.all_tokens@ == state.all_tokens@,
        r.token_uris@.len() == state.token_uris@.len(),
        forall|j: int| 0 <= j < r.token_uris@.len() ==> (#[trigger] r.token_uris@[j])@ == state.uris_seq()[j].1,
        r.counter == state@.counter,
        r.mint_count@ == state.mint_count@,
        r.mint_start == state@.mint_start,
        r.mint_deadline == state@.mint_deadline,
        r.max_total_supply == state@.max_total_supply,
{
    let n = state.address_state.len();
    let mut inner_state: Vec<(Address, ViewAddressState)> = Vec::new();
    let mut i: usize = 0;
    while i < n
        invariant
            n == state.address_state@.len(),
            i <= n,
            inner_state@.len() == i,
            forall|j: int| 0 <= j < i ==> {
                &&& (#[trigger] inner_state@[j]).0 == state.address_state@[j].0
                &&& inner_state@[j].1.owned_tokens@ == state.address_state@[j].1.owned_tokens@
                &&& inner_state@[j].1.operators@ == state.address_state@[j].1.operators@
            },
        decreases n - i,
    {
        let pair = &state.address_state[i];
        inner_state.push((pair.0, ViewAddressState {
            owned_tokens: clone_tokens(&pair.1.owned_tokens),
            operators: clone_addresses(&pair.1.operators),
        }));
        i += 1;
    }

    let m = state.token_uris.len();
    let mut uris: Vec<String> = Vec::new();
    let mut k: usize = 0;
    while k < m
        invariant
            m == state.token_uris@.len(),
            k <= m,
            uris@.len() == k,
            forall|j: int| 0 <= j < k ==> (#[trigger] uris@[j])@ == state.token_uris@[j].1@,
        decreases m - k,
    {
        uris.push(state.token_uris[k].1.clone());
        k += 1;
    }

    ViewState {
        name: state.name.clone(),
        symbol: state.symbol.clone(),
        state: inner_state,
        all_tokens: clone_tokens(&state.all_tokens),
        token_uris: uris,
        counter: state.counter,
        mint_count: clone_counts(&state.mint_count),
        mint_start: state.mint_start,
        mint_deadline: state.mint_deadline,
        max_total_supply: state.max_total_supply,
    }
}

} // verus!
