//! Owner-gated changes to the ledger configuration.

use vstd::prelude::*;

use crate::error::{ContractError, ContractResult};
use crate::state::State;
use crate::types::{AccountAddress, Address};

verus! {

/// The parameter of `setMinter`.
#[derive(PartialEq, Eq, Structural, Clone, Copy, Debug)]
pub struct SetMinter {
    pub minter: AccountAddress,
}

/// Replace the account allowed to mint; only the contract owner may.
pub fn contract_set_minter(state: &mut State, sender: Address, owner: AccountAddress, params: SetMinter) -> (r: ContractResult<()>)
    requires
        old(state).wf(),
    ensures
        final(state).wf(),
        if sender != Address::Account(owner) {
            &&& r == Err::<(), ContractError>(ContractError::Unauthorized)
            &&& final(state)@ == old(state)@
        } else {
            &&& r == Ok::<(), ContractError>(())
            &&& final(state)@ == old(state)@.with_minter(params.minter)
        },
{
    let authorized = match sender {
        Address::Account(a) => a == owner,
        Address::Contract(_) => false,
    };
    if !authorized {
        return Err(ContractError::Unauthorized);
    }
    state.set_minter(params.minter);
    Ok(())
}

} // verus!
