//! The ledger's laws: properties that hold of every well-formed state and
//! every call, stated over the same views and transition functions the
//! entrypoints' contracts use. The event codec's round-trip law lives in
//! `codec` (`lemma_event_round_trip`, `lemma_unknown_tag_fails`).

use vstd::prelude::*;

use crate::cis2::{transfer_batch_outcome, TransferView};
use crate::error::{ContractError, CustomContractError};
use crate::mint::mint_batch_outcome;
use crate::state::StateView;
use crate::types::{Address, ContractTokenId};

verus! {

/// A token id is registered exactly when some address owns it, and never
/// owned by two addresses at once.
pub proof fn lemma_unique_ownership(v: StateView, t: ContractTokenId)
    requires
        v.inv(),
    ensures
        v.all_tokens.contains(t) <==> exists|a: Address| v.owns(a, t),
        v.all_tokens.contains(t) <==> v.token_uris.contains_key(t),
        v.all_tokens.contains(t) <==> v.mint_count.contains_key(t),
        forall|a1: Address, a2: Address| v.owns(a1, t) && v.owns(a2, t) ==> a1 == a2,
{
    assert forall|a1: Address, a2: Address| v.owns(a1, t) && v.owns(a2, t) implies a1 == a2 by {
        assert(v.owns(a1, t) && v.owns(a2, t));
    }
}

/// The mint counter counts exactly the tokens ever minted, and never
/// exceeds the supply cap.
pub proof fn lemma_counter_counts_tokens(v: StateView)
    requires
        v.inv(),
    ensures
        v.counter as nat == v.all_tokens.len(),
        v.counter <= v.max_total_supply,
{
}

/// A successful mint batch keeps the invariant and raises the counter by
/// exactly the number of tokens minted.
pub proof fn lemma_mint_batch_counts(
    v: StateView,
    owners: Seq<Address>,
    tokens: Seq<ContractTokenId>,
    uris: Seq<Seq<char>>,
)
    requires
        v.inv(),
        owners.len() == tokens.len(),
        uris.len() == tokens.len(),
        mint_batch_outcome(v, owners, tokens, uris) is Ok,
    ensures
        mint_batch_outcome(v, owners, tokens, uris).unwrap().inv(),
        mint_batch_outcome(v, owners, tokens, uris).unwrap().counter == v.counter + tokens.len(),
        mint_batch_outcome(v, owners, tokens, uris).unwrap().max_total_supply == v.max_total_supply,
    decreases tokens.len(),
{
    if tokens.len() > 0 {
        let v1 = v.mint_one(tokens[0], owners[0], uris[0]);
        v.lemma_mint_one_inv(tokens[0], owners[0], uris[0]);
        lemma_mint_batch_counts(v1, owners.drop_first(), tokens.drop_first(), uris.drop_first());
    }
}

/// Minting a token id twice in one batch fails with the duplicate-token
/// error, whatever stands between the two entries; the failing call, by
/// the minting entrypoint's contract, leaves the ledger unchanged.
pub proof fn lemma_duplicate_mint_in_one_call(
    v: StateView,
    owner1: Address,
    owner2: Address,
    t: ContractTokenId,
    uri1: Seq<char>,
    uri2: Seq<char>,
)
    requires
        v.inv(),
        !v.all_tokens.contains(t),
        v.counter < v.max_total_supply,
    ensures
        mint_batch_outcome(v, seq![owner1, owner2], seq![t, t], seq![uri1, uri2]) == Err::<
            StateView,
            ContractError,
        >(ContractError::Custom(CustomContractError::TokenIdAlreadyExists)),
{
    let v1 = v.mint_one(t, owner1, uri1);
    assert(v1.all_tokens.contains(t));
    assert(seq![owner1, owner2].drop_first() =~= seq![owner2]);
    assert(seq![t, t].drop_first() =~= seq![t]);
    assert(seq![uri1, uri2].drop_first() =~= seq![uri2]);
    assert(seq![t][0] == t);
    assert(mint_batch_outcome(v1, seq![owner2], seq![t], seq![uri2]) == Err::<
        StateView,
        ContractError,
    >(ContractError::Custom(CustomContractError::TokenIdAlreadyExists)));
}

/// Minting a token id that was already minted by an earlier call fails
/// with the duplicate-token error.
pub proof fn lemma_duplicate_mint_across_calls(
    v: StateView,
    owner1: Address,
    owner2: Address,
    t: ContractTokenId,
    uri1: Seq<char>,
    uri2: Seq<char>,
)
    requires
        v.inv(),
        !v.all_tokens.contains(t),
        v.counter < v.max_total_supply,
    ensures
        mint_batch_outcome(v.mint_one(t, owner1, uri1), seq![owner2], seq![t], seq![uri2]) == Err::<
            StateView,
            ContractError,
        >(ContractError::Custom(CustomContractError::TokenIdAlreadyExists)),
{
    assert(v.mint_one(t, owner1, uri1).all_tokens.contains(t));
}

/// A mint that would push the counter past the supply cap fails with the
/// cap error; by the minting entrypoint's contract the failing call mints
/// nothing.
pub proof fn lemma_mint_over_cap_rejected(
    v: StateView,
    owners: Seq<Address>,
    tokens: Seq<ContractTokenId>,
    uris: Seq<Seq<char>>,
)
    requires
        v.inv(),
        tokens.len() > 0,
        !v.all_tokens.contains(tokens[0]),
        v.counter >= v.max_total_supply,
    ensures
        mint_batch_outcome(v, owners, tokens, uris) == Err::<StateView, ContractError>(
            ContractError::Custom(CustomContractError::MaxTotalSupplyReached),
        ),
{
}

/// A single transfer requested by an address that is neither the source
/// nor one of its operators fails `Unauthorized`; one requested by a
/// granted operator for a token the source holds succeeds and moves the
/// token to the receiver.
pub proof fn lemma_transfer_authorization(v: StateView, sender: Address, t: TransferView)
    requires
        v.inv(),
    ensures
        !v.is_authorized(sender, t.from) ==> transfer_batch_outcome(v, sender, seq![t]) == Err::<
            StateView,
            ContractError,
        >(ContractError::Unauthorized),
        v.operators_of(t.from).contains(sender) && v.all_tokens.contains(t.token_id) && t.amount
            == 1 && v.owns(t.from, t.token_id) ==> {
            &&& transfer_batch_outcome(v, sender, seq![t]) == Ok::<StateView, ContractError>(
                v.move_token(t.token_id, t.from, t.to.address()))
            &&& v.move_token(t.token_id, t.from, t.to.address()).owns(t.to.address(), t.token_id)
        },
{
    assert(seq![t][0] == t);
    assert(seq![t].drop_first() =~= Seq::<TransferView>::empty());
    if v.operators_of(t.from).contains(sender) && v.all_tokens.contains(t.token_id) && t.amount
        == 1 && v.owns(t.from, t.token_id) {
        let m = v.move_token(t.token_id, t.from, t.to.address());
        assert(transfer_batch_outcome(m, sender, Seq::<TransferView>::empty()) == Ok::<
            StateView,
            ContractError,
        >(m));
        assert(m.owns(t.to.address(), t.token_id));
    }
}

/// The token registry and the mint counter change only when minting:
/// moving a token and granting or revoking an operator keep both, so the
/// counter never decreases across any sequence of calls.
pub proof fn lemma_registry_fixed_outside_mint(
    v: StateView,
    token: ContractTokenId,
    from: Address,
    to: Address,
    owner: Address,
    operator: Address,
)
    ensures
        v.move_token(token, from, to).all_tokens == v.all_tokens,
        v.move_token(token, from, to).counter == v.counter,
        v.grant_operator(owner, operator).all_tokens == v.all_tokens,
        v.grant_operator(owner, operator).counter == v.counter,
        v.revoke_operator(owner, operator).all_tokens == v.all_tokens,
        v.revoke_operator(owner, operator).counter == v.counter,
{
}

/// Operator management is idempotent: granting an operator twice leaves
/// the state as one grant does, and revoking an address that is not an
/// operator changes nothing.
pub proof fn lemma_operator_idempotent(v: StateView, owner: Address, operator: Address)
    ensures
        v.grant_operator(owner, operator).grant_operator(owner, operator) == v.grant_operator(
            owner,
            operator,
        ),
        !v.operators_of(owner).contains(operator) ==> v.revoke_operator(owner, operator) == v,
{
    let v1 = v.grant_operator(owner, operator);
    let v2 = v1.grant_operator(owner, operator);
    assert(v1.record_or_empty(owner).operators =~= v2.record_or_empty(owner).operators);
    assert(v1.record_or_empty(owner).owned_tokens =~= v2.record_or_empty(owner).owned_tokens);
    assert(v2.records =~= v1.records);
    if !v.operators_of(owner).contains(operator) {
        if v.records.contains_key(owner) {
            let r = v.records[owner];
            assert(r.operators.remove(operator) =~= r.operators);
            assert(v.revoke_operator(owner, operator).records =~= v.records);
        }
    }
}

} // verus!
