//! The minting entrypoint: authorization, the time window, the supply cap,
//! batch-shape validation, and the per-token events.

use vstd::prelude::*;

use crate::error::{ContractError, ContractResult, CustomContractError};
use crate::events::{views_of_events, ContractEvent, ContractEventView, MetadataUrl, MetadataUrlView, MintEvent, MintedEvent, MintedEventView, TokenMetadataEvent, TokenMetadataEventView};
use crate::state::{State, StateView};
use crate::types::{Address, ContractTokenId};

verus! {

/// The parameter of `mint`: one owner and one URI per token id, matched by
/// position.
pub struct MintParams {
    /// Owner of each newly minted token.
    pub owners: Vec<Address>,
    /// The tokens to mint.
    pub tokens: Vec<ContractTokenId>,
    /// The metadata URL of each token.
    pub token_uris: Vec<String>,
}

/// The result of processing a mint batch entry by entry, in input order:
/// the state after all mints, or the error of the first entry that fails.
/// A duplicate token id is reported before the supply cap.
pub open spec fn mint_batch_outcome(
    v: StateView,
    owners: Seq<Address>,
    tokens: Seq<ContractTokenId>,
    uris: Seq<Seq<char>>,
) -> Result<StateView, ContractError>
    decreases tokens.len(),
{
    if tokens.len() == 0 {
        Ok(v)
    } else if v.all_tokens.contains(tokens[0]) {
        Err(ContractError::Custom(CustomContractError::TokenIdAlreadyExists))
    } else if v.counter >= v.max_total_supply {
        Err(ContractError::Custom(CustomContractError::MaxTotalSupplyReached))
    } else {
        mint_batch_outcome(
            v.mint_one(tokens[0], owners[0], uris[0]),
            owners.drop_first(),
            tokens.drop_first(),
            uris.drop_first(),
        )
    }
}

/// The three events of one minted token, in order: `Mint`, `TokenMetadata`,
/// then `Minted` with the sequence number and the mint time.
pub open spec fn mint_entry_events(
    v: StateView,
    owner: Address,
    token: ContractTokenId,
    uri: Seq<char>,
    now: u64,
) -> Seq<ContractEventView> {
    seq![
        ContractEventView::Mint(MintEvent { token_id: token, amount: 1u8, owner: owner }),
        ContractEventView::TokenMetadata(TokenMetadataEventView {
            token_id: token,
            metadata_url: MetadataUrlView { url: uri, hash: None },
        }),
        ContractEventView::Minted(MintedEventView {
            token_id: token,
            mint_count: (v.counter + 1) as u32,
            timestamp: now,
            token_uri: MetadataUrlView { url: uri, hash: None },
        }),
    ]
}

/// The events of a whole successful mint batch, in input order.
pub open spec fn mint_batch_events(
    v: StateView,
    owners: Seq<Address>,
    tokens: Seq<ContractTokenId>,
    uris: Seq<Seq<char>>,
    now: u64,
) -> Seq<ContractEventView>
    decreases tokens.len(),
{
    if tokens.len() == 0 {
        Seq::empty()
    } else {
        mint_entry_events(v, owners[0], tokens[0], uris[0], now) + mint_batch_events(
            v.mint_one(tokens[0], owners[0], uris[0]),
            owners.drop_first(),
            tokens.drop_first(),
            uris.drop_first(),
            now,
        )
    }
}

/// The views of a sequence of metadata URIs.
pub open spec fn views_of_uris(s: Seq<String>) -> Seq<Seq<char>> {
    s.map_values(|u: String| u@)
}

/// Mint a batch of tokens. Only the configured minter may call, only
/// inside the minting window; the three input arrays must have one entry
/// per token. Entries are processed strictly in order and the whole batch
/// takes effect or none of it. Per minted token, in order, a `Mint`, a
/// `TokenMetadata` and a `Minted` event is returned.
pub fn contract_mint(state: &mut State, sender: Address, now: u64, params: &MintParams) -> (r: ContractResult<Vec<ContractEvent>>)
    requires
        old(state).wf(),
    ensures
        final(state).wf(),
        ({
            let v = old(state)@;
            let owners = params.owners@;
            let tokens = params.tokens@;
            let uris = views_of_uris(params.token_uris@);
            if sender != Address::Account(v.minter) {
                &&& r == Err::<Vec<ContractEvent>, ContractError>(ContractError::Unauthorized)
                &&& final(state)@ == v
            } else if now < v.mint_start {
                &&& r == Err::<Vec<ContractEvent>, ContractError>(
                    ContractError::Custom(CustomContractError::MintingNotStarted))
                &&& final(state)@ == v
            } else if now >= v.mint_deadline {
                &&& r == Err::<Vec<ContractEvent>, ContractError>(
                    ContractError::Custom(CustomContractError::MintDeadlineReached))
                &&& final(state)@ == v
            } else if owners.len() != tokens.len() || uris.len() != tokens.len() {
                &&& r == Err::<Vec<ContractEvent>, ContractError>(
                    ContractError::Custom(CustomContractError::ArraysNotSameLength))
                &&& final(state)@ == v
            } else {
                match mint_batch_outcome(v, owners, tokens, uris) {
                    Ok(m) => {
                        &&& r is Ok
                        &&& final(state)@ == m
                        &&& views_of_events(r.unwrap()@) == mint_batch_events(v, owners, tokens, uris, now)
                    },
                    Err(e) => {
                        &&& r == Err::<Vec<ContractEvent>, ContractError>(e)
                        &&& final(state)@ == v
                    },
                }
            }
        }),
{
    let authorized = match sender {
        Address::Account(a) => a == state.minter,
        Address::Contract(_) => false,
    };
    if !authorized {
        return Err(ContractError::Unauthorized);
    }
    if now < state.mint_start {
        return Err(ContractError::Custom(CustomContractError::MintingNotStarted));
    }
    if now >= state.mint_deadline {
        return Err(ContractError::Custom(CustomContractError::MintDeadlineReached));
    }
    let n = params.tokens.len();
    if params.owners.len() != n || params.token_uris.len() != n {
        return Err(ContractError::Custom(CustomContractError::ArraysNotSameLength));
    }

    let ghost v0 = state@;
    let ghost owners_all = params.owners@;
    let ghost tokens_all = params.tokens@;
    let ghost uris_all = views_of_uris(params.token_uris@);

    let mut work = state.duplicate();
    let mut events: Vec<ContractEvent> = Vec::new();
    proof {
        assert(owners_all.skip(0) =~= owners_all);
        assert(tokens_all.skip(0) =~= tokens_all);
        assert(uris_all.skip(0) =~= uris_all);
        assert(views_of_events(events@) =~= Seq::<ContractEventView>::empty());
        assert(Seq::<ContractEventView>::empty() + mint_batch_events(v0, owners_all, tokens_all, uris_all, now)
            =~= mint_batch_events(v0, owners_all, tokens_all, uris_all, now));
    }
    let mut i: usize = 0;
    while i < n
        invariant
            n == tokens_all.len(),
            owners_all.len() == n,
            uris_all.len() == n,
            owners_all == params.owners@,
            tokens_all == params.tokens@,
            uris_all == views_of_uris(params.token_uris@),
            i <= n,
            work.wf(),
            *state == *old(state),
            old(state).wf(),
            v0 == old(state)@,
            sender == Address::Account(v0.minter),
            v0.mint_start <= now < v0.mint_deadline,
            mint_batch_outcome(v0, owners_all, tokens_all, uris_all) == mint_batch_outcome(
                work@,
                owners_all.skip(i as int),
                tokens_all.skip(i as int),
                uris_all.skip(i as int),
            ),
            views_of_events(events@) + mint_batch_events(
                work@,
                owners_all.skip(i as int),
                tokens_all.skip(i as int),
                uris_all.skip(i as int),
                now,
            ) == mint_batch_events(v0, owners_all, tokens_all, uris_all, now),
        decreases n - i,
    {
        let token = params.tokens[i];
        let owner = params.owners[i];
        let token_uri = &params.token_uris[i];
        let ghost w = work@;
        proof {
            assert(tokens_all.skip(i as int)[0] == tokens_all[i as int]);
            assert(owners_all.skip(i as int)[0] == owners_all[i as int]);
            assert(uris_all.skip(i as int)[0] == uris_all[i as int]);
            assert(uris_all[i as int] == token_uri@);
        }
        let count = match work.mint(token, &owner, token_uri) {
            Ok(c) => c,
            Err(e) => {
                return Err(e);
            },
        };
        events.push(ContractEvent::Mint(MintEvent { token_id: token, amount: 1, owner: owner }));
        events.push(ContractEvent::TokenMetadata(TokenMetadataEvent {
            token_id: token,
            metadata_url: MetadataUrl { url: token_uri.clone(), hash: None },
        }));
        events.push(ContractEvent::Minted(MintedEvent {
            token_id: token,
            mint_count: count,
            timestamp: now,
            token_uri: MetadataUrl { url: token_uri.clone(), hash: None },
        }));
        proof {
            assert(owners_all.skip(i as int).drop_first() =~= owners_all.skip(i + 1));
            assert(tokens_all.skip(i as int).drop_first() =~= tokens_all.skip(i + 1));
            assert(uris_all.skip(i as int).drop_first() =~= uris_all.skip(i + 1));
            assert(views_of_events(events@) =~= views_of_events(events@.subrange(0, events@.len() - 3))
                + mint_entry_events(w, owner, token, token_uri@, now));
        }
        i += 1;
    }
    proof {
        assert(owners_all.skip(n as int) =~= Seq::<Address>::empty());
        assert(tokens_all.skip(n as int) =~= Seq::<ContractTokenId>::empty());
        assert(uris_all.skip(n as int) =~= Seq::<Seq<char>>::empty());
        assert(views_of_events(events@) + Seq::<ContractEventView>::empty() =~= views_of_events(events@));
    }
    *state = work;
    Ok(events)
}

} // verus!
