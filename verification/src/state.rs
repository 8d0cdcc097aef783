//! The ledger state: per-address records, the global token registry, the
//! standards registry, and the minting configuration.
//!
//! The state is a value passed explicitly to every operation. Each keyed
//! store is a vector of pairs with distinct keys; its mathematical reading
//! is a `Map` (see `assoc`), and every contract below is stated over those
//! maps and sets.

use vstd::prelude::*;

use crate::assoc::{assoc_map, distinct_keys, lemma_assoc_contains, lemma_assoc_index, lemma_assoc_push, lemma_assoc_remove, lemma_assoc_update, lemma_distinct_push, lemma_distinct_remove, lemma_distinct_update, lemma_set_push, lemma_set_remove};
use crate::cis2::{SupportResult, SupportResultView};
use crate::error::{ContractError, ContractResult, CustomContractError};
use crate::init::InitParams;
use crate::types::{AccountAddress, Address, ContractAddress, ContractTokenAmount, ContractTokenId, MintCountTokenID};

verus! {

/// The state kept for one address: the tokens it owns and the addresses
/// allowed to act for it. Both vectors are duplicate-free and read as sets.
pub struct AddressState {
    /// The tokens currently owned by this address.
    pub owned_tokens: Vec<ContractTokenId>,
    /// The addresses currently enabled as operators for this address.
    pub operators: Vec<Address>,
}

pub struct AddressStateView {
    pub owned_tokens: Set<ContractTokenId>,
    pub operators: Set<Address>,
}

impl View for AddressState {
    type V = AddressStateView;

    open spec fn view(&self) -> AddressStateView {
        AddressStateView {
            owned_tokens: self.owned_tokens@.to_set(),
            operators: self.operators@.to_set(),
        }
    }
}

impl AddressState {
    pub open spec fn wf(self) -> bool {
        self.owned_tokens@.no_duplicates() && self.operators@.no_duplicates()
    }

    /// A record with nothing owned and no operators.
    pub fn empty() -> (r: AddressState)
        ensures
            r.wf(),
            r@.owned_tokens == Set::<ContractTokenId>::empty(),
            r@.operators == Set::<Address>::empty(),
    {
        let r = AddressState { owned_tokens: Vec::new(), operators: Vec::new() };
        proof {
            assert(r@.owned_tokens =~= Set::<ContractTokenId>::empty());
            assert(r@.operators =~= Set::<Address>::empty());
        }
        r
    }
}

pub open spec fn empty_record() -> AddressStateView {
    AddressStateView { owned_tokens: Set::empty(), operators: Set::empty() }
}

/// The whole ledger state.
pub struct State {
    /// Display name of the collection.
    pub name: String,
    /// Display symbol of the collection.
    pub symbol: String,
    /// The record of each address that ever owned a token or was granted
    /// an operator; keys are distinct.
    pub address_state: Vec<(Address, AddressState)>,
    /// Every token id ever minted; duplicate-free.
    pub all_tokens: Vec<ContractTokenId>,
    /// The metadata URI of each minted token; keys are distinct.
    pub token_uris: Vec<(ContractTokenId, String)>,
    /// Contract addresses declared as implementing a named standard.
    pub implementors: Vec<(String, Vec<ContractAddress>)>,
    /// The sole account allowed to mint.
    pub minter: AccountAddress,
    /// How many tokens have been minted so far.
    pub counter: MintCountTokenID,
    /// The 1-based mint sequence number of each token; keys are distinct.
    pub mint_count: Vec<(ContractTokenId, MintCountTokenID)>,
    /// First time (inclusive) at which minting is allowed.
    pub mint_start: u64,
    /// First time (exclusive bound) at which minting is no longer allowed.
    pub mint_deadline: u64,
    /// The supply cap: `counter` may never exceed it.
    pub max_total_supply: u32,
}

pub struct StateView {
    pub name: Seq<char>,
    pub symbol: Seq<char>,
    pub records: Map<Address, AddressStateView>,
    pub all_tokens: Set<ContractTokenId>,
    pub token_uris: Map<ContractTokenId, Seq<char>>,
    pub implementors: Map<Seq<char>, Seq<ContractAddress>>,
    pub minter: AccountAddress,
    pub counter: MintCountTokenID,
    pub mint_count: Map<ContractTokenId, MintCountTokenID>,
    pub mint_start: u64,
    pub mint_deadline: u64,
    pub max_total_supply: u32,
}

impl State {
    pub open spec fn records_seq(self) -> Seq<(Address, AddressStateView)> {
        self.address_state@.map_values(|p: (Address, AddressState)| (p.0, p.1@))
    }

    pub open spec fn uris_seq(self) -> Seq<(ContractTokenId, Seq<char>)> {
        self.token_uris@.map_values(|p: (ContractTokenId, String)| (p.0, p.1@))
    }

    pub open spec fn impls_seq(self) -> Seq<(Seq<char>, Seq<ContractAddress>)> {
        self.implementors@.map_values(|p: (String, Vec<ContractAddress>)| (p.0@, p.1@))
    }

    /// The address records have distinct keys and duplicate-free contents.
    pub open spec fn recs_wf(self) -> bool {
        &&& distinct_keys(self.records_seq())
        &&& (forall|i: int| 0 <= i < self.address_state@.len() ==> (#[trigger] self.address_state@[i]).1.wf())
    }

    /// The representation invariant: distinct keys everywhere, and every
    /// per-address record duplicate-free; together with the semantic
    /// invariant of the view.
    pub open spec fn wf(self) -> bool {
        &&& self.recs_wf()
        &&& self.all_tokens@.no_duplicates()
        &&& distinct_keys(self.uris_seq())
        &&& distinct_keys(self.impls_seq())
        &&& distinct_keys(self.mint_count@)
        &&& self@.inv()
    }
}

impl View for State {
    type V = StateView;

    open spec fn view(&self) -> StateView {
        StateView {
            name: self.name@,
            symbol: self.symbol@,
            records: assoc_map(self.records_seq()),
            all_tokens: self.all_tokens@.to_set(),
            token_uris: assoc_map(self.uris_seq()),
            implementors: assoc_map(self.impls_seq()),
            minter: self.minter,
            counter: self.counter,
            mint_count: assoc_map(self.mint_count@),
            mint_start: self.mint_start,
            mint_deadline: self.mint_deadline,
            max_total_supply: self.max_total_supply,
        }
    }
}

impl StateView {
    /// `a` currently owns `t`.
    pub open spec fn owns(self, a: Address, t: ContractTokenId) -> bool {
        self.records.contains_key(a) && self.records[a].owned_tokens.contains(t)
    }

    /// The operators currently enabled for `a`.
    pub open spec fn operators_of(self, a: Address) -> Set<Address> {
        if self.records.contains_key(a) {
            self.records[a].operators
        } else {
            Set::empty()
        }
    }

    /// The tokens currently owned by `a`.
    pub open spec fn owned_of(self, a: Address) -> Set<ContractTokenId> {
        if self.records.contains_key(a) {
            self.records[a].owned_tokens
        } else {
            Set::empty()
        }
    }

    /// Whether `caller` may act on behalf of `owner`: it is the owner
    /// itself or one of the owner's operators.
    pub open spec fn is_authorized(self, caller: Address, owner: Address) -> bool {
        caller == owner || self.operators_of(owner).contains(caller)
    }

    pub open spec fn record_or_empty(self, a: Address) -> AddressStateView {
        if self.records.contains_key(a) {
            self.records[a]
        } else {
            empty_record()
        }
    }

    /// The semantic invariant, re-established after every successful call:
    /// a token exists exactly when exactly one address owns it, exactly
    /// when it has a URI and a mint sequence number; the counter counts
    /// the tokens and stays within the supply cap.
    pub open spec fn inv(self) -> bool {
        &&& self.all_tokens.finite()
        &&& self.counter as nat == self.all_tokens.len()
        &&& self.counter <= self.max_total_supply
        &&& (forall|a: Address, t: ContractTokenId| #[trigger] self.owns(a, t) ==> self.all_tokens.contains(t))
        &&& (forall|t: ContractTokenId| #[trigger] self.all_tokens.contains(t) ==> exists|a: Address| self.owns(a, t))
        &&& (forall|a1: Address, a2: Address, t: ContractTokenId|
            #[trigger] self.owns(a1, t) && #[trigger] self.owns(a2, t) ==> a1 == a2)
        &&& (forall|t: ContractTokenId| #[trigger] self.token_uris.contains_key(t) <==> self.all_tokens.contains(t))
        &&& (forall|t: ContractTokenId| #[trigger] self.mint_count.contains_key(t) <==> self.all_tokens.contains(t))
    }

    /// The semantic invariant only reads the token and record stores, the
    /// counter and the cap: it carries over to any state that agrees there.
    pub proof fn lemma_inv_unchanged(self, other: StateView)
        requires
            self.inv(),
            other.records == self.records,
            other.all_tokens == self.all_tokens,
            other.token_uris == self.token_uris,
            other.mint_count == self.mint_count,
            other.counter == self.counter,
            other.max_total_supply == self.max_total_supply,
        ensures
            other.inv(),
    {
        assert forall|a: Address, t: ContractTokenId| #[trigger] other.owns(a, t) implies self.owns(a, t) by {}
        assert forall|a: Address, t: ContractTokenId| #[trigger] self.owns(a, t) implies other.owns(a, t) by {}
        assert forall|t: ContractTokenId| #[trigger] other.all_tokens.contains(t)
            implies exists|a: Address| other.owns(a, t) by {
            let a = choose|a: Address| self.owns(a, t);
            assert(other.owns(a, t));
        }
        assert forall|a1: Address, a2: Address, t: ContractTokenId|
            #[trigger] other.owns(a1, t) && #[trigger] other.owns(a2, t) implies a1 == a2 by {
            assert(self.owns(a1, t) && self.owns(a2, t));
        }
    }

    /// The semantic invariant does not read the operator sets: it carries
    /// over to any state with the same ownership.
    pub proof fn lemma_inv_same_ownership(self, other: StateView)
        requires
            self.inv(),
            other.all_tokens == self.all_tokens,
            other.token_uris == self.token_uris,
            other.mint_count == self.mint_count,
            other.counter == self.counter,
            other.max_total_supply == self.max_total_supply,
            forall|a: Address| #[trigger] other.owned_of(a) == self.owned_of(a),
        ensures
            other.inv(),
    {
        assert forall|a: Address, t: ContractTokenId| #[trigger] other.owns(a, t) implies self.owns(a, t) by {
            assert(other.owned_of(a).contains(t));
            assert(self.owned_of(a) == other.owned_of(a));
        }
        assert forall|a: Address, t: ContractTokenId| #[trigger] self.owns(a, t) implies other.owns(a, t) by {
            assert(self.owned_of(a).contains(t));
            assert(other.owned_of(a) == self.owned_of(a));
        }
        assert forall|t: ContractTokenId| #[trigger] other.all_tokens.contains(t)
            implies exists|a: Address| other.owns(a, t) by {
            let a = choose|a: Address| self.owns(a, t);
            assert(other.owns(a, t));
        }
        assert forall|a1: Address, a2: Address, t: ContractTokenId|
            #[trigger] other.owns(a1, t) && #[trigger] other.owns(a2, t) implies a1 == a2 by {
            assert(self.owns(a1, t) && self.owns(a2, t));
        }
    }

    /// The state after minting one token: registered, given its URI and
    /// the next sequence number, and handed to `owner`.
    pub open spec fn mint_one(self, token: ContractTokenId, owner: Address, uri: Seq<char>) -> StateView {
        let rec = self.record_or_empty(owner);
        StateView {
            records: self.records.insert(
                owner,
                AddressStateView { owned_tokens: rec.owned_tokens.insert(token), operators: rec.operators },
            ),
            all_tokens: self.all_tokens.insert(token),
            token_uris: self.token_uris.insert(token, uri),
            counter: (self.counter + 1) as u32,
            mint_count: self.mint_count.insert(token, (self.counter + 1) as u32),
            ..self
        }
    }

    /// Minting a fresh token under the cap re-establishes the invariant:
    /// the new token is owned by `owner` alone and counted once.
    pub proof fn lemma_mint_one_inv(self, token: ContractTokenId, owner: Address, uri: Seq<char>)
        requires
            self.inv(),
            !self.all_tokens.contains(token),
            self.counter < self.max_total_supply,
        ensures
            self.mint_one(token, owner, uri).inv(),
    {
        let m = self.mint_one(token, owner, uri);
        assert(m.all_tokens.len() == self.all_tokens.len() + 1);
        assert forall|a: Address, t: ContractTokenId| #[trigger] m.owns(a, t)
            implies m.all_tokens.contains(t) by {
            if a == owner {
                if t != token {
                    if self.records.contains_key(owner) {
                        assert(self.owns(owner, t));
                    }
                }
            } else {
                assert(self.owns(a, t));
            }
        }
        assert forall|t: ContractTokenId| #[trigger] m.all_tokens.contains(t)
            implies exists|a: Address| m.owns(a, t) by {
            if t == token {
                assert(m.owns(owner, token));
            } else {
                let a = choose|a: Address| self.owns(a, t);
                assert(m.owns(a, t));
            }
        }
        assert forall|a1: Address, a2: Address, t: ContractTokenId|
            #[trigger] m.owns(a1, t) && #[trigger] m.owns(a2, t) implies a1 == a2 by {
            if t == token {
                if a1 != owner {
                    assert(self.owns(a1, token));
                }
                if a2 != owner {
                    assert(self.owns(a2, token));
                }
            } else {
                if a1 == owner {
                    if self.records.contains_key(owner) {
                        assert(self.owns(a1, t));
                    }
                } else {
                    assert(self.owns(a1, t));
                }
                if a2 == owner {
                    if self.records.contains_key(owner) {
                        assert(self.owns(a2, t));
                    }
                } else {
                    assert(self.owns(a2, t));
                }
            }
        }
    }

    /// The state after moving `token` from `from` to `to`; everything else
    /// is untouched. Removing first and then adding makes a transfer to
    /// oneself a no-op, as the sequential store update does.
    pub open spec fn move_token(self, token: ContractTokenId, from: Address, to: Address) -> StateView {
        let from_rec = self.record_or_empty(from);
        let mid = StateView {
            records: self.records.insert(
                from,
                AddressStateView { owned_tokens: from_rec.owned_tokens.remove(token), operators: from_rec.operators },
            ),
            ..self
        };
        let to_rec = mid.record_or_empty(to);
        StateView {
            records: mid.records.insert(
                to,
                AddressStateView { owned_tokens: to_rec.owned_tokens.insert(token), operators: to_rec.operators },
            ),
            ..self
        }
    }

    /// Moving an owned token re-establishes the invariant: the token ends
    /// up owned by `to` alone, and no other ownership changes.
    pub proof fn lemma_move_token_inv(self, token: ContractTokenId, from: Address, to: Address)
        requires
            self.inv(),
            self.owns(from, token),
        ensures
            self.move_token(token, from, to).inv(),
    {
        let m = self.move_token(token, from, to);
        assert forall|a: Address, t: ContractTokenId| #[trigger] m.owns(a, t)
            implies m.all_tokens.contains(t) by {
            if t == token {
                assert(self.owns(from, token));
            } else if a == to {
                if to == from {
                    assert(self.owns(from, t));
                } else if self.records.contains_key(to) {
                    assert(self.owns(to, t));
                }
            } else if a == from {
                assert(self.owns(from, t));
            } else {
                assert(self.owns(a, t));
            }
        }
        assert forall|t: ContractTokenId| #[trigger] m.all_tokens.contains(t)
            implies exists|a: Address| m.owns(a, t) by {
            if t == token {
                assert(m.owns(to, token));
            } else {
                let a = choose|a: Address| self.owns(a, t);
                if a == to {
                    assert(m.owns(to, t));
                } else if a == from {
                    assert(m.owns(from, t));
                } else {
                    assert(m.owns(a, t));
                }
            }
        }
        assert forall|a1: Address, a2: Address, t: ContractTokenId|
            #[trigger] m.owns(a1, t) && #[trigger] m.owns(a2, t) implies a1 == a2 by {
            if t == token {
                if a1 != to {
                    if a1 == from {
                    } else {
                        assert(self.owns(a1, token));
                        assert(self.owns(from, token));
                    }
                }
                if a2 != to {
                    if a2 == from {
                    } else {
                        assert(self.owns(a2, token));
                        assert(self.owns(from, token));
                    }
                }
            } else {
                if a1 == to {
                    if to == from {
                        assert(self.owns(from, t));
                    } else if self.records.contains_key(to) {
                        assert(self.owns(to, t));
                    }
                } else if a1 == from {
                    assert(self.owns(from, t));
                } else {
                    assert(self.owns(a1, t));
                }
                if a2 == to {
                    if to == from {
                        assert(self.owns(from, t));
                    } else if self.records.contains_key(to) {
                        assert(self.owns(to, t));
                    }
                } else if a2 == from {
                    assert(self.owns(from, t));
                } else {
                    assert(self.owns(a2, t));
                }
            }
        }
    }

    /// The state after enabling `operator` for `owner`.
    pub open spec fn grant_operator(self, owner: Address, operator: Address) -> StateView {
        let rec = self.record_or_empty(owner);
        StateView {
            records: self.records.insert(
                owner,
                AddressStateView { owned_tokens: rec.owned_tokens, operators: rec.operators.insert(operator) },
            ),
            ..self
        }
    }

    /// The state after disabling `operator` for `owner`. An absent record
    /// stays absent.
    pub open spec fn revoke_operator(self, owner: Address, operator: Address) -> StateView {
        if self.records.contains_key(owner) {
            let rec = self.records[owner];
            StateView {
                records: self.records.insert(
                    owner,
                    AddressStateView { owned_tokens: rec.owned_tokens, operators: rec.operators.remove(operator) },
                ),
                ..self
            }
        } else {
            self
        }
    }

    /// The state after overwriting the implementors of one standard.
    pub open spec fn with_implementors(self, id: Seq<char>, addrs: Seq<ContractAddress>) -> StateView {
        StateView { implementors: self.implementors.insert(id, addrs), ..self }
    }

    /// The state after replacing the minter.
    pub open spec fn with_minter(self, minter: AccountAddress) -> StateView {
        StateView { minter: minter, ..self }
    }
}

/// Position of `a` in an address vector, if present.
fn vec_index_of_addr(v: &Vec<Address>, a: &Address) -> (r: Option<usize>)
    ensures
        match r {
            Some(j) => j < v@.len() && v@[j as int] == *a,
            None => !v@.contains(*a),
        },
{
    let n = v.len();
    let mut i: usize = 0;
    while i < n
        invariant
            n == v@.len(),
            i <= n,
            forall|j: int| 0 <= j < i ==> v@[j] != *a,
        decreases n - i,
    {
        if v[i] == *a {
            return Some(i);
        }
        i += 1;
    }
    None
}

/// Position of a token known to be in the vector.
fn vec_position_of_token(v: &Vec<ContractTokenId>, t: ContractTokenId) -> (r: usize)
    requires
        v@.contains(t),
    ensures
        r < v@.len() && v@[r as int] == t,
{
    let n = v.len();
    let mut i: usize = 0;
    while i < n
        invariant
            n == v@.len(),
            i <= n,
            v@.contains(t),
            forall|j: int| 0 <= j < i ==> v@[j] != t,
        decreases n - i,
    {
        if v[i] == t {
            return i;
        }
        i += 1;
    }
    proof {
        assert(false);
    }
    0
}

/// Whether a token vector holds `t`.
fn vec_contains_token(v: &Vec<ContractTokenId>, t: ContractTokenId) -> (r: bool)
    ensures
        r == v@.contains(t),
{
    let n = v.len();
    let mut i: usize = 0;
    while i < n
        invariant
            n == v@.len(),
            i <= n,
            forall|j: int| 0 <= j < i ==> v@[j] != t,
        decreases n - i,
    {
        if v[i] == t {
            return true;
        }
        i += 1;
    }
    false
}

/// Whether an address vector holds `a`.
fn vec_contains_addr(v: &Vec<Address>, a: &Address) -> (r: bool)
    ensures
        r == v@.contains(*a),
{
    let n = v.len();
    let mut i: usize = 0;
    while i < n
        invariant
            n == v@.len(),
            i <= n,
            forall|j: int| 0 <= j < i ==> v@[j] != *a,
        decreases n - i,
    {
        if v[i] == *a {
            return true;
        }
        i += 1;
    }
    false
}

/// A copy of a token vector.
pub(crate) fn clone_tokens(v: &Vec<ContractTokenId>) -> (r: Vec<ContractTokenId>)
    ensures
        r@ == v@,
{
    let n = v.len();
    let mut r: Vec<ContractTokenId> = Vec::new();
    let mut i: usize = 0;
    while i < n
        invariant
            n == v@.len(),
            i <= n,
            r@ == v@.subrange(0, i as int),
        decreases n - i,
    {
        r.push(v[i]);
        proof {
            assert(r@ =~= v@.subrange(0, i + 1));
        }
        i += 1;
    }
    proof {
        assert(r@ =~= v@);
    }
    r
}

/// A copy of an address vector.
pub(crate) fn clone_addresses(v: &Vec<Address>) -> (r: Vec<Address>)
    ensures
        r@ == v@,
{
    let n = v.len();
    let mut r: Vec<Address> = Vec::new();
    let mut i: usize = 0;
    while i < n
        invariant
            n == v@.len(),
            i <= n,
            r@ == v@.subrange(0, i as int),
        decreases n - i,
    {
        r.push(v[i]);
        proof {
            assert(r@ =~= v@.subrange(0, i + 1));
        }
        i += 1;
    }
    proof {
        assert(r@ =~= v@);
    }
    r
}

/// A copy of a token/sequence-number vector.
pub(crate) fn clone_counts(v: &Vec<(ContractTokenId, MintCountTokenID)>) -> (r: Vec<(ContractTokenId, MintCountTokenID)>)
    ensures
        r@ == v@,
{
    let n = v.len();
    let mut r: Vec<(ContractTokenId, MintCountTokenID)> = Vec::new();
    let mut i: usize = 0;
    while i < n
        invariant
            n == v@.len(),
            i <= n,
            r@ == v@.subrange(0, i as int),
        decreases n - i,
    {
        r.push(v[i]);
        proof {
            assert(r@ =~= v@.subrange(0, i + 1));
        }
        i += 1;
    }
    proof {
        assert(r@ =~= v@);
    }
    r
}

/// A copy of a vector of contract addresses.
fn clone_contract_addresses(v: &Vec<ContractAddress>) -> (r: Vec<ContractAddress>)
    ensures
        r@ == v@,
{
    let n = v.len();
    let mut r: Vec<ContractAddress> = Vec::new();
    let mut i: usize = 0;
    while i < n
        invariant
            n == v@.len(),
            i <= n,
            r@ == v@.subrange(0, i as int),
        decreases n - i,
    {
        r.push(v[i]);
        proof {
            assert(r@ =~= v@.subrange(0, i + 1));
        }
        i += 1;
    }
    proof {
        assert(r@ =~= v@);
    }
    r
}

impl State {
    /// A new ledger with the given configuration and nothing minted.
    pub fn init(init_params: InitParams) -> (r: State)
        ensures
            r.wf(),
            r@.name == init_params.name@,
            r@.symbol == init_params.symbol@,
            r@.records == Map::<Address, AddressStateView>::empty(),
            r@.all_tokens == Set::<ContractTokenId>::empty(),
            r@.token_uris == Map::<ContractTokenId, Seq<char>>::empty(),
            r@.implementors == Map::<Seq<char>, Seq<ContractAddress>>::empty(),
            r@.minter == init_params.minter,
            r@.counter == 0,
            r@.mint_count == Map::<ContractTokenId, MintCountTokenID>::empty(),
            r@.mint_start == init_params.mint_start,
            r@.mint_deadline == init_params.mint_deadline,
            r@.max_total_supply == init_params.max_total_supply,
    {
        let r = State {
            name: init_params.name,
            symbol: init_params.symbol,
            address_state: Vec::new(),
            all_tokens: Vec::new(),
            token_uris: Vec::new(),
            implementors: Vec::new(),
            minter: init_params.minter,
            counter: 0,
            mint_count: Vec::new(),
            mint_start: init_params.mint_start,
            mint_deadline: init_params.mint_deadline,
            max_total_supply: init_params.max_total_supply,
        };
        proof {
            assert(r@.all_tokens =~= Set::<ContractTokenId>::empty());
            assert(r.records_seq().len() == 0);
            assert(r.uris_seq().len() == 0);
            assert(r.impls_seq().len() == 0);
            assert forall|a: Address, t: ContractTokenId| !(#[trigger] r@.owns(a, t)) by {}
        }
        r
    }

    /// A copy of the ledger with the same mathematical content, used by the
    /// batch entrypoints to make a whole call take effect or none of it.
    pub fn duplicate(&self) -> (r: State)
        requires
            self.wf(),
        ensures
            r.wf(),
            r@ == self@,
    {
        let n = self.address_state.len();
        let mut records: Vec<(Address, AddressState)> = Vec::new();
        let mut i: usize = 0;
        while i < n
            invariant
                n == self.address_state@.len(),
                i <= n,
                records@.len() == i,
                forall|j: int| 0 <= j < i ==> (#[trigger] records@[j]).0 == self.address_state@[j].0,
                forall|j: int| 0 <= j < i ==> (#[trigger] records@[j]).1@ == self.address_state@[j].1@,
                forall|j: int| 0 <= j < i ==> (#[trigger] records@[j]).1.wf(),
                forall|j: int| 0 <= j < n ==> (#[trigger] self.address_state@[j]).1.wf(),
            decreases n - i,
        {
            let pair = &self.address_state[i];
            let rec = AddressState {
                owned_tokens: clone_tokens(&pair.1.owned_tokens),
                operators: clone_addresses(&pair.1.operators),
            };
            proof {
                assert(rec@.owned_tokens =~= self.address_state@[i as int].1@.owned_tokens);
                assert(rec@.operators =~= self.address_state@[i as int].1@.operators);
            }
            records.push((pair.0, rec));
            i += 1;
        }

        let m = self.token_uris.len();
        let mut uris: Vec<(ContractTokenId, String)> = Vec::new();
        let mut k: usize = 0;
        while k < m
            invariant
                m == self.token_uris@.len(),
                k <= m,
                uris@ == self.token_uris@.subrange(0, k as int),
            decreases m - k,
        {
            let pair = &self.token_uris[k];
            uris.push((pair.0, pair.1.clone()));
            proof {
                assert(uris@ =~= self.token_uris@.subrange(0, k + 1));
            }
            k += 1;
        }
        proof {
            assert(uris@ =~= self.token_uris@);
        }

        let p = self.implementors.len();
        let mut impls: Vec<(String, Vec<ContractAddress>)> = Vec::new();
        let mut q: usize = 0;
        while q < p
            invariant
                p == self.implementors@.len(),
                q <= p,
                impls@.len() == q,
                forall|j: int| 0 <= j < q ==> (#[trigger] impls@[j]).0 == self.implementors@[j].0,
                forall|j: int| 0 <= j < q ==> (#[trigger] impls@[j]).1@ == self.implementors@[j].1@,
            decreases p - q,
        {
            let pair = &self.implementors[q];
            impls.push((pair.0.clone(), clone_contract_addresses(&pair.1)));
            q += 1;
        }

        let r = State {
            name: self.name.clone(),
            symbol: self.symbol.clone(),
            address_state: records,
            all_tokens: clone_tokens(&self.all_tokens),
            token_uris: uris,
            implementors: impls,
            minter: self.minter,
            counter: self.counter,
            mint_count: clone_counts(&self.mint_count),
            mint_start: self.mint_start,
            mint_deadline: self.mint_deadline,
            max_total_supply: self.max_total_supply,
        };
        proof {
            assert(r.records_seq() =~= self.records_seq());
            assert(r.uris_seq() =~= self.uris_seq());
            assert(r.impls_seq() =~= self.impls_seq());
            assert(r@ == self@);
        }
        r
    }

    /// Index of the record of `a`, if there is one, tied to the map view.
    fn find_record(&self, a: &Address) -> (r: Option<usize>)
        requires
            distinct_keys(self.records_seq()),
        ensures
            match r {
                Some(i) => {
                    &&& i < self.address_state@.len()
                    &&& self.address_state@[i as int].0 == *a
                    &&& self@.records.contains_key(*a)
                    &&& self@.records[*a] == self.address_state@[i as int].1@
                },
                None => !self@.records.contains_key(*a),
            },
    {
        let n = self.address_state.len();
        let mut i: usize = 0;
        while i < n
            invariant
                n == self.address_state@.len(),
                distinct_keys(self.records_seq()),
                i <= n,
                forall|j: int| 0 <= j < i ==> (#[trigger] self.address_state@[j]).0 != *a,
            decreases n - i,
        {
            if self.address_state[i].0 == *a {
                proof {
                    lemma_assoc_index(self.records_seq(), i as int);
                }
                return Some(i);
            }
            i += 1;
        }
        proof {
            lemma_assoc_contains(self.records_seq(), *a);
            assert forall|j: int| 0 <= j < self.records_seq().len()
                implies (#[trigger] self.records_seq()[j]).0 != *a by {
                assert(self.records_seq()[j].0 == self.address_state@[j].0);
            }
        }
        None
    }

    /// Whether `a` currently owns `t`.
    fn owns_token(&self, a: &Address, t: &ContractTokenId) -> (r: bool)
        requires
            distinct_keys(self.records_seq()),
        ensures
            r == self@.owns(*a, *t),
    {
        match self.find_record(a) {
            Some(i) => vec_contains_token(&self.address_state[i].1.owned_tokens, *t),
            None => false,
        }
    }

    /// Whether the token id was ever minted here.
    pub fn contains_token(&self, token_id: &ContractTokenId) -> (r: bool)
        ensures
            r == self@.all_tokens.contains(*token_id),
    {
        vec_contains_token(&self.all_tokens, *token_id)
    }

    /// The balance of a token for an address: 1 exactly when the address
    /// owns it, 0 otherwise; known tokens only.
    pub fn balance(&self, token_id: &ContractTokenId, address: &Address) -> (r: ContractResult<ContractTokenAmount>)
        requires
            self.wf(),
        ensures
            match r {
                Ok(amount) => {
                    &&& self@.all_tokens.contains(*token_id)
                    &&& amount == (if self@.owns(*address, *token_id) { 1u8 } else { 0u8 })
                },
                Err(e) => {
                    &&& !self@.all_tokens.contains(*token_id)
                    &&& e == ContractError::InvalidTokenId
                },
            },
    {
        if !self.contains_token(token_id) {
            return Err(ContractError::InvalidTokenId);
        }
        match self.find_record(address) {
            Some(i) => {
                if vec_contains_token(&self.address_state[i].1.owned_tokens, *token_id) {
                    Ok(1)
                } else {
                    Ok(0)
                }
            },
            None => Ok(0),
        }
    }

    /// Whether `address` is currently an operator of `owner`.
    pub fn is_operator(&self, address: &Address, owner: &Address) -> (r: bool)
        requires
            self.wf(),
        ensures
            r == self@.operators_of(*owner).contains(*address),
    {
        match self.find_record(owner) {
            Some(i) => vec_contains_addr(&self.address_state[i].1.operators, address),
            None => false,
        }
    }

    /// Detach the record of `a` from the store, handing back its current
    /// value (an empty record if there was none). The other stores are
    /// untouched.
    fn take_record(&mut self, a: &Address) -> (rec: AddressState)
        requires
            old(self).recs_wf(),
        ensures
            rec.wf(),
            rec@ == old(self)@.record_or_empty(*a),
            final(self).recs_wf(),
            final(self)@.records == old(self)@.records.remove(*a),
            final(self).name == old(self).name,
            final(self).symbol == old(self).symbol,
            final(self).all_tokens == old(self).all_tokens,
            final(self).token_uris == old(self).token_uris,
            final(self).implementors == old(self).implementors,
            final(self).minter == old(self).minter,
            final(self).counter == old(self).counter,
            final(self).mint_count == old(self).mint_count,
            final(self).mint_start == old(self).mint_start,
            final(self).mint_deadline == old(self).mint_deadline,
            final(self).max_total_supply == old(self).max_total_supply,
    {
        match self.find_record(a) {
            Some(i) => {
                let pair = self.address_state.remove(i);
                proof {
                    assert(self.records_seq() =~= old(self).records_seq().remove(i as int));
                    lemma_assoc_remove(old(self).records_seq(), i as int);
                    lemma_distinct_remove(old(self).records_seq(), i as int);
                    assert forall|j: int| 0 <= j < self.address_state@.len()
                        implies (#[trigger] self.address_state@[j]).1.wf() by {
                        assert(self.address_state@[j] == (if j < i { old(self).address_state@[j] } else {
                            old(self).address_state@[j + 1]
                        }));
                    }
                }
                pair.1
            },
            None => {
                proof {
                    assert(old(self)@.records.remove(*a) =~= old(self)@.records);
                }
                AddressState::empty()
            },
        }
    }

    /// Attach a record for a key that has none.
    fn put_record(&mut self, a: Address, rec: AddressState)
        requires
            old(self).recs_wf(),
            rec.wf(),
            !old(self)@.records.contains_key(a),
        ensures
            final(self).recs_wf(),
            final(self)@.records == old(self)@.records.insert(a, rec@),
            final(self).name == old(self).name,
            final(self).symbol == old(self).symbol,
            final(self).all_tokens == old(self).all_tokens,
            final(self).token_uris == old(self).token_uris,
            final(self).implementors == old(self).implementors,
            final(self).minter == old(self).minter,
            final(self).counter == old(self).counter,
            final(self).mint_count == old(self).mint_count,
            final(self).mint_start == old(self).mint_start,
            final(self).mint_deadline == old(self).mint_deadline,
            final(self).max_total_supply == old(self).max_total_supply,
    {
        proof {
            lemma_assoc_contains(old(self).records_seq(), a);
        }
        let ghost rec_view = rec@;
        self.address_state.push((a, rec));
        proof {
            assert(self.records_seq() =~= old(self).records_seq().push((a, rec_view)));
            lemma_assoc_push(old(self).records_seq(), a, rec_view);
            lemma_distinct_push(old(self).records_seq(), a, rec_view);
            assert forall|j: int| 0 <= j < self.address_state@.len()
                implies (#[trigger] self.address_state@[j]).1.wf() by {
                if j < old(self).address_state@.len() {
                    assert(self.address_state@[j] == old(self).address_state@[j]);
                }
            }
        }
    }

    /// Mint one token: register it, record its URI and its 1-based mint
    /// sequence number, and hand it to `owner`. Fails on a duplicate token
    /// id, and when the supply cap is already reached; a failed mint
    /// leaves the ledger unchanged.
    pub fn mint(&mut self, token: ContractTokenId, owner: &Address, token_uri: &String) -> (r: ContractResult<MintCountTokenID>)
        requires
            old(self).wf(),
        ensures
            final(self).wf(),
            ({
                let v = old(self)@;
                if v.all_tokens.contains(token) {
                    &&& r == Err::<MintCountTokenID, ContractError>(
                        ContractError::Custom(CustomContractError::TokenIdAlreadyExists))
                    &&& *final(self) == *old(self)
                } else if v.counter >= v.max_total_supply {
                    &&& r == Err::<MintCountTokenID, ContractError>(
                        ContractError::Custom(CustomContractError::MaxTotalSupplyReached))
                    &&& *final(self) == *old(self)
                } else {
                    &&& r == Ok::<MintCountTokenID, ContractError>((v.counter + 1) as MintCountTokenID)
                    &&& final(self)@ == v.mint_one(token, *owner, token_uri@)
                }
            }),
    {
        if self.contains_token(&token) {
            return Err(ContractError::Custom(CustomContractError::TokenIdAlreadyExists));
        }
        if self.counter >= self.max_total_supply {
            return Err(ContractError::Custom(CustomContractError::MaxTotalSupplyReached));
        }

        proof {
            lemma_set_push(self.all_tokens@, token);
            assert(!self@.token_uris.contains_key(token));
            lemma_assoc_contains(self.uris_seq(), token);
            assert forall|j: int| 0 <= j < self.uris_seq().len()
                implies (#[trigger] self.uris_seq()[j]).0 != token by {
                assert(self.uris_seq()[j].0 == self.token_uris@[j].0);
            }
            assert(!self@.mint_count.contains_key(token));
            lemma_assoc_contains(self.mint_count@, token);
            assert forall|j: int| 0 <= j < self.mint_count@.len()
                implies (#[trigger] self.mint_count@[j]).0 != token by {}
        }

        self.counter = self.counter + 1;
        let count = self.counter;

        self.all_tokens.push(token);
        let ghost uris_before = self.uris_seq();
        self.token_uris.push((token, token_uri.clone()));
        proof {
            assert(self.uris_seq() =~= uris_before.push((token, token_uri@)));
            lemma_assoc_push(uris_before, token, token_uri@);
            lemma_distinct_push(uris_before, token, token_uri@);
        }
        let ghost counts_before = self.mint_count@;
        self.mint_count.push((token, count));
        proof {
            lemma_assoc_push(counts_before, token, count);
            lemma_distinct_push(counts_before, token, count);
        }

        proof {
            assert(self@.records == old(self)@.records);
        }
        let mut rec = self.take_record(owner);
        proof {
            assert(rec@ == old(self)@.record_or_empty(*owner));
            if old(self)@.records.contains_key(*owner) {
                assert(!old(self)@.owns(*owner, token));
            }
            assert(!rec@.owned_tokens.contains(token));
            lemma_set_push(rec.owned_tokens@, token);
        }
        rec.owned_tokens.push(token);
        self.put_record(*owner, rec);

        proof {
            let v = old(self)@;
            let m = v.mint_one(token, *owner, token_uri@);
            assert(self@.records =~= m.records);
            assert(self@.all_tokens =~= m.all_tokens);
            assert(self@.token_uris =~= m.token_uris);
            assert(self@.mint_count =~= m.mint_count);
            assert(self@ == m);
            v.lemma_mint_one_inv(token, *owner, token_uri@);
        }
        Ok(count)
    }

    /// Move a token between addresses. Fails `InvalidTokenId` on a token
    /// never minted, and `InsufficientFunds` unless the amount is 0 or 1
    /// and `from` holds the token; an amount of 0 is a no-op. Both halves
    /// of the move happen or neither does.
    pub fn transfer(&mut self, token_id: &ContractTokenId, amount: ContractTokenAmount, from: &Address, to: &Address) -> (r: ContractResult<()>)
        requires
            old(self).wf(),
        ensures
            final(self).wf(),
            ({
                let v = old(self)@;
                if !v.all_tokens.contains(*token_id) {
                    &&& r == Err::<(), ContractError>(ContractError::InvalidTokenId)
                    &&& *final(self) == *old(self)
                } else if amount == 0 {
                    &&& r == Ok::<(), ContractError>(())
                    &&& *final(self) == *old(self)
                } else if amount != 1 || !v.owns(*from, *token_id) {
                    &&& r == Err::<(), ContractError>(ContractError::InsufficientFunds)
                    &&& *final(self) == *old(self)
                } else {
                    &&& r == Ok::<(), ContractError>(())
                    &&& final(self)@ == v.move_token(*token_id, *from, *to)
                }
            }),
    {
        if !self.contains_token(token_id) {
            return Err(ContractError::InvalidTokenId);
        }
        if amount == 0 {
            return Ok(());
        }
        if amount != 1 {
            return Err(ContractError::InsufficientFunds);
        }
        if !self.owns_token(from, token_id) {
            return Err(ContractError::InsufficientFunds);
        }

        let mut from_rec = self.take_record(from);
        proof {
            assert(from_rec@ == old(self)@.record_or_empty(*from));
            assert(from_rec@.owned_tokens.contains(*token_id));
        }
        let j = vec_position_of_token(&from_rec.owned_tokens, *token_id);
        proof {
            lemma_set_remove(from_rec.owned_tokens@, j as int);
        }
        from_rec.owned_tokens.remove(j);
        self.put_record(*from, from_rec);

        proof {
            let v = old(self)@;
            let mid_records = v.records.insert(
                *from,
                AddressStateView {
                    owned_tokens: v.records[*from].owned_tokens.remove(*token_id),
                    operators: v.records[*from].operators,
                },
            );
            assert(self@.records =~= mid_records);
            if *to != *from {
                if v.records.contains_key(*to) && v.records[*to].owned_tokens.contains(*token_id) {
                    assert(v.owns(*to, *token_id));
                    assert(v.owns(*from, *token_id));
                }
            }
        }
        let ghost mid = self@;
        let mut to_rec = self.take_record(to);
        proof {
            let v = old(self)@;
            assert(to_rec@ == mid.record_or_empty(*to));
            if *to == *from {
                assert(mid.records[*to].owned_tokens == v.records[*from].owned_tokens.remove(*token_id));
            }
            assert(!to_rec@.owned_tokens.contains(*token_id));
            lemma_set_push(to_rec.owned_tokens@, *token_id);
        }
        to_rec.owned_tokens.push(*token_id);
        self.put_record(*to, to_rec);

        proof {
            let v = old(self)@;
            let m = v.move_token(*token_id, *from, *to);
            assert(self@.records =~= m.records);
            assert(self@ == m);
            v.lemma_move_token_inv(*token_id, *from, *to);
        }
        Ok(())
    }

    /// Enable `operator` for `owner`. Idempotent: granting an operator
    /// that is already enabled changes nothing.
    pub fn add_operator(&mut self, owner: &Address, operator: &Address)
        requires
            old(self).wf(),
        ensures
            final(self).wf(),
            final(self)@ == old(self)@.grant_operator(*owner, *operator),
    {
        let mut rec = self.take_record(owner);
        if !vec_contains_addr(&rec.operators, operator) {
            proof {
                lemma_set_push(rec.operators@, *operator);
            }
            rec.operators.push(*operator);
        } else {
            proof {
                assert(rec@.operators.insert(*operator) =~= rec@.operators);
            }
        }
        proof {
            assert(rec@.operators == old(self)@.record_or_empty(*owner).operators.insert(*operator));
        }
        self.put_record(*owner, rec);
        proof {
            let target = old(self)@.grant_operator(*owner, *operator);
            assert(self@.records =~= target.records);
            assert forall|a: Address| #[trigger] self@.owned_of(a) == old(self)@.owned_of(a) by {
                if a != *owner {
                    assert(self@.records.contains_key(a) == old(self)@.records.contains_key(a));
                }
            }
            old(self)@.lemma_inv_same_ownership(self@);
        }
    }

    /// Disable `operator` for `owner`. Idempotent: revoking an operator
    /// that is not enabled changes nothing, and no record is created.
    pub fn remove_operator(&mut self, owner: &Address, operator: &Address)
        requires
            old(self).wf(),
        ensures
            final(self).wf(),
            final(self)@ == old(self)@.revoke_operator(*owner, *operator),
    {
        match self.find_record(owner) {
            None => {
            },
            Some(_) => {
                let mut rec = self.take_record(owner);
                match vec_index_of_addr(&rec.operators, operator) {
                    Some(j) => {
                        proof {
                            lemma_set_remove(rec.operators@, j as int);
                        }
                        rec.operators.remove(j);
                    },
                    None => {
                        proof {
                            assert(rec@.operators.remove(*operator) =~= rec@.operators);
                        }
                    },
                }
                proof {
                    assert(rec@.operators == old(self)@.records[*owner].operators.remove(*operator));
                }
                self.put_record(*owner, rec);
                proof {
                    let target = old(self)@.revoke_operator(*owner, *operator);
                    assert(self@.records =~= target.records);
                    assert forall|a: Address| #[trigger] self@.owned_of(a) == old(self)@.owned_of(a) by {
                        if a != *owner {
                            assert(self@.records.contains_key(a) == old(self)@.records.contains_key(a));
                        }
                    }
                    old(self)@.lemma_inv_same_ownership(self@);
                }
            },
        }
    }

    /// A copy of the record of `a`, if there is one.
    pub fn record_snapshot(&self, a: &Address) -> (r: Option<AddressState>)
        requires
            self.wf(),
        ensures
            match r {
                Some(rec) => {
                    &&& self@.records.contains_key(*a)
                    &&& rec@ == self@.records[*a]
                    &&& rec.wf()
                },
                None => !self@.records.contains_key(*a),
            },
    {
        match self.find_record(a) {
            Some(i) => {
                let pair = &self.address_state[i];
                let rec = AddressState {
                    owned_tokens: clone_tokens(&pair.1.owned_tokens),
                    operators: clone_addresses(&pair.1.operators),
                };
                proof {
                    assert(rec@.owned_tokens =~= self.address_state@[i as int].1@.owned_tokens);
                    assert(rec@.operators =~= self.address_state@[i as int].1@.operators);
                }
                Some(rec)
            },
            None => None,
        }
    }

    /// The metadata URI of a token, if it was ever minted.
    pub fn metadata_url_of(&self, token_id: &ContractTokenId) -> (r: Option<String>)
        requires
            distinct_keys(self.uris_seq()),
        ensures
            match r {
                Some(u) => self@.token_uris.contains_key(*token_id) && u@ == self@.token_uris[*token_id],
                None => !self@.token_uris.contains_key(*token_id),
            },
    {
        let n = self.token_uris.len();
        let mut i: usize = 0;
        while i < n
            invariant
                n == self.token_uris@.len(),
                distinct_keys(self.uris_seq()),
                i <= n,
                forall|j: int| 0 <= j < i ==> (#[trigger] self.token_uris@[j]).0 != *token_id,
            decreases n - i,
        {
            if self.token_uris[i].0 == *token_id {
                proof {
                    lemma_assoc_index(self.uris_seq(), i as int);
                }
                return Some(self.token_uris[i].1.clone());
            }
            i += 1;
        }
        proof {
            lemma_assoc_contains(self.uris_seq(), *token_id);
            assert forall|j: int| 0 <= j < self.uris_seq().len()
                implies (#[trigger] self.uris_seq()[j]).0 != *token_id by {
                assert(self.uris_seq()[j].0 == self.token_uris@[j].0);
            }
        }
        None
    }

    /// The 1-based mint sequence number of a token, if it was ever minted.
    pub fn mint_count_of(&self, token_id: &ContractTokenId) -> (r: Option<MintCountTokenID>)
        requires
            distinct_keys(self.mint_count@),
        ensures
            match r {
                Some(c) => self@.mint_count.contains_key(*token_id) && c == self@.mint_count[*token_id],
                None => !self@.mint_count.contains_key(*token_id),
            },
    {
        let n = self.mint_count.len();
        let mut i: usize = 0;
        while i < n
            invariant
                n == self.mint_count@.len(),
                distinct_keys(self.mint_count@),
                i <= n,
                forall|j: int| 0 <= j < i ==> (#[trigger] self.mint_count@[j]).0 != *token_id,
            decreases n - i,
        {
            if self.mint_count[i].0 == *token_id {
                proof {
                    lemma_assoc_index(self.mint_count@, i as int);
                }
                return Some(self.mint_count[i].1);
            }
            i += 1;
        }
        proof {
            lemma_assoc_contains(self.mint_count@, *token_id);
        }
        None
    }

    /// Index of the implementors entry for `std_id`, tied to the map view.
    fn find_implementor(&self, std_id: &String) -> (r: Option<usize>)
        requires
            distinct_keys(self.impls_seq()),
        ensures
            match r {
                Some(i) => {
                    &&& i < self.implementors@.len()
                    &&& self.implementors@[i as int].0@ == std_id@
                    &&& self@.implementors.contains_key(std_id@)
                    &&& self@.implementors[std_id@] == self.implementors@[i as int].1@
                },
                None => !self@.implementors.contains_key(std_id@),
            },
    {
        let n = self.implementors.len();
        let mut i: usize = 0;
        while i < n
            invariant
                n == self.implementors@.len(),
                distinct_keys(self.impls_seq()),
                i <= n,
                forall|j: int| 0 <= j < i ==> (#[trigger] self.implementors@[j]).0@ != std_id@,
            decreases n - i,
        {
            if self.implementors[i].0.eq(std_id) {
                proof {
                    assert(self.impls_seq()[i as int].0 == std_id@);
                    lemma_assoc_index(self.impls_seq(), i as int);
                }
                return Some(i);
            }
            i += 1;
        }
        proof {
            lemma_assoc_contains(self.impls_seq(), std_id@);
            assert forall|j: int| 0 <= j < self.impls_seq().len()
                implies (#[trigger] self.impls_seq()[j]).0 != std_id@ by {
                assert(self.impls_seq()[j].0 == self.implementors@[j].0@);
            }
        }
        None
    }

    /// The recorded implementors of a standard, or `NoSupport` when none
    /// were ever set.
    pub fn have_implementors(&self, std_id: &String) -> (r: SupportResult)
        requires
            self.wf(),
        ensures
            r@ == (if self@.implementors.contains_key(std_id@) {
                SupportResultView::SupportBy(self@.implementors[std_id@])
            } else {
                SupportResultView::NoSupport
            }),
    {
        match self.find_implementor(std_id) {
            Some(i) => SupportResult::SupportBy(clone_contract_addresses(&self.implementors[i].1)),
            None => SupportResult::NoSupport,
        }
    }

    /// Overwrite (or first set) the implementors of a standard.
    pub fn set_implementors(&mut self, std_id: String, implementors: Vec<ContractAddress>)
        requires
            old(self).wf(),
        ensures
            final(self).wf(),
            final(self)@ == old(self)@.with_implementors(std_id@, implementors@),
    {
        let ghost impls_before = self.impls_seq();
        match self.find_implementor(&std_id) {
            Some(i) => {
                self.implementors.remove(i);
                self.implementors.insert(i, (std_id, implementors));
                proof {
                    assert(self.impls_seq() =~= impls_before.update(
                        i as int,
                        (impls_before[i as int].0, implementors@),
                    ));
                    lemma_assoc_update(impls_before, i as int, implementors@);
                    lemma_distinct_update(impls_before, i as int, implementors@);
                }
            },
            None => {
                proof {
                    lemma_assoc_contains(impls_before, std_id@);
                }
                self.implementors.push((std_id, implementors));
                proof {
                    assert(self.impls_seq() =~= impls_before.push((
                        self.implementors@.last().0@,
                        implementors@,
                    )));
                    lemma_assoc_push(impls_before, self.implementors@.last().0@, implementors@);
                    lemma_distinct_push(impls_before, self.implementors@.last().0@, implementors@);
                }
            },
        }
        proof {
            assert(self@.implementors =~= old(self)@.implementors.insert(std_id@, implementors@));
            old(self)@.lemma_inv_unchanged(self@);
        }
    }

    /// Replace the account allowed to mint.
    pub fn set_minter(&mut self, minter: AccountAddress)
        requires
            old(self).wf(),
        ensures
            final(self).wf(),
            final(self)@ == old(self)@.with_minter(minter),
    {
        self.minter = minter;
        proof {
            old(self)@.lemma_inv_unchanged(self@);
        }
    }
}

} // verus!
