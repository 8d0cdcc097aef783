//! The token-standard entrypoints: transfers, operator management and the
//! read-only queries, each as a deterministic function of the state, the
//! sender, and the decoded request.

use vstd::prelude::*;

use crate::error::{ContractError, ContractResult};
use crate::events::{views_of_events, ContractEvent, ContractEventView, MetadataUrl, MetadataUrlView, OperatorUpdate, TransferEvent, UpdateOperatorEvent};
use crate::state::{State, StateView};
use crate::types::{AccountAddress, Address, ContractAddress, ContractTokenAmount, ContractTokenId};

verus! {

/// The answer to a standard-support query.
#[derive(PartialEq, Eq, Clone, Debug)]
pub enum SupportResult {
    /// The standard is not supported.
    NoSupport,
    /// The standard is supported by this contract itself.
    Support,
    /// The standard is supported by these other contracts.
    SupportBy(Vec<ContractAddress>),
}

pub enum SupportResultView {
    NoSupport,
    Support,
    SupportBy(Seq<ContractAddress>),
}

impl View for SupportResult {
    type V = SupportResultView;

    open spec fn view(&self) -> SupportResultView {
        match self {
            SupportResult::NoSupport => SupportResultView::NoSupport,
            SupportResult::Support => SupportResultView::Support,
            SupportResult::SupportBy(v) => SupportResultView::SupportBy(v@),
        }
    }
}

/// The parameter of `setImplementors`: a standard identifier and the
/// contracts declared to implement it.
pub struct SetImplementorsParams {
    /// The identifier for the standard.
    pub id: String,
    /// The addresses of the implementors of the standard.
    pub implementors: Vec<ContractAddress>,
}

/// Where a transfer delivers the token: an account, or a contract together
/// with the entrypoint to invoke as its receive hook.
#[derive(PartialEq, Eq, Clone, Debug)]
pub enum Receiver {
    Account(AccountAddress),
    Contract(ContractAddress, String),
}

pub enum ReceiverView {
    Account(AccountAddress),
    Contract(ContractAddress, Seq<char>),
}

impl ReceiverView {
    /// The address behind the receiver.
    pub open spec fn address(self) -> Address {
        match self {
            ReceiverView::Account(a) => Address::Account(a),
            ReceiverView::Contract(c, _) => Address::Contract(c),
        }
    }
}

impl View for Receiver {
    type V = ReceiverView;

    open spec fn view(&self) -> ReceiverView {
        match self {
            Receiver::Account(a) => ReceiverView::Account(*a),
            Receiver::Contract(c, e) => ReceiverView::Contract(*c, e@),
        }
    }
}

impl Receiver {
    /// The address behind the receiver.
    pub fn address(&self) -> (r: Address)
        ensures
            r == self@.address(),
    {
        match self {
            Receiver::Account(a) => Address::Account(*a),
            Receiver::Contract(c, _) => Address::Contract(*c),
        }
    }
}

/// One requested transfer.
#[derive(PartialEq, Eq, Clone, Debug)]
pub struct Transfer {
    pub token_id: ContractTokenId,
    pub amount: ContractTokenAmount,
    pub from: Address,
    pub to: Receiver,
    /// Extra bytes handed through to a contract receiver's hook.
    pub data: Vec<u8>,
}

pub struct TransferView {
    pub token_id: ContractTokenId,
    pub amount: ContractTokenAmount,
    pub from: Address,
    pub to: ReceiverView,
    pub data: Seq<u8>,
}

impl View for Transfer {
    type V = TransferView;

    open spec fn view(&self) -> TransferView {
        TransferView {
            token_id: self.token_id,
            amount: self.amount,
            from: self.from,
            to: self.to@,
            data: self.data@,
        }
    }
}

/// A receive-hook invocation the host must perform, in order, after the
/// call succeeds: one per transfer that delivered a token to a contract.
#[derive(PartialEq, Eq, Clone, Debug)]
pub struct HookCall {
    /// The receiving contract.
    pub address: ContractAddress,
    /// The entrypoint to invoke on it.
    pub entrypoint: String,
    pub token_id: ContractTokenId,
    pub amount: ContractTokenAmount,
    pub from: Address,
    pub data: Vec<u8>,
}

pub struct HookCallView {
    pub address: ContractAddress,
    pub entrypoint: Seq<char>,
    pub token_id: ContractTokenId,
    pub amount: ContractTokenAmount,
    pub from: Address,
    pub data: Seq<u8>,
}

impl View for HookCall {
    type V = HookCallView;

    open spec fn view(&self) -> HookCallView {
        HookCallView {
            address: self.address,
            entrypoint: self.entrypoint@,
            token_id: self.token_id,
            amount: self.amount,
            from: self.from,
            data: self.data@,
        }
    }
}

/// One requested operator change, applied to the sender's record.
#[derive(PartialEq, Eq, Structural, Clone, Copy, Debug)]
pub struct UpdateOperator {
    pub update: OperatorUpdate,
    pub operator: Address,
}

/// The views of a sequence of requested transfers.
pub open spec fn views_of_transfers(s: Seq<Transfer>) -> Seq<TransferView> {
    s.map_values(|t: Transfer| t@)
}

/// The views of a sequence of hook calls.
pub open spec fn views_of_hooks(s: Seq<HookCall>) -> Seq<HookCallView> {
    s.map_values(|h: HookCall| h@)
}

/// The result of processing a transfer batch entry by entry, in input
/// order: the state after all moves, or the error of the first entry that
/// fails. Per entry: the sender must be the source or one of its
/// operators; the token must exist; an amount of 0 changes nothing; any
/// other amount than 1, or a source that does not hold the token, is
/// `InsufficientFunds`.
pub open spec fn transfer_batch_outcome(v: StateView, sender: Address, ts: Seq<TransferView>) -> Result<StateView, ContractError>
    decreases ts.len(),
{
    if ts.len() == 0 {
        Ok(v)
    } else {
        let t = ts[0];
        if !v.is_authorized(sender, t.from) {
            Err(ContractError::Unauthorized)
        } else if !v.all_tokens.contains(t.token_id) {
            Err(ContractError::InvalidTokenId)
        } else if t.amount == 0 {
            transfer_batch_outcome(v, sender, ts.drop_first())
        } else if t.amount != 1 {
            Err(ContractError::InsufficientFunds)
        } else if !v.owns(t.from, t.token_id) {
            Err(ContractError::InsufficientFunds)
        } else {
            transfer_batch_outcome(v.move_token(t.token_id, t.from, t.to.address()), sender, ts.drop_first())
        }
    }
}

/// The `Transfer` events of a successful batch: one per entry that moved a
/// token (an amount of 0 logs nothing), in input order.
pub open spec fn transfer_batch_events(ts: Seq<TransferView>) -> Seq<ContractEventView>
    decreases ts.len(),
{
    if ts.len() == 0 {
        Seq::empty()
    } else {
        let t = ts[0];
        let head: Seq<ContractEventView> = if t.amount == 0 {
            Seq::empty()
        } else {
            seq![ContractEventView::Transfer(TransferEvent {
                token_id: t.token_id,
                amount: t.amount,
                from: t.from,
                to: t.to.address(),
            })]
        };
        head + transfer_batch_events(ts.drop_first())
    }
}

/// The receive hooks of a successful batch: one per entry that moved a
/// token to a contract receiver, in input order.
pub open spec fn transfer_batch_hooks(ts: Seq<TransferView>) -> Seq<HookCallView>
    decreases ts.len(),
{
    if ts.len() == 0 {
        Seq::empty()
    } else {
        let t = ts[0];
        let head: Seq<HookCallView> = if t.amount != 0 && (t.to matches ReceiverView::Contract(_, _)) {
            seq![HookCallView {
                address: t.to->Contract_0,
                entrypoint: t.to->Contract_1,
                token_id: t.token_id,
                amount: t.amount,
                from: t.from,
                data: t.data,
            }]
        } else {
            Seq::empty()
        };
        head + transfer_batch_hooks(ts.drop_first())
    }
}

/// A copy of a byte vector.
pub(crate) fn clone_bytes(v: &Vec<u8>) -> (r: Vec<u8>)
    ensures
        r@ == v@,
{
    let n = v.len();
    let mut r: Vec<u8> = Vec::new();
    let mut i: usize = 0;
    while i < n
        invariant
            n == v@.len(),
            i <= n,
            r@ == v@.subrange(0, i as int),
        decreases n - i,
    {
        r.push(v[i]);
        proof {
            assert(r@ =~= v@.subrange(0, i + 1));
        }
        i += 1;
    }
    proof {
        assert(r@ =~= v@);
    }
    r
}

/// Execute a list of transfers in list order: the whole batch takes effect
/// or none of it. Returns the `Transfer` events and the receive hooks the
/// host must invoke, both in order; a rejected hook makes the host discard
/// the whole call.
pub fn contract_transfer(state: &mut State, sender: Address, transfers: &Vec<Transfer>) -> (r: ContractResult<(Vec<ContractEvent>, Vec<HookCall>)>)
    requires
        old(state).wf(),
    ensures
        final(state).wf(),
        ({
            let v = old(state)@;
            let ts = views_of_transfers(transfers@);
            match transfer_batch_outcome(v, sender, ts) {
                Ok(m) => {
                    &&& r is Ok
                    &&& final(state)@ == m
                    &&& views_of_events(r.unwrap().0@) == transfer_batch_events(ts)
                    &&& views_of_hooks(r.unwrap().1@) == transfer_batch_hooks(ts)
                },
                Err(e) => {
                    &&& r == Err::<(Vec<ContractEvent>, Vec<HookCall>), ContractError>(e)
                    &&& final(state)@ == v
                },
            }
        }),
{
    let ghost v0 = state@;
    let ghost ts_all = views_of_transfers(transfers@);
    let n = transfers.len();

    let mut work = state.duplicate();
    let mut events: Vec<ContractEvent> = Vec::new();
    let mut hooks: Vec<HookCall> = Vec::new();
    proof {
        assert(ts_all.skip(0) =~= ts_all);
        assert(views_of_events(events@) =~= Seq::<ContractEventView>::empty());
        assert(views_of_hooks(hooks@) =~= Seq::<HookCallView>::empty());
        assert(Seq::<ContractEventView>::empty() + transfer_batch_events(ts_all) =~= transfer_batch_events(ts_all));
        assert(Seq::<HookCallView>::empty() + transfer_batch_hooks(ts_all) =~= transfer_batch_hooks(ts_all));
    }
    let mut i: usize = 0;
    while i < n
        invariant
            n == transfers@.len(),
            ts_all == views_of_transfers(transfers@),
            i <= n,
            work.wf(),
            *state == *old(state),
            old(state).wf(),
            v0 == old(state)@,
            transfer_batch_outcome(v0, sender, ts_all) == transfer_batch_outcome(work@, sender, ts_all.skip(i as int)),
            views_of_events(events@) + transfer_batch_events(ts_all.skip(i as int)) == transfer_batch_events(ts_all),
            views_of_hooks(hooks@) + transfer_batch_hooks(ts_all.skip(i as int)) == transfer_batch_hooks(ts_all),
        decreases n - i,
    {
        let entry = &transfers[i];
        let from = entry.from;
        let amount = entry.amount;
        let token_id = entry.token_id;
        let to_address = entry.to.address();
        proof {
            assert(ts_all.skip(i as int)[0] == ts_all[i as int]);
            assert(ts_all[i as int] == transfers@[i as int]@);
        }
        let authorized = from == sender || work.is_operator(&sender, &from);
        if !authorized {
            return Err(ContractError::Unauthorized);
        }
        match work.transfer(&token_id, amount, &from, &to_address) {
            Ok(()) => {},
            Err(e) => {
                return Err(e);
            },
        }
        if amount != 0 {
            events.push(ContractEvent::Transfer(TransferEvent {
                token_id: token_id,
                amount: amount,
                from: from,
                to: to_address,
            }));
            match &entry.to {
                Receiver::Contract(c, ep) => {
                    hooks.push(HookCall {
                        address: *c,
                        entrypoint: ep.clone(),
                        token_id: token_id,
                        amount: amount,
                        from: from,
                        data: clone_bytes(&entry.data),
                    });
                },
                Receiver::Account(_) => {},
            }
        }
        proof {
            assert(ts_all.skip(i as int).drop_first() =~= ts_all.skip(i + 1));
            assert(views_of_events(events@) + transfer_batch_events(ts_all.skip(i + 1)) =~= transfer_batch_events(ts_all));
            assert(views_of_hooks(hooks@) + transfer_batch_hooks(ts_all.skip(i + 1)) =~= transfer_batch_hooks(ts_all));
        }
        i += 1;
    }
    proof {
        assert(ts_all.skip(n as int) =~= Seq::<TransferView>::empty());
        assert(views_of_events(events@) + Seq::<ContractEventView>::empty() =~= views_of_events(events@));
        assert(views_of_hooks(hooks@) + Seq::<HookCallView>::empty() =~= views_of_hooks(hooks@));
    }
    *state = work;
    Ok((events, hooks))
}

/// The state after a list of operator updates, applied to the sender's
/// record in list order.
pub open spec fn operator_batch_state(v: StateView, sender: Address, us: Seq<UpdateOperator>) -> StateView
    decreases us.len(),
{
    if us.len() == 0 {
        v
    } else {
        let v1 = match us[0].update {
            OperatorUpdate::Add => v.grant_operator(sender, us[0].operator),
            OperatorUpdate::Remove => v.revoke_operator(sender, us[0].operator),
        };
        operator_batch_state(v1, sender, us.drop_first())
    }
}

/// One `UpdateOperator` event per requested update, in order, whether or
/// not the update changed anything.
pub open spec fn operator_batch_events(sender: Address, us: Seq<UpdateOperator>) -> Seq<ContractEventView> {
    us.map_values(|u: UpdateOperator| ContractEventView::UpdateOperator(UpdateOperatorEvent {
        update: u.update,
        owner: sender,
        operator: u.operator,
    }))
}

/// Enable or disable operators of the sender, in list order. Never fails:
/// granting an enabled operator or revoking an absent one is a no-op that
/// is still logged.
pub fn contract_update_operator(state: &mut State, sender: Address, updates: &Vec<UpdateOperator>) -> (events: Vec<ContractEvent>)
    requires
        old(state).wf(),
    ensures
        final(state).wf(),
        final(state)@ == operator_batch_state(old(state)@, sender, updates@),
        views_of_events(events@) == operator_batch_events(sender, updates@),
{
    let ghost v0 = state@;
    let n = updates.len();
    let mut events: Vec<ContractEvent> = Vec::new();
    proof {
        assert(updates@.skip(0) =~= updates@);
        assert(views_of_events(events@) =~= Seq::<ContractEventView>::empty());
        assert(views_of_events(events@) =~= operator_batch_events(sender, updates@.subrange(0, 0)));
    }
    let mut i: usize = 0;
    while i < n
        invariant
            n == updates@.len(),
            i <= n,
            state.wf(),
            operator_batch_state(v0, sender, updates@) == operator_batch_state(state@, sender, updates@.skip(i as int)),
            views_of_events(events@) == operator_batch_events(sender, updates@.subrange(0, i as int)),
        decreases n - i,
    {
        let u = updates[i];
        proof {
            assert(updates@.skip(i as int)[0] == updates@[i as int]);
        }
        match u.update {
            OperatorUpdate::Add => state.add_operator(&sender, &u.operator),
            OperatorUpdate::Remove => state.remove_operator(&sender, &u.operator),
        }
        let ghost evs = events@;
        events.push(ContractEvent::UpdateOperator(UpdateOperatorEvent {
            update: u.update,
            owner: sender,
            operator: u.operator,
        }));
        proof {
            assert(updates@.skip(i as int).drop_first() =~= updates@.skip(i + 1));
            let e = ContractEvent::UpdateOperator(UpdateOperatorEvent {
                update: u.update,
                owner: sender,
                operator: u.operator,
            });
            assert(views_of_events(evs.push(e)) =~= views_of_events(evs).push(e@));
            assert(updates@.subrange(0, i + 1) =~= updates@.subrange(0, i as int).push(updates@[i as int]));
            assert(operator_batch_events(sender, updates@.subrange(0, i as int).push(updates@[i as int])) =~=
                operator_batch_events(sender, updates@.subrange(0, i as int)).push(e@));
            assert(views_of_events(events@) =~= operator_batch_events(sender, updates@.subrange(0, i + 1)));
        }
        i += 1;
    }
    proof {
        assert(updates@.skip(n as int) =~= Seq::<UpdateOperator>::empty());
        assert(updates@.subrange(0, n as int) =~= updates@);
    }
    events
}

/// One operator query: is `address` an operator of `owner`?
#[derive(PartialEq, Eq, Structural, Clone, Copy, Debug)]
pub struct OperatorOfQuery {
    pub owner: Address,
    pub address: Address,
}

/// One balance query.
#[derive(PartialEq, Eq, Structural, Clone, Copy, Debug)]
pub struct BalanceOfQuery {
    pub token_id: ContractTokenId,
    pub address: Address,
}

/// Answer a list of operator queries: one boolean per query, in order.
pub fn contract_operator_of(state: &State, queries: &Vec<OperatorOfQuery>) -> (r: Vec<bool>)
    requires
        state.wf(),
    ensures
        r@.len() == queries@.len(),
        forall|i: int| 0 <= i < queries@.len() ==> r@[i] == state@.operators_of(
            (#[trigger] queries@[i]).owner,
        ).contains(queries@[i].address),
{
    let n = queries.len();
    let mut r: Vec<bool> = Vec::new();
    let mut i: usize = 0;
    while i < n
        invariant
            n == queries@.len(),
            i <= n,
            state.wf(),
            r@.len() == i,
            forall|j: int| 0 <= j < i ==> r@[j] == state@.operators_of(
                (#[trigger] queries@[j]).owner,
            ).contains(queries@[j].address),
        decreases n - i,
    {
        let q = queries[i];
        r.push(state.is_operator(&q.address, &q.owner));
        i += 1;
    }
    r
}

/// Answer a list of balance queries: one amount (0 or 1) per query, in
/// order. Fails `InvalidTokenId` when any queried token was never minted.
pub fn contract_balance_of(state: &State, queries: &Vec<BalanceOfQuery>) -> (r: ContractResult<Vec<ContractTokenAmount>>)
    requires
        state.wf(),
    ensures
        ({
            let v = state@;
            if forall|i: int| 0 <= i < queries@.len() ==> v.all_tokens.contains((#[trigger] queries@[i]).token_id) {
                &&& r is Ok
                &&& r.unwrap()@.len() == queries@.len()
                &&& forall|i: int| 0 <= i < queries@.len() ==> r.unwrap()@[i] == (
                    if v.owns((#[trigger] queries@[i]).address, queries@[i].token_id) { 1u8 } else { 0u8 })
            } else {
                r == Err::<Vec<ContractTokenAmount>, ContractError>(ContractError::InvalidTokenId)
            }
        }),
{
    let n = queries.len();
    let mut r: Vec<ContractTokenAmount> = Vec::new();
    let mut i: usize = 0;
    while i < n
        invariant
            n == queries@.len(),
            i <= n,
            state.wf(),
            r@.len() == i,
            forall|j: int| 0 <= j < i ==> state@.all_tokens.contains((#[trigger] queries@[j]).token_id),
            forall|j: int| 0 <= j < i ==> r@[j] == (
                if state@.owns((#[trigger] queries@[j]).address, queries@[j].token_id) { 1u8 } else { 0u8 }),
        decreases n - i,
    {
        let q = queries[i];
        match state.balance(&q.token_id, &q.address) {
            Ok(amount) => {
                r.push(amount);
            },
            Err(e) => {
                return Err(e);
            },
        }
        i += 1;
    }
    Ok(r)
}

/// Answer a list of token-metadata queries: one URL per token id, in
/// order. Fails `InvalidTokenId` when any queried token was never minted.
pub fn contract_token_metadata(state: &State, queries: &Vec<ContractTokenId>) -> (r: ContractResult<Vec<MetadataUrl>>)
    requires
        state.wf(),
    ensures
        ({
            let v = state@;
            if forall|i: int| 0 <= i < queries@.len() ==> v.all_tokens.contains(#[trigger] queries@[i]) {
                &&& r is Ok
                &&& r.unwrap()@.len() == queries@.len()
                &&& forall|i: int| 0 <= i < queries@.len() ==> (#[trigger] r.unwrap()@[i]@) == (MetadataUrlView {
                    url: v.token_uris[queries@[i]],
                    hash: None,
                })
            } else {
                r == Err::<Vec<MetadataUrl>, ContractError>(ContractError::InvalidTokenId)
            }
        }),
{
    let n = queries.len();
    let mut r: Vec<MetadataUrl> = Vec::new();
    let mut i: usize = 0;
    while i < n
        invariant
            n == queries@.len(),
            i <= n,
            state.wf(),
            r@.len() == i,
            forall|j: int| 0 <= j < i ==> state@.all_tokens.contains(#[trigger] queries@[j]),
            forall|j: int| 0 <= j < i ==> (#[trigger] r@[j]@) == (MetadataUrlView {
                url: state@.token_uris[queries@[j]],
                hash: None,
            }),
        decreases n - i,
    {
        let token_id = queries[i];
        if !state.contains_token(&token_id) {
            return Err(ContractError::InvalidTokenId);
        }
        match state.metadata_url_of(&token_id) {
            Some(url) => {
                r.push(MetadataUrl { url: url, hash: None });
            },
            None => {
                return Err(ContractError::InvalidTokenId);
            },
        }
        i += 1;
    }
    Ok(r)
}

/// The standards this contract supports by itself.
pub open spec fn builtin_standard(id: Seq<char>) -> bool {
    id == "CIS-0"@ || id == "CIS-2"@
}

/// Whether a standard identifier names one of the built-in standards.
fn is_builtin_standard(id: &String) -> (r: bool)
    ensures
        r == builtin_standard(id@),
{
    let cis0 = String::from_str("CIS-0");
    if id.eq(&cis0) {
        return true;
    }
    let cis2 = String::from_str("CIS-2");
    id.eq(&cis2)
}

/// The answer to one standard-support query: the built-in standards are
/// supported directly; otherwise the recorded implementors, if any.
pub open spec fn support_of(v: StateView, id: Seq<char>) -> SupportResultView {
    if builtin_standard(id) {
        SupportResultView::Support
    } else if v.implementors.contains_key(id) {
        SupportResultView::SupportBy(v.implementors[id])
    } else {
        SupportResultView::NoSupport
    }
}

/// Answer a list of standard-support queries, in order.
pub fn contract_supports(state: &State, queries: &Vec<String>) -> (r: Vec<SupportResult>)
    requires
        state.wf(),
    ensures
        r@.len() == queries@.len(),
        forall|i: int| 0 <= i < queries@.len() ==> (#[trigger] r@[i]@) == support_of(state@, queries@[i]@),
{
    let n = queries.len();
    let mut r: Vec<SupportResult> = Vec::new();
    let mut i: usize = 0;
    while i < n
        invariant
            n == queries@.len(),
            i <= n,
            state.wf(),
            r@.len() == i,
            forall|j: int| 0 <= j < i ==> (#[trigger] r@[j]@) == support_of(state@, queries@[j]@),
        decreases n - i,
    {
        let q = &queries[i];
        if is_builtin_standard(q) {
            r.push(SupportResult::Support);
        } else {
            r.push(state.have_implementors(q));
        }
        i += 1;
    }
    r
}

/// Record the implementors of a standard; only the contract owner may.
pub fn contract_set_implementor(state: &mut State, sender: Address, owner: AccountAddress, params: SetImplementorsParams) -> (r: ContractResult<()>)
    requires
        old(state).wf(),
    ensures
        final(state).wf(),
        if sender != Address::Account(owner) {
            &&& r == Err::<(), ContractError>(ContractError::Unauthorized)
            &&& final(state)@ == old(state)@
        } else {
            &&& r == Ok::<(), ContractError>(())
            &&& final(state)@ == old(state)@.with_implementors(params.id@, params.implementors@)
        },
{
    let authorized = match sender {
        Address::Account(a) => a == owner,
        Address::Contract(_) => false,
    };
    if !authorized {
        return Err(ContractError::Unauthorized);
    }
    state.set_implementors(params.id, params.implementors);
    Ok(())
}

} // verus!
