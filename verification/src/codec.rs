//! The binary event codec.
//!
//! Every event is encoded as a single leading tag byte followed by the
//! fixed-shape payload of its variant, fields in declaration order.
//! Integers are little-endian; a string is its byte length as a `u32`
//! followed by its UTF-8 bytes; an address is a one-byte kind followed by
//! its numeric parts; an optional hash is a one-byte presence flag
//! followed by 32 bytes. Decoding reads the tag first and dispatches; an
//! unrecognized tag, a truncated payload, malformed text or trailing bytes
//! are a decode failure. Encoding then decoding reproduces the event.

use vstd::prelude::*;
use vstd::utf8::{decode_utf8, encode_utf8, valid_utf8};

use crate::events::{ContractEvent, ContractEventView, DeployEvent, DeployEventView, MetadataUrl, MetadataUrlView, MintEvent, MintedEvent, MintedEventView, OperatorUpdate, TokenMetadataEvent, TokenMetadataEventView, TransferEvent, UpdateOperatorEvent};
use crate::types::{Address, ContractAddress};

verus! {

/// Tag byte of a `Transfer` event, from the token standard.
pub const TRANSFER_EVENT_TAG: u8 = 255;

/// Tag byte of a `Mint` event, from the token standard.
pub const MINT_EVENT_TAG: u8 = 254;

/// Tag byte of an `UpdateOperator` event, from the token standard.
pub const UPDATE_OPERATOR_EVENT_TAG: u8 = 252;

/// Tag byte of a `TokenMetadata` event, from the token standard.
pub const TOKEN_METADATA_EVENT_TAG: u8 = 251;

/// Tag byte of a `Minted` event, specific to this ledger.
pub const MINTED_EVENT_TAG: u8 = 0;

/// Tag byte of a `Deploy` event, specific to this ledger.
pub const DEPLOY_EVENT_TAG: u8 = 1;

pub open spec fn spec_enc_u32(x: u32) -> Seq<u8> {
    seq![
        (x & 0xff) as u8,
        ((x >> 8) & 0xff) as u8,
        ((x >> 16) & 0xff) as u8,
        ((x >> 24) & 0xff) as u8,
    ]
}

pub open spec fn spec_enc_u64(x: u64) -> Seq<u8> {
    seq![
        (x & 0xff) as u8,
        ((x >> 8) & 0xff) as u8,
        ((x >> 16) & 0xff) as u8,
        ((x >> 24) & 0xff) as u8,
        ((x >> 32) & 0xff) as u8,
        ((x >> 40) & 0xff) as u8,
        ((x >> 48) & 0xff) as u8,
        ((x >> 56) & 0xff) as u8,
    ]
}

pub open spec fn spec_enc_address(a: Address) -> Seq<u8> {
    match a {
        Address::Account(x) => seq![0u8] + spec_enc_u64(x),
        Address::Contract(c) => seq![1u8] + spec_enc_u64(c.index) + spec_enc_u64(c.subindex),
    }
}

/// A string's characters fit the length prefix once UTF-8 encoded.
pub open spec fn string_fits(s: Seq<char>) -> bool {
    encode_utf8(s).len() <= u32::MAX as nat
}

pub open spec fn spec_enc_string(s: Seq<char>) -> Seq<u8> {
    spec_enc_u32(encode_utf8(s).len() as u32) + encode_utf8(s)
}

pub open spec fn spec_enc_url(u: MetadataUrlView) -> Seq<u8> {
    spec_enc_string(u.url) + match u.hash {
        None => seq![0u8],
        Some(h) => seq![1u8] + h,
    }
}

pub open spec fn spec_enc_operator_update(u: OperatorUpdate) -> Seq<u8> {
    match u {
        OperatorUpdate::Remove => seq![0u8],
        OperatorUpdate::Add => seq![1u8],
    }
}

/// A metadata URL can be encoded: the text fits, and a hash, if any, is
/// exactly 32 bytes.
pub open spec fn url_wf(u: MetadataUrlView) -> bool {
    string_fits(u.url) && (u.hash is Some ==> u.hash->0.len() == 32)
}

/// An event can be encoded: every string in it fits its length prefix and
/// every hash is exactly 32 bytes.
pub open spec fn event_wf(e: ContractEventView) -> bool {
    match e {
        ContractEventView::Mint(_) => true,
        ContractEventView::TokenMetadata(ev) => url_wf(ev.metadata_url),
        ContractEventView::Transfer(_) => true,
        ContractEventView::Minted(ev) => url_wf(ev.token_uri),
        ContractEventView::Deploy(ev) => string_fits(ev.name) && string_fits(ev.symbol) && url_wf(ev.contract_uri),
        ContractEventView::UpdateOperator(_) => true,
    }
}

/// The byte form of an event: its tag, then its payload.
pub open spec fn spec_encode_event(e: ContractEventView) -> Seq<u8> {
    match e {
        ContractEventView::Mint(ev) => seq![MINT_EVENT_TAG] + spec_enc_u32(ev.token_id)
            + seq![ev.amount] + spec_enc_address(ev.owner),
        ContractEventView::TokenMetadata(ev) => seq![TOKEN_METADATA_EVENT_TAG]
            + spec_enc_u32(ev.token_id) + spec_enc_url(ev.metadata_url),
        ContractEventView::Transfer(ev) => seq![TRANSFER_EVENT_TAG] + spec_enc_u32(ev.token_id)
            + seq![ev.amount] + spec_enc_address(ev.from) + spec_enc_address(ev.to),
        ContractEventView::Minted(ev) => seq![MINTED_EVENT_TAG] + spec_enc_u32(ev.token_id)
            + spec_enc_u32(ev.mint_count) + spec_enc_u64(ev.timestamp) + spec_enc_url(ev.token_uri),
        ContractEventView::Deploy(ev) => seq![DEPLOY_EVENT_TAG] + spec_enc_string(ev.name)
            + spec_enc_string(ev.symbol) + spec_enc_url(ev.contract_uri) + spec_enc_u64(ev.minter)
            + spec_enc_u64(ev.mint_start) + spec_enc_u64(ev.mint_deadline)
            + spec_enc_u32(ev.max_total_supply),
        ContractEventView::UpdateOperator(ev) => seq![UPDATE_OPERATOR_EVENT_TAG]
            + spec_enc_operator_update(ev.update) + spec_enc_address(ev.owner)
            + spec_enc_address(ev.operator),
    }
}

pub open spec fn spec_dec_u8(b: Seq<u8>, pos: int) -> Option<(u8, int)> {
    if 0 <= pos && pos + 1 <= b.len() {
        Some((b[pos], pos + 1))
    } else {
        None
    }
}

pub open spec fn spec_dec_u32(b: Seq<u8>, pos: int) -> Option<(u32, int)> {
    if 0 <= pos && pos + 4 <= b.len() {
        Some((
            (b[pos] as u32) | ((b[pos + 1] as u32) << 8) | ((b[pos + 2] as u32) << 16) | (
            (b[pos + 3] as u32) << 24),
            pos + 4,
        ))
    } else {
        None
    }
}

pub open spec fn spec_dec_u64(b: Seq<u8>, pos: int) -> Option<(u64, int)> {
    if 0 <= pos && pos + 8 <= b.len() {
        Some((
            (b[pos] as u64) | ((b[pos + 1] as u64) << 8) | ((b[pos + 2] as u64) << 16) | (
            (b[pos + 3] as u64) << 24) | ((b[pos + 4] as u64) << 32) | ((b[pos + 5] as u64) << 40)
                | ((b[pos + 6] as u64) << 48) | ((b[pos + 7] as u64) << 56),
            pos + 8,
        ))
    } else {
        None
    }
}

pub open spec fn spec_dec_address(b: Seq<u8>, pos: int) -> Option<(Address, int)> {
    match spec_dec_u8(b, pos) {
        None => None,
        Some((kind, p)) => if kind == 0 {
            match spec_dec_u64(b, p) {
                None => None,
                Some((x, p2)) => Some((Address::Account(x), p2)),
            }
        } else if kind == 1 {
            match spec_dec_u64(b, p) {
                None => None,
                Some((index, p2)) => match spec_dec_u64(b, p2) {
                    None => None,
                    Some((subindex, p3)) => Some((
                        Address::Contract(ContractAddress { index, subindex }),
                        p3,
                    )),
                },
            }
        } else {
            None
        },
    }
}

pub open spec fn spec_dec_string(b: Seq<u8>, pos: int) -> Option<(Seq<char>, int)> {
    match spec_dec_u32(b, pos) {
        None => None,
        Some((len, p)) => if p + len <= b.len() && valid_utf8(b.subrange(p, p + len)) {
            Some((decode_utf8(b.subrange(p, p + len)), p + len))
        } else {
            None
        },
    }
}

pub open spec fn spec_dec_url(b: Seq<u8>, pos: int) -> Option<(MetadataUrlView, int)> {
    match spec_dec_string(b, pos) {
        None => None,
        Some((url, p)) => match spec_dec_u8(b, p) {
            None => None,
            Some((flag, p2)) => if flag == 0 {
                Some((MetadataUrlView { url, hash: None }, p2))
            } else if flag == 1 {
                if p2 + 32 <= b.len() {
                    Some((MetadataUrlView { url, hash: Some(b.subrange(p2, p2 + 32)) }, p2 + 32))
                } else {
                    None
                }
            } else {
                None
            },
        },
    }
}

pub open spec fn spec_dec_operator_update(b: Seq<u8>, pos: int) -> Option<(OperatorUpdate, int)> {
    match spec_dec_u8(b, pos) {
        None => None,
        Some((x, p)) => if x == 0 {
            Some((OperatorUpdate::Remove, p))
        } else if x == 1 {
            Some((OperatorUpdate::Add, p))
        } else {
            None
        },
    }
}

/// The event a byte string holds, if it is exactly one well-formed event:
/// the tag dispatches, and nothing may follow the payload.
pub open spec fn spec_decode_event(b: Seq<u8>) -> Option<ContractEventView> {
    match spec_dec_u8(b, 0) {
        None => None,
        Some((tag, p0)) => if tag == MINT_EVENT_TAG {
            match spec_dec_u32(b, p0) {
                None => None,
                Some((token_id, p1)) => match spec_dec_u8(b, p1) {
                    None => None,
                    Some((amount, p2)) => match spec_dec_address(b, p2) {
                        None => None,
                        Some((owner, p3)) => if p3 == b.len() {
                            Some(ContractEventView::Mint(MintEvent { token_id, amount, owner }))
                        } else {
                            None
                        },
                    },
                },
            }
        } else if tag == TOKEN_METADATA_EVENT_TAG {
            match spec_dec_u32(b, p0) {
                None => None,
                Some((token_id, p1)) => match spec_dec_url(b, p1) {
                    None => None,
                    Some((metadata_url, p2)) => if p2 == b.len() {
                        Some(ContractEventView::TokenMetadata(TokenMetadataEventView {
                            token_id,
                            metadata_url,
                        }))
                    } else {
                        None
                    },
                },
            }
        } else if tag == TRANSFER_EVENT_TAG {
            match spec_dec_u32(b, p0) {
                None => None,
                Some((token_id, p1)) => match spec_dec_u8(b, p1) {
                    None => None,
                    Some((amount, p2)) => match spec_dec_address(b, p2) {
                        None => None,
                        Some((from, p3)) => match spec_dec_address(b, p3) {
                            None => None,
                            Some((to, p4)) => if p4 == b.len() {
                                Some(ContractEventView::Transfer(TransferEvent {
                                    token_id,
                                    amount,
                                    from,
                                    to,
                                }))
                            } else {
                                None
                            },
                        },
                    },
                },
            }
        } else if tag == MINTED_EVENT_TAG {
            match spec_dec_u32(b, p0) {
                None => None,
                Some((token_id, p1)) => match spec_dec_u32(b, p1) {
                    None => None,
                    Some((mint_count, p2)) => match spec_dec_u64(b, p2) {
                        None => None,
                        Some((timestamp, p3)) => match spec_dec_url(b, p3) {
                            None => None,
                            Some((token_uri, p4)) => if p4 == b.len() {
                                Some(ContractEventView::Minted(MintedEventView {
                                    token_id,
                                    mint_count,
                                    timestamp,
                                    token_uri,
                                }))
                            } else {
                                None
                            },
                        },
                    },
                },
            }
        } else if tag == DEPLOY_EVENT_TAG {
            match spec_dec_string(b, p0) {
                None => None,
                Some((name, p1)) => match spec_dec_string(b, p1) {
                    None => None,
                    Some((symbol, p2)) => match spec_dec_url(b, p2) {
                        None => None,
                        Some((contract_uri, p3)) => match spec_dec_u64(b, p3) {
                            None => None,
                            Some((minter, p4)) => match spec_dec_u64(b, p4) {
                                None => None,
                                Some((mint_start, p5)) => match spec_dec_u64(b, p5) {
                                    None => None,
                                    Some((mint_deadline, p6)) => match spec_dec_u32(b, p6) {
                                        None => None,
                                        Some((max_total_supply, p7)) => if p7 == b.len() {
                                            Some(ContractEventView::Deploy(DeployEventView {
                                                name,
                                                symbol,
                                                contract_uri,
                                                minter,
                                                mint_start,
                                                mint_deadline,
                                                max_total_supply,
                                            }))
                                        } else {
                                            None
                                        },
                                    },
                                },
                            },
                        },
                    },
                },
            }
        } else if tag == UPDATE_OPERATOR_EVENT_TAG {
            match spec_dec_operator_update(b, p0) {
                None => None,
                Some((update, p1)) => match spec_dec_address(b, p1) {
                    None => None,
                    Some((owner, p2)) => match spec_dec_address(b, p2) {
                        None => None,
                        Some((operator, p3)) => if p3 == b.len() {
                            Some(ContractEventView::UpdateOperator(UpdateOperatorEvent {
                                update,
                                owner,
                                operator,
                            }))
                        } else {
                            None
                        },
                    },
                },
            }
        } else {
            None
        },
    }
}

proof fn lemma_dec_u32_at(b: Seq<u8>, pos: int, x: u32)
    requires
        0 <= pos,
        pos + 4 <= b.len(),
        b.subrange(pos, pos + 4) == spec_enc_u32(x),
    ensures
        spec_dec_u32(b, pos) == Some((x, pos + 4)),
{
    let pre = b.subrange(0, pos);
    let suf = b.subrange(pos + 4, b.len() as int);
    assert(b =~= pre + spec_enc_u32(x) + suf);
    assert(b[pos] == spec_enc_u32(x)[0]);
    assert(b[pos + 1] == spec_enc_u32(x)[1]);
    assert(b[pos + 2] == spec_enc_u32(x)[2]);
    assert(b[pos + 3] == spec_enc_u32(x)[3]);
    assert((((x & 0xff) as u8) as u32) | (((((x >> 8) & 0xff) as u8) as u32) << 8) | (((((x >> 16)
        & 0xff) as u8) as u32) << 16) | (((((x >> 24) & 0xff) as u8) as u32) << 24) == x)
        by (bit_vector);
}

proof fn lemma_dec_u64_at(b: Seq<u8>, pos: int, x: u64)
    requires
        0 <= pos,
        pos + 8 <= b.len(),
        b.subrange(pos, pos + 8) == spec_enc_u64(x),
    ensures
        spec_dec_u64(b, pos) == Some((x, pos + 8)),
{
    let pre = b.subrange(0, pos);
    let suf = b.subrange(pos + 8, b.len() as int);
    assert(b =~= pre + spec_enc_u64(x) + suf);
    assert(b[pos] == spec_enc_u64(x)[0]);
    assert(b[pos + 1] == spec_enc_u64(x)[1]);
    assert(b[pos + 2] == spec_enc_u64(x)[2]);
    assert(b[pos + 3] == spec_enc_u64(x)[3]);
    assert(b[pos + 4] == spec_enc_u64(x)[4]);
    assert(b[pos + 5] == spec_enc_u64(x)[5]);
    assert(b[pos + 6] == spec_enc_u64(x)[6]);
    assert(b[pos + 7] == spec_enc_u64(x)[7]);
    assert((((x & 0xff) as u8) as u64) | (((((x >> 8) & 0xff) as u8) as u64) << 8) | (((((x >> 16)
        & 0xff) as u8) as u64) << 16) | (((((x >> 24) & 0xff) as u8) as u64) << 24) | (((((x >> 32)
        & 0xff) as u8) as u64) << 32) | (((((x >> 40) & 0xff) as u8) as u64) << 40) | (((((x >> 48)
        & 0xff) as u8) as u64) << 48) | (((((x >> 56) & 0xff) as u8) as u64) << 56) == x)
        by (bit_vector);
}

proof fn lemma_dec_address_at(b: Seq<u8>, pos: int, a: Address)
    requires
        0 <= pos,
        pos + spec_enc_address(a).len() <= b.len(),
        b.subrange(pos, pos + spec_enc_address(a).len() as int) == spec_enc_address(a),
    ensures
        spec_dec_address(b, pos) == Some((a, pos + spec_enc_address(a).len())),
{
    let e = spec_enc_address(a);
    let pre = b.subrange(0, pos);
    let suf = b.subrange(pos + e.len() as int, b.len() as int);
    assert(b =~= pre + e + suf);
    match a {
        Address::Account(x) => {
            assert(e.len() == 9);
            assert(b[pos] == 0u8);
            assert(b.subrange(pos + 1, pos + 9) =~= spec_enc_u64(x));
            lemma_dec_u64_at(b, pos + 1, x);
        },
        Address::Contract(c) => {
            assert(e.len() == 17);
            assert(b[pos] == 1u8);
            assert(b.subrange(pos + 1, pos + 9) =~= spec_enc_u64(c.index));
            assert(b.subrange(pos + 9, pos + 17) =~= spec_enc_u64(c.subindex));
            lemma_dec_u64_at(b, pos + 1, c.index);
            lemma_dec_u64_at(b, pos + 9, c.subindex);
        },
    }
}

proof fn lemma_dec_string_at(b: Seq<u8>, pos: int, s: Seq<char>)
    requires
        0 <= pos,
        string_fits(s),
        pos + spec_enc_string(s).len() <= b.len(),
        b.subrange(pos, pos + spec_enc_string(s).len() as int) == spec_enc_string(s),
    ensures
        spec_dec_string(b, pos) == Some((s, pos + spec_enc_string(s).len())),
{
    let u = encode_utf8(s);
    let e = spec_enc_string(s);
    assert(e.len() == 4 + u.len());
    let pre = b.subrange(0, pos);
    let suf = b.subrange(pos + e.len() as int, b.len() as int);
    assert(b =~= pre + e + suf);
    assert(b.subrange(pos, pos + 4) =~= spec_enc_u32(u.len() as u32));
    lemma_dec_u32_at(b, pos, u.len() as u32);
    assert(b.subrange(pos + 4, pos + 4 + u.len() as int) =~= u);
    vstd::utf8::encode_utf8_valid_utf8(s);
    vstd::utf8::encode_utf8_decode_utf8(s);
}

proof fn lemma_dec_url_at(b: Seq<u8>, pos: int, u: MetadataUrlView)
    requires
        0 <= pos,
        url_wf(u),
        pos + spec_enc_url(u).len() <= b.len(),
        b.subrange(pos, pos + spec_enc_url(u).len() as int) == spec_enc_url(u),
    ensures
        spec_dec_url(b, pos) == Some((u, pos + spec_enc_url(u).len())),
{
    let es = spec_enc_string(u.url);
    let e = spec_enc_url(u);
    let pre = b.subrange(0, pos);
    let suf = b.subrange(pos + e.len() as int, b.len() as int);
    assert(b =~= pre + e + suf);
    assert(b.subrange(pos, pos + es.len() as int) =~= es);
    lemma_dec_string_at(b, pos, u.url);
    let p = pos + es.len() as int;
    match u.hash {
        None => {
            assert(b[p] == 0u8);
        },
        Some(h) => {
            assert(b[p] == 1u8);
            assert(b.subrange(p + 1, p + 33) =~= h);
        },
    }
}

proof fn lemma_dec_operator_update_at(b: Seq<u8>, pos: int, u: OperatorUpdate)
    requires
        0 <= pos,
        pos + 1 <= b.len(),
        b.subrange(pos, pos + 1) == spec_enc_operator_update(u),
    ensures
        spec_dec_operator_update(b, pos) == Some((u, pos + 1)),
{
    assert(b[pos] == spec_enc_operator_update(u)[0]) by {
        assert(b.subrange(pos, pos + 1)[0] == b[pos]);
    }
}

#[verifier::rlimit(100)]
proof fn lemma_rt_mint(ev: MintEvent)
    ensures
        spec_decode_event(spec_encode_event(ContractEventView::Mint(ev))) == Some(
            ContractEventView::Mint(ev),
        ),
{
    let b = spec_encode_event(ContractEventView::Mint(ev));
    let ea = spec_enc_address(ev.owner);
    assert(b[0] == MINT_EVENT_TAG);
    assert(b.subrange(1, 5) =~= spec_enc_u32(ev.token_id));
    lemma_dec_u32_at(b, 1, ev.token_id);
    assert(b[5] == ev.amount);
    assert(b.subrange(6, 6 + ea.len() as int) =~= ea);
    lemma_dec_address_at(b, 6, ev.owner);
    assert(6 + ea.len() == b.len());
}

#[verifier::rlimit(100)]
proof fn lemma_rt_token_metadata(ev: TokenMetadataEventView)
    requires
        url_wf(ev.metadata_url),
    ensures
        spec_decode_event(spec_encode_event(ContractEventView::TokenMetadata(ev))) == Some(
            ContractEventView::TokenMetadata(ev),
        ),
{
    let b = spec_encode_event(ContractEventView::TokenMetadata(ev));
    let eu = spec_enc_url(ev.metadata_url);
    assert(b[0] == TOKEN_METADATA_EVENT_TAG);
    assert(b.subrange(1, 5) =~= spec_enc_u32(ev.token_id));
    lemma_dec_u32_at(b, 1, ev.token_id);
    assert(b.subrange(5, 5 + eu.len() as int) =~= eu);
    lemma_dec_url_at(b, 5, ev.metadata_url);
    assert(5 + eu.len() == b.len());
}

#[verifier::rlimit(100)]
proof fn lemma_rt_transfer(ev: TransferEvent)
    ensures
        spec_decode_event(spec_encode_event(ContractEventView::Transfer(ev))) == Some(
            ContractEventView::Transfer(ev),
        ),
{
    let b = spec_encode_event(ContractEventView::Transfer(ev));
    let ef = spec_enc_address(ev.from);
    let et = spec_enc_address(ev.to);
    assert(b[0] == TRANSFER_EVENT_TAG);
    assert(b.subrange(1, 5) =~= spec_enc_u32(ev.token_id));
    lemma_dec_u32_at(b, 1, ev.token_id);
    assert(b[5] == ev.amount);
    assert(b.subrange(6, 6 + ef.len() as int) =~= ef);
    lemma_dec_address_at(b, 6, ev.from);
    let p = 6 + ef.len() as int;
    assert(b.subrange(p, p + et.len() as int) =~= et);
    lemma_dec_address_at(b, p, ev.to);
    assert(p + et.len() == b.len());
}

#[verifier::rlimit(100)]
proof fn lemma_rt_minted(ev: MintedEventView)
    requires
        url_wf(ev.token_uri),
    ensures
        spec_decode_event(spec_encode_event(ContractEventView::Minted(ev))) == Some(
            ContractEventView::Minted(ev),
        ),
{
    let b = spec_encode_event(ContractEventView::Minted(ev));
    let eu = spec_enc_url(ev.token_uri);
    assert(b[0] == MINTED_EVENT_TAG);
    assert(b.subrange(1, 5) =~= spec_enc_u32(ev.token_id));
    lemma_dec_u32_at(b, 1, ev.token_id);
    assert(b.subrange(5, 9) =~= spec_enc_u32(ev.mint_count));
    lemma_dec_u32_at(b, 5, ev.mint_count);
    assert(b.subrange(9, 17) =~= spec_enc_u64(ev.timestamp));
    lemma_dec_u64_at(b, 9, ev.timestamp);
    assert(b.subrange(17, 17 + eu.len() as int) =~= eu);
    lemma_dec_url_at(b, 17, ev.token_uri);
    assert(17 + eu.len() == b.len());
}

#[verifier::rlimit(100)]
proof fn lemma_rt_deploy(ev: DeployEventView)
    requires
        string_fits(ev.name),
        string_fits(ev.symbol),
        url_wf(ev.contract_uri),
    ensures
        spec_decode_event(spec_encode_event(ContractEventView::Deploy(ev))) == Some(
            ContractEventView::Deploy(ev),
        ),
{
    let b = spec_encode_event(ContractEventView::Deploy(ev));
    let en = spec_enc_string(ev.name);
    let es = spec_enc_string(ev.symbol);
    let eu = spec_enc_url(ev.contract_uri);
    assert(b[0] == DEPLOY_EVENT_TAG);
    let p1 = 1 + en.len() as int;
    let p2 = p1 + es.len() as int;
    let p3 = p2 + eu.len() as int;
    assert(b.subrange(1, p1) =~= en);
    lemma_dec_string_at(b, 1, ev.name);
    assert(b.subrange(p1, p2) =~= es);
    lemma_dec_string_at(b, p1, ev.symbol);
    assert(b.subrange(p2, p3) =~= eu);
    lemma_dec_url_at(b, p2, ev.contract_uri);
    assert(b.subrange(p3, p3 + 8) =~= spec_enc_u64(ev.minter));
    lemma_dec_u64_at(b, p3, ev.minter);
    assert(b.subrange(p3 + 8, p3 + 16) =~= spec_enc_u64(ev.mint_start));
    lemma_dec_u64_at(b, p3 + 8, ev.mint_start);
    assert(b.subrange(p3 + 16, p3 + 24) =~= spec_enc_u64(ev.mint_deadline));
    lemma_dec_u64_at(b, p3 + 16, ev.mint_deadline);
    assert(b.subrange(p3 + 24, p3 + 28) =~= spec_enc_u32(ev.max_total_supply));
    lemma_dec_u32_at(b, p3 + 24, ev.max_total_supply);
    assert(p3 + 28 == b.len());
}

#[verifier::rlimit(100)]
proof fn lemma_rt_update_operator(ev: UpdateOperatorEvent)
    ensures
        spec_decode_event(spec_encode_event(ContractEventView::UpdateOperator(ev))) == Some(
            ContractEventView::UpdateOperator(ev),
        ),
{
    let b = spec_encode_event(ContractEventView::UpdateOperator(ev));
    let eo = spec_enc_address(ev.owner);
    let ep = spec_enc_address(ev.operator);
    assert(b[0] == UPDATE_OPERATOR_EVENT_TAG);
    assert(b.subrange(1, 2) =~= spec_enc_operator_update(ev.update));
    lemma_dec_operator_update_at(b, 1, ev.update);
    assert(b.subrange(2, 2 + eo.len() as int) =~= eo);
    lemma_dec_address_at(b, 2, ev.owner);
    let p = 2 + eo.len() as int;
    assert(b.subrange(p, p + ep.len() as int) =~= ep);
    lemma_dec_address_at(b, p, ev.operator);
    assert(p + ep.len() == b.len());
}

/// Round trip: decoding the encoding of any well-formed event gives back
/// exactly that event.
pub proof fn lemma_event_round_trip(e: ContractEventView)
    requires
        event_wf(e),
    ensures
        spec_decode_event(spec_encode_event(e)) == Some(e),
{
    match e {
        ContractEventView::Mint(ev) => lemma_rt_mint(ev),
        ContractEventView::TokenMetadata(ev) => lemma_rt_token_metadata(ev),
        ContractEventView::Transfer(ev) => lemma_rt_transfer(ev),
        ContractEventView::Minted(ev) => lemma_rt_minted(ev),
        ContractEventView::Deploy(ev) => lemma_rt_deploy(ev),
        ContractEventView::UpdateOperator(ev) => lemma_rt_update_operator(ev),
    }
}

fn push_u32(out: &mut Vec<u8>, x: u32)
    ensures
        final(out)@ == old(out)@ + spec_enc_u32(x),
{
    out.push((x & 0xff) as u8);
    out.push(((x >> 8) & 0xff) as u8);
    out.push(((x >> 16) & 0xff) as u8);
    out.push(((x >> 24) & 0xff) as u8);
    proof {
        assert(out@ =~= old(out)@ + spec_enc_u32(x));
    }
}

fn push_u64(out: &mut Vec<u8>, x: u64)
    ensures
        final(out)@ == old(out)@ + spec_enc_u64(x),
{
    out.push((x & 0xff) as u8);
    out.push(((x >> 8) & 0xff) as u8);
    out.push(((x >> 16) & 0xff) as u8);
    out.push(((x >> 24) & 0xff) as u8);
    out.push(((x >> 32) & 0xff) as u8);
    out.push(((x >> 40) & 0xff) as u8);
    out.push(((x >> 48) & 0xff) as u8);
    out.push(((x >> 56) & 0xff) as u8);
    proof {
        assert(out@ =~= old(out)@ + spec_enc_u64(x));
    }
}

fn push_address(out: &mut Vec<u8>, a: &Address)
    ensures
        final(out)@ == old(out)@ + spec_enc_address(*a),
{
    match a {
        Address::Account(x) => {
            out.push(0);
            push_u64(out, *x);
        },
        Address::Contract(c) => {
            out.push(1);
            push_u64(out, c.index);
            push_u64(out, c.subindex);
        },
    }
    proof {
        assert(out@ =~= old(out)@ + spec_enc_address(*a));
    }
}

fn push_slice(out: &mut Vec<u8>, bytes: &Vec<u8>)
    ensures
        final(out)@ == old(out)@ + bytes@,
{
    let n = bytes.len();
    let mut i: usize = 0;
    while i < n
        invariant
            n == bytes@.len(),
            i <= n,
            out@ == old(out)@ + bytes@.subrange(0, i as int),
        decreases n - i,
    {
        out.push(bytes[i]);
        proof {
            assert(out@ =~= old(out)@ + bytes@.subrange(0, i + 1));
        }
        i += 1;
    }
    proof {
        assert(out@ =~= old(out)@ + bytes@);
    }
}

fn push_string(out: &mut Vec<u8>, s: &String) -> (ok: bool)
    ensures
        ok == string_fits(s@),
        ok ==> final(out)@ == old(out)@ + spec_enc_string(s@),
        !ok ==> final(out)@ == old(out)@,
{
    let bytes = s.as_str().as_bytes_vec();
    if bytes.len() > u32::MAX as usize {
        return false;
    }
    push_u32(out, bytes.len() as u32);
    push_slice(out, &bytes);
    proof {
        assert(out@ =~= old(out)@ + spec_enc_string(s@));
    }
    true
}

fn push_url(out: &mut Vec<u8>, u: &MetadataUrl) -> (ok: bool)
    ensures
        ok == url_wf(u@),
        ok ==> final(out)@ == old(out)@ + spec_enc_url(u@),
        !ok ==> final(out)@ == old(out)@,
{
    let hash_ok = match &u.hash {
        None => true,
        Some(h) => h.len() == 32,
    };
    if !hash_ok {
        return false;
    }
    if !push_string(out, &u.url) {
        return false;
    }
    match &u.hash {
        None => {
            out.push(0);
        },
        Some(h) => {
            out.push(1);
            push_slice(out, h);
        },
    }
    proof {
        assert(out@ =~= old(out)@ + spec_enc_url(u@));
    }
    true
}

/// The byte form of an event, or nothing when a string in it is too long
/// for its length prefix or a hash is not exactly 32 bytes.
pub fn encode_event(e: &ContractEvent) -> (r: Option<Vec<u8>>)
    ensures
        match r {
            Some(v) => event_wf(e@) && v@ == spec_encode_event(e@),
            None => !event_wf(e@),
        },
{
    let mut out: Vec<u8> = Vec::new();
    match e {
        ContractEvent::Mint(ev) => {
            out.push(MINT_EVENT_TAG);
            push_u32(&mut out, ev.token_id);
            out.push(ev.amount);
            push_address(&mut out, &ev.owner);
            proof {
                assert(out@ =~= spec_encode_event(e@));
            }
            Some(out)
        },
        ContractEvent::TokenMetadata(ev) => {
            out.push(TOKEN_METADATA_EVENT_TAG);
            push_u32(&mut out, ev.token_id);
            if !push_url(&mut out, &ev.metadata_url) {
                return None;
            }
            proof {
                assert(out@ =~= spec_encode_event(e@));
            }
            Some(out)
        },
        ContractEvent::Transfer(ev) => {
            out.push(TRANSFER_EVENT_TAG);
            push_u32(&mut out, ev.token_id);
            out.push(ev.amount);
            push_address(&mut out, &ev.from);
            push_address(&mut out, &ev.to);
            proof {
                assert(out@ =~= spec_encode_event(e@));
            }
            Some(out)
        },
        ContractEvent::Minted(ev) => {
            out.push(MINTED_EVENT_TAG);
            push_u32(&mut out, ev.token_id);
            push_u32(&mut out, ev.mint_count);
            push_u64(&mut out, ev.timestamp);
            if !push_url(&mut out, &ev.token_uri) {
                return None;
            }
            proof {
                assert(out@ =~= spec_encode_event(e@));
            }
            Some(out)
        },
        ContractEvent::Deploy(ev) => {
            out.push(DEPLOY_EVENT_TAG);
            if !push_string(&mut out, &ev.name) {
                return None;
            }
            if !push_string(&mut out, &ev.symbol) {
                return None;
            }
            if !push_url(&mut out, &ev.contract_uri) {
                return None;
            }
            push_u64(&mut out, ev.minter);
            push_u64(&mut out, ev.mint_start);
            push_u64(&mut out, ev.mint_deadline);
            push_u32(&mut out, ev.max_total_supply);
            proof {
                assert(out@ =~= spec_encode_event(e@));
            }
            Some(out)
        },
        ContractEvent::UpdateOperator(ev) => {
            out.push(UPDATE_OPERATOR_EVENT_TAG);
            match ev.update {
                OperatorUpdate::Remove => out.push(0),
                OperatorUpdate::Add => out.push(1),
            }
            push_address(&mut out, &ev.owner);
            push_address(&mut out, &ev.operator);
            proof {
                assert(out@ =~= spec_encode_event(e@));
            }
            Some(out)
        },
    }
}

/// Relies on `String::from_utf8` of the standard library: it succeeds
/// exactly on valid UTF-8, and then returns the string whose UTF-8
/// encoding is the given bytes.
#[verifier::external_body]
fn string_from_utf8(bytes: Vec<u8>) -> (r: Option<String>)
    ensures
        r is Some <==> valid_utf8(bytes@),
        r is Some ==> encode_utf8(r.unwrap()@) == bytes@,
{
    String::from_utf8(bytes).ok()
}

fn dec_u8(b: &Vec<u8>, pos: usize) -> (r: Option<(u8, usize)>)
    ensures
        match r {
            Some(v) => spec_dec_u8(b@, pos as int) == Some((v.0, v.1 as int)),
            None => spec_dec_u8(b@, pos as int) is None,
        },
{
    if pos < b.len() {
        Some((b[pos], pos + 1))
    } else {
        None
    }
}

fn dec_u32(b: &Vec<u8>, pos: usize) -> (r: Option<(u32, usize)>)
    ensures
        match r {
            Some(v) => spec_dec_u32(b@, pos as int) == Some((v.0, v.1 as int)),
            None => spec_dec_u32(b@, pos as int) is None,
        },
{
    if b.len() < 4 || pos > b.len() - 4 {
        return None;
    }
    let x = (b[pos] as u32) | ((b[pos + 1] as u32) << 8) | ((b[pos + 2] as u32) << 16) | ((b[pos
        + 3] as u32) << 24);
    Some((x, pos + 4))
}

fn dec_u64(b: &Vec<u8>, pos: usize) -> (r: Option<(u64, usize)>)
    ensures
        match r {
            Some(v) => spec_dec_u64(b@, pos as int) == Some((v.0, v.1 as int)),
            None => spec_dec_u64(b@, pos as int) is None,
        },
{
    if b.len() < 8 || pos > b.len() - 8 {
        return None;
    }
    let x = (b[pos] as u64) | ((b[pos + 1] as u64) << 8) | ((b[pos + 2] as u64) << 16) | ((b[pos
        + 3] as u64) << 24) | ((b[pos + 4] as u64) << 32) | ((b[pos + 5] as u64) << 40) | ((b[pos
        + 6] as u64) << 48) | ((b[pos + 7] as u64) << 56);
    Some((x, pos + 8))
}

fn dec_address(b: &Vec<u8>, pos: usize) -> (r: Option<(Address, usize)>)
    ensures
        match r {
            Some(v) => spec_dec_address(b@, pos as int) == Some((v.0, v.1 as int)),
            None => spec_dec_address(b@, pos as int) is None,
        },
{
    match dec_u8(b, pos) {
        None => None,
        Some((kind, p)) => if kind == 0 {
            match dec_u64(b, p) {
                None => None,
                Some((x, p2)) => Some((Address::Account(x), p2)),
            }
        } else if kind == 1 {
            match dec_u64(b, p) {
                None => None,
                Some((index, p2)) => match dec_u64(b, p2) {
                    None => None,
                    Some((subindex, p3)) => Some((
                        Address::Contract(ContractAddress { index, subindex }),
                        p3,
                    )),
                },
            }
        } else {
            None
        },
    }
}

/// The bytes at `[pos, pos + len)`, if the buffer is long enough.
fn take_bytes(b: &Vec<u8>, pos: usize, len: usize) -> (r: Option<Vec<u8>>)
    requires
        pos <= b@.len(),
    ensures
        match r {
            Some(v) => pos + len <= b@.len() && v@ == b@.subrange(pos as int, pos + len),
            None => pos + len > b@.len(),
        },
{
    if len > b.len() - pos {
        return None;
    }
    let bn = b.len();
    let mut out: Vec<u8> = Vec::new();
    let mut i: usize = 0;
    while i < len
        invariant
            bn == b@.len(),
            pos + len <= bn,
            i <= len,
            out@ == b@.subrange(pos as int, pos + i),
        decreases len - i,
    {
        out.push(b[pos + i]);
        proof {
            assert(out@ =~= b@.subrange(pos as int, pos + i + 1));
        }
        i += 1;
    }
    Some(out)
}

fn dec_string(b: &Vec<u8>, pos: usize) -> (r: Option<(String, usize)>)
    ensures
        match r {
            Some(v) => spec_dec_string(b@, pos as int) == Some((v.0@, v.1 as int)),
            None => spec_dec_string(b@, pos as int) is None,
        },
{
    match dec_u32(b, pos) {
        None => None,
        Some((len, p)) => {
            let len_us = len as usize;
            match take_bytes(b, p, len_us) {
                None => None,
                Some(bytes) => {
                    match string_from_utf8(bytes) {
                        None => None,
                        Some(s) => {
                            let bn = b.len();
                            proof {
                                vstd::utf8::encode_utf8_decode_utf8(s@);
                                assert(p + len_us <= bn);
                            }
                            Some((s, p + len_us))
                        },
                    }
                },
            }
        },
    }
}

fn dec_url(b: &Vec<u8>, pos: usize) -> (r: Option<(MetadataUrl, usize)>)
    ensures
        match r {
            Some(v) => spec_dec_url(b@, pos as int) == Some((v.0@, v.1 as int)),
            None => spec_dec_url(b@, pos as int) is None,
        },
{
    match dec_string(b, pos) {
        None => None,
        Some((url, p)) => match dec_u8(b, p) {
            None => None,
            Some((flag, p2)) => if flag == 0 {
                Some((MetadataUrl { url, hash: None }, p2))
            } else if flag == 1 {
                match take_bytes(b, p2, 32) {
                    None => None,
                    Some(h) => {
                        let bn = b.len();
                        proof {
                            assert(p2 + 32 <= bn);
                        }
                        Some((MetadataUrl { url, hash: Some(h) }, p2 + 32))
                    },
                }
            } else {
                None
            },
        },
    }
}

fn dec_operator_update(b: &Vec<u8>, pos: usize) -> (r: Option<(OperatorUpdate, usize)>)
    ensures
        match r {
            Some(v) => spec_dec_operator_update(b@, pos as int) == Some((v.0, v.1 as int)),
            None => spec_dec_operator_update(b@, pos as int) is None,
        },
{
    match dec_u8(b, pos) {
        None => None,
        Some((x, p)) => if x == 0 {
            Some((OperatorUpdate::Remove, p))
        } else if x == 1 {
            Some((OperatorUpdate::Add, p))
        } else {
            None
        },
    }
}

/// The event a byte string holds, if it is exactly one well-formed event.
/// An unrecognized tag, a truncated payload, malformed text and trailing
/// bytes all fail.
pub fn decode_event(b: &Vec<u8>) -> (r: Option<ContractEvent>)
    ensures
        match r {
            Some(e) => spec_decode_event(b@) == Some(e@),
            None => spec_decode_event(b@) is None,
        },
{
    let tagr = dec_u8(b, 0);
    let (tag, p0) = match tagr {
        None => {
            return None;
        },
        Some(v) => v,
    };
    if tag == MINT_EVENT_TAG {
        match dec_u32(b, p0) {
            None => None,
            Some((token_id, p1)) => match dec_u8(b, p1) {
                None => None,
                Some((amount, p2)) => match dec_address(b, p2) {
                    None => None,
                    Some((owner, p3)) => if p3 == b.len() {
                        Some(ContractEvent::Mint(MintEvent { token_id, amount, owner }))
                    } else {
                        None
                    },
                },
            },
        }
    } else if tag == TOKEN_METADATA_EVENT_TAG {
        match dec_u32(b, p0) {
            None => None,
            Some((token_id, p1)) => match dec_url(b, p1) {
                None => None,
                Some((metadata_url, p2)) => if p2 == b.len() {
                    Some(ContractEvent::TokenMetadata(TokenMetadataEvent { token_id, metadata_url }))
                } else {
                    None
                },
            },
        }
    } else if tag == TRANSFER_EVENT_TAG {
        match dec_u32(b, p0) {
            None => None,
            Some((token_id, p1)) => match dec_u8(b, p1) {
                None => None,
                Some((amount, p2)) => match dec_address(b, p2) {
                    None => None,
                    Some((from, p3)) => match dec_address(b, p3) {
                        None => None,
                        Some((to, p4)) => if p4 == b.len() {
                            Some(ContractEvent::Transfer(TransferEvent { token_id, amount, from, to }))
                        } else {
                            None
                        },
                    },
                },
            },
        }
    } else if tag == MINTED_EVENT_TAG {
        match dec_u32(b, p0) {
            None => None,
            Some((token_id, p1)) => match dec_u32(b, p1) {
                None => None,
                Some((mint_count, p2)) => match dec_u64(b, p2) {
                    None => None,
                    Some((timestamp, p3)) => match dec_url(b, p3) {
                        None => None,
                        Some((token_uri, p4)) => if p4 == b.len() {
                            Some(ContractEvent::Minted(MintedEvent {
                                token_id,
                                mint_count,
                                timestamp,
                                token_uri,
                            }))
                        } else {
                            None
                        },
                    },
                },
            },
        }
    } else if tag == DEPLOY_EVENT_TAG {
        match dec_string(b, p0) {
            None => None,
            Some((name, p1)) => match dec_string(b, p1) {
                None => None,
                Some((symbol, p2)) => match dec_url(b, p2) {
                    None => None,
                    Some((contract_uri, p3)) => match dec_u64(b, p3) {
                        None => None,
                        Some((minter, p4)) => match dec_u64(b, p4) {
                            None => None,
                            Some((mint_start, p5)) => match dec_u64(b, p5) {
                                None => None,
                                Some((mint_deadline, p6)) => match dec_u32(b, p6) {
                                    None => None,
                                    Some((max_total_supply, p7)) => if p7 == b.len() {
                                        Some(ContractEvent::Deploy(DeployEvent {
                                            name,
                                            symbol,
                                            contract_uri,
                                            minter,
                                            mint_start,
                                            mint_deadline,
                                            max_total_supply,
                                        }))
                                    } else {
                                        None
                                    },
                                },
                            },
                        },
                    },
                },
            },
        }
    } else if tag == UPDATE_OPERATOR_EVENT_TAG {
        match dec_operator_update(b, p0) {
            None => None,
            Some((update, p1)) => match dec_address(b, p1) {
                None => None,
                Some((owner, p2)) => match dec_address(b, p2) {
                    None => None,
                    Some((operator, p3)) => if p3 == b.len() {
                        Some(ContractEvent::UpdateOperator(UpdateOperatorEvent {
                            update,
                            owner,
                            operator,
                        }))
                    } else {
                        None
                    },
                },
            },
        }
    } else {
        None
    }
}

/// A byte string whose first byte is none of the six tags never decodes.
pub proof fn lemma_unknown_tag_fails(b: Seq<u8>)
    requires
        b.len() > 0,
        b[0] != MINT_EVENT_TAG,
        b[0] != TOKEN_METADATA_EVENT_TAG,
        b[0] != TRANSFER_EVENT_TAG,
        b[0] != MINTED_EVENT_TAG,
        b[0] != DEPLOY_EVENT_TAG,
        b[0] != UPDATE_OPERATOR_EVENT_TAG,
    ensures
        spec_decode_event(b) is None,
{
}

} // verus!
