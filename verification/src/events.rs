//! The events recorded by the ledger, and their mathematical views.
//!
//! Every state change appends events of these shapes to the call's log. The
//! binary form of an event is defined in `codec`; here are the logical
//! values, each with a view over sequences so that contracts can speak of
//! events exactly.

use vstd::prelude::*;

use crate::types::{AccountAddress, Address, ContractTokenAmount, ContractTokenId, MintCountTokenID};

verus! {

/// A metadata location for a token: a URL and an optional 32-byte checksum.
#[derive(PartialEq, Eq, Clone, Debug)]
pub struct MetadataUrl {
    pub url: String,
    pub hash: Option<Vec<u8>>,
}

pub struct MetadataUrlView {
    pub url: Seq<char>,
    pub hash: Option<Seq<u8>>,
}

impl View for MetadataUrl {
    type V = MetadataUrlView;

    open spec fn view(&self) -> MetadataUrlView {
        MetadataUrlView { url: self.url@, hash: if self.hash is Some { Some(self.hash->0@) } else { None } }
    }
}

/// A token was created and assigned its first owner.
#[derive(PartialEq, Eq, Structural, Clone, Copy, Debug)]
pub struct MintEvent {
    pub token_id: ContractTokenId,
    pub amount: ContractTokenAmount,
    pub owner: Address,
}

/// A token's metadata location was recorded.
#[derive(PartialEq, Eq, Clone, Debug)]
pub struct TokenMetadataEvent {
    pub token_id: ContractTokenId,
    pub metadata_url: MetadataUrl,
}

pub struct TokenMetadataEventView {
    pub token_id: ContractTokenId,
    pub metadata_url: MetadataUrlView,
}

impl View for TokenMetadataEvent {
    type V = TokenMetadataEventView;

    open spec fn view(&self) -> TokenMetadataEventView {
        TokenMetadataEventView { token_id: self.token_id, metadata_url: self.metadata_url@ }
    }
}

/// Ownership of a token moved from one address to another.
#[derive(PartialEq, Eq, Structural, Clone, Copy, Debug)]
pub struct TransferEvent {
    pub token_id: ContractTokenId,
    pub amount: ContractTokenAmount,
    pub from: Address,
    pub to: Address,
}

/// A token was minted: its global mint sequence number and the mint time.
#[derive(PartialEq, Eq, Clone, Debug)]
pub struct MintedEvent {
    pub token_id: ContractTokenId,
    pub mint_count: MintCountTokenID,
    pub timestamp: u64,
    pub token_uri: MetadataUrl,
}

pub struct MintedEventView {
    pub token_id: ContractTokenId,
    pub mint_count: MintCountTokenID,
    pub timestamp: u64,
    pub token_uri: MetadataUrlView,
}

impl View for MintedEvent {
    type V = MintedEventView;

    open spec fn view(&self) -> MintedEventView {
        MintedEventView {
            token_id: self.token_id,
            mint_count: self.mint_count,
            timestamp: self.timestamp,
            token_uri: self.token_uri@,
        }
    }
}

/// The ledger was created, with its initial configuration.
#[derive(PartialEq, Eq, Clone, Debug)]
pub struct DeployEvent {
    pub name: String,
    pub symbol: String,
    pub contract_uri: MetadataUrl,
    pub minter: AccountAddress,
    pub mint_start: u64,
    pub mint_deadline: u64,
    pub max_total_supply: u32,
}

pub struct DeployEventView {
    pub name: Seq<char>,
    pub symbol: Seq<char>,
    pub contract_uri: MetadataUrlView,
    pub minter: AccountAddress,
    pub mint_start: u64,
    pub mint_deadline: u64,
    pub max_total_supply: u32,
}

impl View for DeployEvent {
    type V = DeployEventView;

    open spec fn view(&self) -> DeployEventView {
        DeployEventView {
            name: self.name@,
            symbol: self.symbol@,
            contract_uri: self.contract_uri@,
            minter: self.minter,
            mint_start: self.mint_start,
            mint_deadline: self.mint_deadline,
            max_total_supply: self.max_total_supply,
        }
    }
}

/// A request to add or to remove an operator.
#[derive(PartialEq, Eq, Structural, Clone, Copy, Debug)]
pub enum OperatorUpdate {
    Remove,
    Add,
}

/// An address was granted or stripped of operator status for an owner.
#[derive(PartialEq, Eq, Structural, Clone, Copy, Debug)]
pub struct UpdateOperatorEvent {
    pub update: OperatorUpdate,
    pub owner: Address,
    pub operator: Address,
}

/// One entry of the event log: a closed set of tagged variants.
#[derive(PartialEq, Eq, Clone, Debug)]
pub enum ContractEvent {
    Mint(MintEvent),
    TokenMetadata(TokenMetadataEvent),
    Transfer(TransferEvent),
    Minted(MintedEvent),
    Deploy(DeployEvent),
    UpdateOperator(UpdateOperatorEvent),
}

pub enum ContractEventView {
    Mint(MintEvent),
    TokenMetadata(TokenMetadataEventView),
    Transfer(TransferEvent),
    Minted(MintedEventView),
    Deploy(DeployEventView),
    UpdateOperator(UpdateOperatorEvent),
}

/// The views of a sequence of logged events.
pub open spec fn views_of_events(s: Seq<ContractEvent>) -> Seq<ContractEventView> {
    s.map_values(|e: ContractEvent| e@)
}

impl View for ContractEvent {
    type V = ContractEventView;

    open spec fn view(&self) -> ContractEventView {
        match self {
            ContractEvent::Mint(e) => ContractEventView::Mint(*e),
            ContractEvent::TokenMetadata(e) => ContractEventView::TokenMetadata(e@),
            ContractEvent::Transfer(e) => ContractEventView::Transfer(*e),
            ContractEvent::Minted(e) => ContractEventView::Minted(e@),
            ContractEvent::Deploy(e) => ContractEventView::Deploy(e@),
            ContractEvent::UpdateOperator(e) => ContractEventView::UpdateOperator(*e),
        }
    }
}

} // verus!
