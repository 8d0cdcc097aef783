use nft_ledger::codec::{decode_event, encode_event};
use nft_ledger::events::{ContractEvent, DeployEvent, MetadataUrl, MintEvent, MintedEvent, OperatorUpdate, TokenMetadataEvent, TransferEvent, UpdateOperatorEvent};
use nft_ledger::types::{Address, ContractAddress};

fn round_trip(e: ContractEvent) {
    let bytes = encode_event(&e).expect("encodable");
    let back = decode_event(&bytes).expect("decodable");
    assert_eq!(back, e);
}

#[test]
fn test_round_trip_mint() {
    round_trip(ContractEvent::Mint(MintEvent {
        token_id: 2,
        amount: 1,
        owner: Address::Account(7),
    }));
}

#[test]
fn test_round_trip_token_metadata() {
    round_trip(ContractEvent::TokenMetadata(TokenMetadataEvent {
        token_id: 99,
        metadata_url: MetadataUrl { url: String::from("https://example.com/99"), hash: None },
    }));
}

#[test]
fn test_round_trip_token_metadata_with_hash() {
    round_trip(ContractEvent::TokenMetadata(TokenMetadataEvent {
        token_id: 1,
        metadata_url: MetadataUrl { url: String::from("x"), hash: Some(vec![5u8; 32]) },
    }));
}

#[test]
fn test_round_trip_transfer() {
    round_trip(ContractEvent::Transfer(TransferEvent {
        token_id: 3,
        amount: 1,
        from: Address::Account(1),
        to: Address::Contract(ContractAddress { index: 12, subindex: 4 }),
    }));
}

#[test]
fn test_round_trip_minted() {
    round_trip(ContractEvent::Minted(MintedEvent {
        token_id: 2,
        mint_count: 1,
        timestamp: 101,
        token_uri: MetadataUrl { url: String::from("uri"), hash: None },
    }));
}

#[test]
fn test_round_trip_deploy() {
    round_trip(ContractEvent::Deploy(DeployEvent {
        name: String::from("Gallery"),
        symbol: String::from("GAL"),
        contract_uri: MetadataUrl { url: String::from("https://example.com"), hash: None },
        minter: 1,
        mint_start: 100,
        mint_deadline: 1000,
        max_total_supply: 10,
    }));
}

#[test]
fn test_round_trip_update_operator() {
    round_trip(ContractEvent::UpdateOperator(UpdateOperatorEvent {
        update: OperatorUpdate::Add,
        owner: Address::Account(0),
        operator: Address::Account(1),
    }));
    round_trip(ContractEvent::UpdateOperator(UpdateOperatorEvent {
        update: OperatorUpdate::Remove,
        owner: Address::Contract(ContractAddress { index: 1, subindex: 2 }),
        operator: Address::Account(1),
    }));
}

#[test]
fn test_round_trip_non_ascii_uri() {
    round_trip(ContractEvent::TokenMetadata(TokenMetadataEvent {
        token_id: 5,
        metadata_url: MetadataUrl { url: String::from("métadonnées-ギャラリー"), hash: None },
    }));
}

#[test]
fn test_exact_bytes_of_mint() {
    let e = ContractEvent::Mint(MintEvent { token_id: 2, amount: 1, owner: Address::Account(7) });
    let bytes = encode_event(&e).expect("encodable");
    assert_eq!(bytes, vec![254, 2, 0, 0, 0, 1, 0, 7, 0, 0, 0, 0, 0, 0, 0]);
}

#[test]
fn test_exact_bytes_of_metadata() {
    let e = ContractEvent::TokenMetadata(TokenMetadataEvent {
        token_id: 258,
        metadata_url: MetadataUrl { url: String::from("ab"), hash: None },
    });
    let bytes = encode_event(&e).expect("encodable");
    assert_eq!(bytes, vec![251, 2, 1, 0, 0, 2, 0, 0, 0, 97, 98, 0]);
}

#[test]
fn test_unknown_tag_fails() {
    // 7 is none of the six tags.
    let bytes = vec![7u8, 2, 0, 0, 0, 1, 0, 7, 0, 0, 0, 0, 0, 0, 0];
    assert_eq!(decode_event(&bytes), None);
}

#[test]
fn test_truncated_payload_fails() {
    let e = ContractEvent::Mint(MintEvent { token_id: 2, amount: 1, owner: Address::Account(7) });
    let mut bytes = encode_event(&e).expect("encodable");
    bytes.pop();
    assert_eq!(decode_event(&bytes), None);
}

#[test]
fn test_trailing_bytes_fail() {
    let e = ContractEvent::Mint(MintEvent { token_id: 2, amount: 1, owner: Address::Account(7) });
    let mut bytes = encode_event(&e).expect("encodable");
    bytes.push(0);
    assert_eq!(decode_event(&bytes), None);
}

#[test]
fn test_empty_input_fails() {
    assert_eq!(decode_event(&Vec::new()), None);
}

#[test]
fn test_malformed_text_fails() {
    // A TokenMetadata event whose one-byte "string" is not valid UTF-8.
    let bytes = vec![251u8, 1, 0, 0, 0, 1, 0, 0, 0, 0xFF, 0];
    assert_eq!(decode_event(&bytes), None);
}

#[test]
fn test_bad_hash_length_rejected_on_encode() {
    let e = ContractEvent::TokenMetadata(TokenMetadataEvent {
        token_id: 1,
        metadata_url: MetadataUrl { url: String::from("x"), hash: Some(vec![5u8; 31]) },
    });
    assert_eq!(encode_event(&e), None);
}

#[test]
fn test_bad_address_kind_fails() {
    // A Mint event whose address kind byte is neither account nor contract.
    let bytes = vec![254u8, 2, 0, 0, 0, 1, 9, 7, 0, 0, 0, 0, 0, 0, 0];
    assert_eq!(decode_event(&bytes), None);
}

#[test]
fn test_round_trip_deploy_with_hash() {
    round_trip(ContractEvent::Deploy(DeployEvent {
        name: String::from(""),
        symbol: String::from(""),
        contract_uri: MetadataUrl { url: String::from(""), hash: Some((0u8..32u8).collect()) },
        minter: u64::MAX,
        mint_start: 0,
        mint_deadline: u64::MAX,
        max_total_supply: u32::MAX,
    }));
}
