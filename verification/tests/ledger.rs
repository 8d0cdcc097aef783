use nft_ledger::cis2::{contract_balance_of, contract_operator_of, contract_set_implementor, contract_supports, contract_token_metadata, contract_transfer, contract_update_operator, BalanceOfQuery, OperatorOfQuery, Receiver, SetImplementorsParams, SupportResult, Transfer, UpdateOperator};
use nft_ledger::contract_view::contract_view;
use nft_ledger::error::{ContractError, CustomContractError};
use nft_ledger::events::{ContractEvent, MetadataUrl, MintEvent, MintedEvent, OperatorUpdate, TokenMetadataEvent, TransferEvent, UpdateOperatorEvent};
use nft_ledger::getters::{contract_get_mint_count_token_id, contract_view_address, contract_view_settings, MintCountQueryParams};
use nft_ledger::init::{contract_init, InitParams};
use nft_ledger::mint::{contract_mint, MintParams};
use nft_ledger::setters::{contract_set_minter, SetMinter};
use nft_ledger::state::State;
use nft_ledger::types::{Address, ContractAddress};

const OWNER: u64 = 0;
const MINTER: u64 = 1;
const USER: u64 = 2;

fn addr(a: u64) -> Address {
    Address::Account(a)
}

fn fresh_state(mint_start: u64, mint_deadline: u64, max_total_supply: u32) -> State {
    let (state, event) = contract_init(InitParams {
        name: String::from("Gallery"),
        symbol: String::from("GAL"),
        contract_uri: MetadataUrl { url: String::from("https://example.com/collection"), hash: None },
        minter: MINTER,
        mint_start,
        mint_deadline,
        max_total_supply,
    });
    match event {
        ContractEvent::Deploy(d) => {
            assert_eq!(d.name, String::from("Gallery"));
            assert_eq!(d.minter, MINTER);
            assert_eq!(d.mint_start, mint_start);
            assert_eq!(d.mint_deadline, mint_deadline);
            assert_eq!(d.max_total_supply, max_total_supply);
        },
        _ => panic!("init must log a Deploy event"),
    }
    state
}

fn mint_one(state: &mut State, owner: Address, token: u32, uri: &str, now: u64) -> Result<Vec<ContractEvent>, ContractError> {
    let params = MintParams {
        owners: vec![owner],
        tokens: vec![token],
        token_uris: vec![String::from(uri)],
    };
    contract_mint(state, addr(MINTER), now, &params)
}

fn simple_transfer(from: Address, to: u64, token: u32, amount: u8) -> Transfer {
    Transfer { token_id: token, amount, from, to: Receiver::Account(to), data: Vec::new() }
}

#[test]
fn test_minting() {
    let mut state = fresh_state(100, 1000, 10);
    let events = mint_one(&mut state, addr(OWNER), 2, "uri", 101).expect("mint");
    assert_eq!(
        events,
        vec![
            ContractEvent::Mint(MintEvent { token_id: 2, amount: 1, owner: addr(OWNER) }),
            ContractEvent::TokenMetadata(TokenMetadataEvent {
                token_id: 2,
                metadata_url: MetadataUrl { url: String::from("uri"), hash: None },
            }),
            ContractEvent::Minted(MintedEvent {
                token_id: 2,
                mint_count: 1,
                timestamp: 101,
                token_uri: MetadataUrl { url: String::from("uri"), hash: None },
            }),
        ]
    );
    let view = contract_view(&state);
    assert_eq!(view.all_tokens, vec![2]);
    assert_eq!(view.counter, 1);
    assert_eq!(view.mint_count, vec![(2, 1)]);
    assert_eq!(view.token_uris, vec![String::from("uri")]);
}

#[test]
fn test_mint_not_started() {
    let mut state = fresh_state(100, 1000, 10);
    let r = mint_one(&mut state, addr(OWNER), 2, "uri", 50);
    assert_eq!(r, Err(ContractError::Custom(CustomContractError::MintingNotStarted)));
    assert_eq!(contract_view(&state).all_tokens, Vec::<u32>::new());
    assert_eq!(contract_view(&state).counter, 0);
}

#[test]
fn test_mint_deadline_reached() {
    let mut state = fresh_state(100, 1000, 10);
    let r = mint_one(&mut state, addr(OWNER), 2, "uri", 1000);
    assert_eq!(r, Err(ContractError::Custom(CustomContractError::MintDeadlineReached)));
    assert_eq!(contract_view(&state).counter, 0);
}

#[test]
fn test_mint_unauthorized() {
    let mut state = fresh_state(100, 1000, 10);
    let params = MintParams {
        owners: vec![addr(OWNER)],
        tokens: vec![2],
        token_uris: vec![String::from("uri")],
    };
    let r = contract_mint(&mut state, addr(USER), 101, &params);
    assert_eq!(r, Err(ContractError::Unauthorized));
    assert_eq!(contract_view(&state).counter, 0);
}

#[test]
fn test_mint_arrays_not_same_length() {
    let mut state = fresh_state(100, 1000, 10);
    let params = MintParams {
        owners: vec![addr(OWNER), addr(USER)],
        tokens: vec![2],
        token_uris: vec![String::from("uri")],
    };
    let r = contract_mint(&mut state, addr(MINTER), 101, &params);
    assert_eq!(r, Err(ContractError::Custom(CustomContractError::ArraysNotSameLength)));
    assert_eq!(contract_view(&state).counter, 0);
}

#[test]
fn test_mint_duplicate_across_calls() {
    let mut state = fresh_state(100, 1000, 10);
    mint_one(&mut state, addr(OWNER), 2, "uri", 101).expect("first mint");
    let r = mint_one(&mut state, addr(USER), 2, "other", 102);
    assert_eq!(r, Err(ContractError::Custom(CustomContractError::TokenIdAlreadyExists)));
    let view = contract_view(&state);
    assert_eq!(view.all_tokens, vec![2]);
    assert_eq!(view.counter, 1);
    assert_eq!(view.token_uris, vec![String::from("uri")]);
}

#[test]
fn test_mint_duplicate_in_one_call() {
    let mut state = fresh_state(100, 1000, 10);
    let params = MintParams {
        owners: vec![addr(OWNER), addr(USER)],
        tokens: vec![2, 2],
        token_uris: vec![String::from("a"), String::from("b")],
    };
    let r = contract_mint(&mut state, addr(MINTER), 101, &params);
    assert_eq!(r, Err(ContractError::Custom(CustomContractError::TokenIdAlreadyExists)));
    assert_eq!(contract_view(&state).counter, 0);
    assert_eq!(contract_view(&state).all_tokens, Vec::<u32>::new());
}

#[test]
fn test_supply_cap() {
    let mut state = fresh_state(100, 1000, 10);
    for t in 0u32..10u32 {
        mint_one(&mut state, addr(OWNER), t, "uri", 101).expect("mint under cap");
    }
    assert_eq!(contract_view(&state).counter, 10);
    let r = mint_one(&mut state, addr(OWNER), 10, "uri", 102);
    assert_eq!(r, Err(ContractError::Custom(CustomContractError::MaxTotalSupplyReached)));
    let view = contract_view(&state);
    assert_eq!(view.all_tokens.len(), 10);
    assert_eq!(view.counter, 10);
}

#[test]
fn test_batch_over_cap_mints_nothing() {
    let mut state = fresh_state(100, 1000, 2);
    let params = MintParams {
        owners: vec![addr(OWNER), addr(OWNER), addr(OWNER)],
        tokens: vec![1, 2, 3],
        token_uris: vec![String::from("a"), String::from("b"), String::from("c")],
    };
    let r = contract_mint(&mut state, addr(MINTER), 101, &params);
    assert_eq!(r, Err(ContractError::Custom(CustomContractError::MaxTotalSupplyReached)));
    assert_eq!(contract_view(&state).counter, 0);
    assert_eq!(contract_view(&state).all_tokens, Vec::<u32>::new());
}

#[test]
fn test_account_transfer() {
    let mut state = fresh_state(100, 1000, 10);
    mint_one(&mut state, addr(OWNER), 2, "uri", 101).expect("mint");
    mint_one(&mut state, addr(OWNER), 42, "uri2", 102).expect("mint");

    let transfers = vec![simple_transfer(addr(OWNER), MINTER, 2, 1)];
    let (events, hooks) = contract_transfer(&mut state, addr(OWNER), &transfers).expect("transfer");
    assert_eq!(
        events,
        vec![ContractEvent::Transfer(TransferEvent {
            token_id: 2,
            amount: 1,
            from: addr(OWNER),
            to: addr(MINTER),
        })]
    );
    assert!(hooks.is_empty());

    let owner_view = contract_view_address(&state, addr(OWNER)).expect("owner record");
    assert_eq!(owner_view.owned_tokens, vec![42]);
    let minter_view = contract_view_address(&state, addr(MINTER)).expect("minter record");
    assert_eq!(minter_view.owned_tokens, vec![2]);
}

#[test]
fn test_unauthorized_sender() {
    let mut state = fresh_state(100, 1000, 10);
    mint_one(&mut state, addr(OWNER), 2, "uri", 101).expect("mint");
    let transfers = vec![simple_transfer(addr(OWNER), MINTER, 2, 1)];
    let r = contract_transfer(&mut state, addr(MINTER), &transfers);
    assert_eq!(r, Err(ContractError::Unauthorized));
    let owner_view = contract_view_address(&state, addr(OWNER)).expect("owner record");
    assert_eq!(owner_view.owned_tokens, vec![2]);
}

#[test]
fn test_operator_can_transfer() {
    let mut state = fresh_state(100, 1000, 10);
    mint_one(&mut state, addr(OWNER), 5, "uri", 101).expect("mint");

    let updates = vec![UpdateOperator { update: OperatorUpdate::Add, operator: addr(MINTER) }];
    let events = contract_update_operator(&mut state, addr(OWNER), &updates);
    assert_eq!(
        events,
        vec![ContractEvent::UpdateOperator(UpdateOperatorEvent {
            update: OperatorUpdate::Add,
            owner: addr(OWNER),
            operator: addr(MINTER),
        })]
    );

    let transfers = vec![simple_transfer(addr(OWNER), USER, 5, 1)];
    let (events, _hooks) = contract_transfer(&mut state, addr(MINTER), &transfers).expect("operator transfer");
    assert_eq!(events.len(), 1);

    let owner_view = contract_view_address(&state, addr(OWNER)).expect("owner record");
    assert!(owner_view.owned_tokens.is_empty());
    let user_view = contract_view_address(&state, addr(USER)).expect("receiver record");
    assert_eq!(user_view.owned_tokens, vec![5]);
}

#[test]
fn test_operator_idempotent() {
    let mut state = fresh_state(100, 1000, 10);
    let add = vec![UpdateOperator { update: OperatorUpdate::Add, operator: addr(USER) }];
    contract_update_operator(&mut state, addr(OWNER), &add);
    contract_update_operator(&mut state, addr(OWNER), &add);
    let view = contract_view_address(&state, addr(OWNER)).expect("record");
    assert_eq!(view.operators, vec![addr(USER)]);

    let remove = vec![UpdateOperator { update: OperatorUpdate::Remove, operator: addr(MINTER) }];
    let events = contract_update_operator(&mut state, addr(OWNER), &remove);
    assert_eq!(events.len(), 1);
    let view = contract_view_address(&state, addr(OWNER)).expect("record");
    assert_eq!(view.operators, vec![addr(USER)]);
}

#[test]
fn test_operator_of() {
    let mut state = fresh_state(100, 1000, 10);
    let add = vec![UpdateOperator { update: OperatorUpdate::Add, operator: addr(USER) }];
    contract_update_operator(&mut state, addr(OWNER), &add);
    let queries = vec![
        OperatorOfQuery { owner: addr(OWNER), address: addr(USER) },
        OperatorOfQuery { owner: addr(OWNER), address: addr(MINTER) },
        OperatorOfQuery { owner: addr(USER), address: addr(OWNER) },
    ];
    assert_eq!(contract_operator_of(&state, &queries), vec![true, false, false]);
}

#[test]
fn test_zero_amount_transfer_is_noop() {
    let mut state = fresh_state(100, 1000, 10);
    mint_one(&mut state, addr(OWNER), 2, "uri", 101).expect("mint");
    let transfers = vec![simple_transfer(addr(USER), MINTER, 2, 0)];
    let (events, hooks) = contract_transfer(&mut state, addr(USER), &transfers).expect("zero transfer");
    assert!(events.is_empty());
    assert!(hooks.is_empty());
    let owner_view = contract_view_address(&state, addr(OWNER)).expect("owner record");
    assert_eq!(owner_view.owned_tokens, vec![2]);
}

#[test]
fn test_transfer_bad_amount() {
    let mut state = fresh_state(100, 1000, 10);
    mint_one(&mut state, addr(OWNER), 2, "uri", 101).expect("mint");
    let transfers = vec![simple_transfer(addr(OWNER), MINTER, 2, 2)];
    let r = contract_transfer(&mut state, addr(OWNER), &transfers);
    assert_eq!(r, Err(ContractError::InsufficientFunds));
}

#[test]
fn test_transfer_not_held() {
    let mut state = fresh_state(100, 1000, 10);
    mint_one(&mut state, addr(OWNER), 2, "uri", 101).expect("mint");
    let transfers = vec![simple_transfer(addr(USER), MINTER, 2, 1)];
    let r = contract_transfer(&mut state, addr(USER), &transfers);
    assert_eq!(r, Err(ContractError::InsufficientFunds));
}

#[test]
fn test_transfer_unknown_token() {
    let mut state = fresh_state(100, 1000, 10);
    let transfers = vec![simple_transfer(addr(OWNER), MINTER, 7, 1)];
    let r = contract_transfer(&mut state, addr(OWNER), &transfers);
    assert_eq!(r, Err(ContractError::InvalidTokenId));
}

#[test]
fn test_transfer_to_contract_queues_hook() {
    let mut state = fresh_state(100, 1000, 10);
    mint_one(&mut state, addr(OWNER), 2, "uri", 101).expect("mint");
    let receiver = ContractAddress { index: 9, subindex: 0 };
    let transfers = vec![Transfer {
        token_id: 2,
        amount: 1,
        from: addr(OWNER),
        to: Receiver::Contract(receiver, String::from("onReceivingCIS2")),
        data: vec![1, 2, 3],
    }];
    let (events, hooks) = contract_transfer(&mut state, addr(OWNER), &transfers).expect("transfer");
    assert_eq!(events.len(), 1);
    assert_eq!(hooks.len(), 1);
    assert_eq!(hooks[0].address, receiver);
    assert_eq!(hooks[0].entrypoint, String::from("onReceivingCIS2"));
    assert_eq!(hooks[0].token_id, 2);
    assert_eq!(hooks[0].data, vec![1, 2, 3]);
}

#[test]
fn test_transfer_rollback_on_later_failure() {
    let mut state = fresh_state(100, 1000, 10);
    mint_one(&mut state, addr(OWNER), 2, "uri", 101).expect("mint");
    let transfers = vec![
        simple_transfer(addr(OWNER), USER, 2, 1),
        simple_transfer(addr(OWNER), USER, 3, 1),
    ];
    let r = contract_transfer(&mut state, addr(OWNER), &transfers);
    assert_eq!(r, Err(ContractError::InvalidTokenId));
    let owner_view = contract_view_address(&state, addr(OWNER)).expect("owner record");
    assert_eq!(owner_view.owned_tokens, vec![2]);
}

#[test]
fn test_balance_of() {
    let mut state = fresh_state(100, 1000, 10);
    mint_one(&mut state, addr(OWNER), 2, "uri", 101).expect("mint");
    let queries = vec![
        BalanceOfQuery { token_id: 2, address: addr(OWNER) },
        BalanceOfQuery { token_id: 2, address: addr(USER) },
    ];
    assert_eq!(contract_balance_of(&state, &queries), Ok(vec![1, 0]));

    let bad = vec![BalanceOfQuery { token_id: 9, address: addr(OWNER) }];
    assert_eq!(contract_balance_of(&state, &bad), Err(ContractError::InvalidTokenId));
}

#[test]
fn test_token_metadata() {
    let mut state = fresh_state(100, 1000, 10);
    mint_one(&mut state, addr(OWNER), 2, "https://example.com/2", 101).expect("mint");
    let r = contract_token_metadata(&state, &vec![2]).expect("metadata");
    assert_eq!(r, vec![MetadataUrl { url: String::from("https://example.com/2"), hash: None }]);
    assert_eq!(contract_token_metadata(&state, &vec![3]), Err(ContractError::InvalidTokenId));
}

#[test]
fn test_supports() {
    let mut state = fresh_state(100, 1000, 10);
    let queries = vec![String::from("CIS-0"), String::from("CIS-2"), String::from("CIS-9")];
    assert_eq!(
        contract_supports(&state, &queries),
        vec![SupportResult::Support, SupportResult::Support, SupportResult::NoSupport]
    );

    let implementor = ContractAddress { index: 4, subindex: 1 };
    contract_set_implementor(&mut state, addr(OWNER), OWNER, SetImplementorsParams {
        id: String::from("CIS-9"),
        implementors: vec![implementor],
    })
    .expect("set implementors");
    assert_eq!(
        contract_supports(&state, &vec![String::from("CIS-9")]),
        vec![SupportResult::SupportBy(vec![implementor])]
    );
}

#[test]
fn test_set_implementor_unauthorized() {
    let mut state = fresh_state(100, 1000, 10);
    let r = contract_set_implementor(&mut state, addr(USER), OWNER, SetImplementorsParams {
        id: String::from("CIS-9"),
        implementors: Vec::new(),
    });
    assert_eq!(r, Err(ContractError::Unauthorized));
}

#[test]
fn test_set_minter() {
    let mut state = fresh_state(100, 1000, 10);
    assert_eq!(
        contract_set_minter(&mut state, addr(USER), OWNER, SetMinter { minter: USER }),
        Err(ContractError::Unauthorized)
    );
    contract_set_minter(&mut state, addr(OWNER), OWNER, SetMinter { minter: USER }).expect("set minter");
    assert_eq!(contract_view_settings(&state).minter, USER);

    let params = MintParams {
        owners: vec![addr(OWNER)],
        tokens: vec![2],
        token_uris: vec![String::from("uri")],
    };
    assert_eq!(
        contract_mint(&mut state, addr(MINTER), 101, &params),
        Err(ContractError::Unauthorized)
    );
    contract_mint(&mut state, addr(USER), 101, &params).expect("new minter mints");
}

#[test]
fn test_view_settings() {
    let state = fresh_state(100, 1000, 10);
    let s = contract_view_settings(&state);
    assert_eq!(s.minter, MINTER);
    assert_eq!(s.mint_start, 100);
    assert_eq!(s.mint_deadline, 1000);
    assert_eq!(s.max_total_supply, 10);
}

#[test]
fn test_get_mint_count() {
    let mut state = fresh_state(100, 1000, 10);
    mint_one(&mut state, addr(OWNER), 7, "a", 101).expect("mint");
    mint_one(&mut state, addr(OWNER), 3, "b", 102).expect("mint");
    let r = contract_get_mint_count_token_id(&state, &MintCountQueryParams { queries: vec![3, 7] })
        .expect("counts");
    assert_eq!(r.0, vec![2, 1]);
    assert_eq!(
        contract_get_mint_count_token_id(&state, &MintCountQueryParams { queries: vec![9] }),
        Err(ContractError::InvalidTokenId)
    );
}

#[test]
fn test_view_address_unknown() {
    let state = fresh_state(100, 1000, 10);
    assert_eq!(
        contract_view_address(&state, addr(USER)),
        Err(ContractError::Custom(CustomContractError::InvalidAddress))
    );
}

#[test]
fn test_every_token_owned_exactly_once() {
    let mut state = fresh_state(100, 1000, 10);
    mint_one(&mut state, addr(OWNER), 1, "a", 101).expect("mint");
    mint_one(&mut state, addr(USER), 2, "b", 102).expect("mint");
    let transfers = vec![simple_transfer(addr(OWNER), USER, 1, 1)];
    contract_transfer(&mut state, addr(OWNER), &transfers).expect("transfer");

    let view = contract_view(&state);
    assert_eq!(view.counter as usize, view.all_tokens.len());
    for t in &view.all_tokens {
        let owners: usize = view
            .state
            .iter()
            .filter(|(_, rec)| rec.owned_tokens.contains(t))
            .count();
        assert_eq!(owners, 1);
    }
}

#[test]
fn test_empty_mint_batch() {
    let mut state = fresh_state(100, 1000, 10);
    let params = MintParams { owners: Vec::new(), tokens: Vec::new(), token_uris: Vec::new() };
    let events = contract_mint(&mut state, addr(MINTER), 101, &params).expect("empty batch");
    assert!(events.is_empty());
    assert_eq!(contract_view(&state).counter, 0);
}

#[test]
fn test_empty_transfer_batch() {
    let mut state = fresh_state(100, 1000, 10);
    let (events, hooks) = contract_transfer(&mut state, addr(USER), &Vec::new()).expect("empty batch");
    assert!(events.is_empty());
    assert!(hooks.is_empty());
}

#[test]
fn test_state_methods_directly() {
    let mut state = fresh_state(100, 1000, 1);
    assert!(!state.contains_token(&2));
    assert_eq!(state.mint(2, &addr(OWNER), &String::from("uri")), Ok(1));
    assert!(state.contains_token(&2));
    assert_eq!(state.balance(&2, &addr(OWNER)), Ok(1));
    assert_eq!(state.balance(&2, &addr(USER)), Ok(0));
    assert_eq!(state.balance(&9, &addr(OWNER)), Err(ContractError::InvalidTokenId));

    // The cap is 1: a fresh id is refused on the cap, a taken id on the duplicate.
    assert_eq!(
        state.mint(3, &addr(OWNER), &String::from("uri")),
        Err(ContractError::Custom(CustomContractError::MaxTotalSupplyReached))
    );
    assert_eq!(
        state.mint(2, &addr(USER), &String::from("uri")),
        Err(ContractError::Custom(CustomContractError::TokenIdAlreadyExists))
    );

    assert!(!state.is_operator(&addr(USER), &addr(OWNER)));
    state.add_operator(&addr(OWNER), &addr(USER));
    assert!(state.is_operator(&addr(USER), &addr(OWNER)));
    state.remove_operator(&addr(OWNER), &addr(USER));
    assert!(!state.is_operator(&addr(USER), &addr(OWNER)));

    assert_eq!(state.transfer(&2, 1, &addr(OWNER), &addr(USER)), Ok(()));
    assert_eq!(state.balance(&2, &addr(USER)), Ok(1));
    assert_eq!(state.balance(&2, &addr(OWNER)), Ok(0));
    assert_eq!(state.transfer(&2, 1, &addr(OWNER), &addr(USER)), Err(ContractError::InsufficientFunds));
}
