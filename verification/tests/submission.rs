use brane_auction::contracts::instantiate;
use brane_auction::curation::check_if_collection_holder;
use brane_auction::error::ContractError;
use brane_auction::msgs::{Coin, InstantiateMsg};
use brane_auction::registry::{get_next_submission_id, submit_nft};
use brane_auction::response::{Event, Instruction, Response};
use brane_auction::state::{State, SubmissionInfo, SubmissionItem};

const DAY: u64 = 86400;

fn registry_state() -> State {
    instantiate(
        1_000,
        String::from("owner"),
        InstantiateMsg {
            sg721_code_id: 1,
            base_factory_address: String::from("factory"),
            bid_denom: String::from("ustars"),
            memecoin_denom: None,
            first_submission: SubmissionItem {
                submission: SubmissionInfo {
                    submitter: String::from("founder"),
                    proceed_recipient: String::from("founder"),
                    token_uri: String::from("ipfs://first"),
                },
                curation_votes: vec![],
                submission_end_time: 0,
            },
            mint_cost: 1,
        },
    )
}

fn a_holder() -> Option<Vec<String>> {
    Some(vec![String::from("12")])
}

fn fee() -> Vec<Coin> {
    vec![Coin { denom: String::from("ustars"), amount: 10_000_000 }]
}

fn submit_as(
    state: &mut State,
    now: u64,
    who: &str,
    funds: &Vec<Coin>,
    tokens: &Option<Vec<String>>,
    uri: &str,
) -> Result<Response, ContractError> {
    submit_nft(
        state,
        now,
        String::from(who),
        funds,
        tokens,
        String::from("payee"),
        String::from(uri),
    )
}

#[test]
fn a_holder_submits_for_free() {
    let mut state = registry_state();
    let r = submit_as(&mut state, 5_000, "artist", &vec![], &a_holder(), "ipfs://art/1").unwrap();
    assert!(r.messages.is_empty());
    assert_eq!(r.event, Event::Submitted { submission_id: 0 });
    assert_eq!(state.config.current_submission_id, 1);
    assert_eq!(state.config.submission_total, 1);
    assert_eq!(state.submissions.len(), 1);
    assert_eq!(state.submissions[0].id, 0);
    assert_eq!(
        state.submissions[0].item,
        SubmissionItem {
            submission: SubmissionInfo {
                submitter: String::from("artist"),
                proceed_recipient: String::from("payee"),
                token_uri: String::from("ipfs://art/1"),
            },
            curation_votes: vec![],
            submission_end_time: 5_000 + 7 * DAY,
        }
    );
    assert!(state.is_well_formed());
}

#[test]
fn a_non_holder_pays_the_fee_to_the_owner() {
    let mut state = registry_state();
    let r = submit_as(&mut state, 5_000, "artist", &fee(), &Some(vec![]), "ipfs://art/1").unwrap();
    assert_eq!(
        r.messages,
        vec![Instruction::Transfer {
            to_address: String::from("owner"),
            denom: String::from("ustars"),
            amount: 10_000_000,
        }]
    );
    assert_eq!(r.event, Event::Submitted { submission_id: 0 });
}

#[test]
fn a_failed_lookup_counts_as_holding_nothing() {
    let mut state = registry_state();
    let before = state.clone();
    let r = submit_as(&mut state, 5_000, "artist", &vec![], &None, "ipfs://art/1");
    assert_eq!(r, Err(ContractError::InsufficientFunds));
    assert_eq!(state, before);
    assert!(submit_as(&mut state, 5_000, "artist", &fee(), &None, "ipfs://art/1").is_ok());
}

#[test]
fn a_non_holder_without_the_fee_is_refused() {
    let mut state = registry_state();
    let before = state.clone();
    let short = vec![Coin { denom: String::from("ustars"), amount: 9_999_999 }];
    assert_eq!(
        submit_as(&mut state, 5_000, "artist", &short, &Some(vec![]), "ipfs://art/1"),
        Err(ContractError::InsufficientFunds)
    );
    let other = vec![Coin { denom: String::from("uatom"), amount: 10_000_000 }];
    assert_eq!(
        submit_as(&mut state, 5_000, "artist", &other, &Some(vec![]), "ipfs://art/1"),
        Err(ContractError::InsufficientFunds)
    );
    assert_eq!(state, before);
}

#[test]
fn the_first_coin_of_the_bid_denom_decides_on_the_fee() {
    let mut state = registry_state();
    let low_first = vec![
        Coin { denom: String::from("uatom"), amount: 1 },
        Coin { denom: String::from("ustars"), amount: 5 },
        Coin { denom: String::from("ustars"), amount: 10_000_000 },
    ];
    assert_eq!(
        submit_as(&mut state, 5_000, "artist", &low_first, &None, "ipfs://art/1"),
        Err(ContractError::InsufficientFunds)
    );
    let enough_first = vec![
        Coin { denom: String::from("uatom"), amount: 1 },
        Coin { denom: String::from("ustars"), amount: 10_000_001 },
        Coin { denom: String::from("ustars"), amount: 5 },
    ];
    assert!(submit_as(&mut state, 5_000, "artist", &enough_first, &None, "ipfs://art/1").is_ok());
}

#[test]
fn a_uri_that_does_not_parse_is_refused_first() {
    let mut state = registry_state();
    state.config.submission_limit = 0;
    let before = state.clone();
    assert_eq!(
        submit_as(&mut state, 5_000, "artist", &vec![], &None, "no scheme here"),
        Err(ContractError::InvalidArtworkURI)
    );
    assert_eq!(
        submit_as(&mut state, 5_000, "artist", &vec![], &a_holder(), ""),
        Err(ContractError::InvalidArtworkURI)
    );
    assert_eq!(state, before);
    assert_eq!(
        submit_as(&mut state, 5_000, "artist", &vec![], &a_holder(), "https://example.com/a.png"),
        Err(ContractError::ExceededSubmissionLimit)
    );
}

#[test]
fn a_full_registry_refuses_before_it_looks_at_the_funds() {
    let mut state = registry_state();
    state.config.submission_limit = 0;
    assert_eq!(
        submit_as(&mut state, 5_000, "artist", &vec![], &None, "ipfs://art/1"),
        Err(ContractError::ExceededSubmissionLimit)
    );
}

#[test]
fn the_third_submission_exceeds_a_cap_of_two() {
    let mut state = registry_state();
    state.config.submission_limit = 2;
    assert_eq!(
        submit_as(&mut state, 5_000, "a", &vec![], &a_holder(), "ipfs://art/1").unwrap().event,
        Event::Submitted { submission_id: 0 }
    );
    assert_eq!(
        submit_as(&mut state, 5_001, "b", &vec![], &a_holder(), "ipfs://art/2").unwrap().event,
        Event::Submitted { submission_id: 1 }
    );
    let before = state.clone();
    assert_eq!(
        submit_as(&mut state, 5_002, "c", &vec![], &a_holder(), "ipfs://art/3"),
        Err(ContractError::ExceededSubmissionLimit)
    );
    assert_eq!(state, before);
    assert_eq!(state.config.submission_total, 2);
    assert_eq!(state.config.current_submission_id, 2);
}

#[test]
fn identifiers_are_handed_out_in_sequence() {
    let mut state = registry_state();
    assert_eq!(get_next_submission_id(&mut state.config), 0);
    assert_eq!(get_next_submission_id(&mut state.config), 1);
    assert_eq!(get_next_submission_id(&mut state.config), 2);
    assert_eq!(state.config.current_submission_id, 3);
    assert_eq!(state.config.submission_total, 3);
}

#[test]
fn a_holder_is_who_holds_at_least_one_token() {
    assert_eq!(check_if_collection_holder(&Some(vec![String::from("1")])), Ok(()));
    assert_eq!(
        check_if_collection_holder(&Some(vec![String::from("1"), String::from("2")])),
        Ok(())
    );
    assert_eq!(check_if_collection_holder(&Some(vec![])), Err(ContractError::HolderCheckFailed));
    assert_eq!(check_if_collection_holder(&None), Err(ContractError::HolderCheckFailed));
}
