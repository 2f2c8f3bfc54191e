use brane_auction::contracts::{
    checked_execute, execute, instantiate, reply, Oracle, ReplyKind, COLLECTION_REPLY_ID,
};
use brane_auction::error::ContractError;
use brane_auction::helpers::LiquidityContract;
use brane_auction::math::Decimal;
use brane_auction::msgs::{Coin, ExecuteMsg, InstantiateMsg, QueryMsg};
use brane_auction::response::{CurationOutcome, Event, Instruction};
use brane_auction::state::{Auction, Bid, State, SubmissionInfo, SubmissionItem, Votes};

const DAY: u64 = 86400;

fn opening_item() -> SubmissionItem {
    SubmissionItem {
        submission: SubmissionInfo {
            submitter: String::from("founder"),
            proceed_recipient: String::from("treasury"),
            token_uri: String::from("ipfs://first"),
        },
        curation_votes: vec![String::from("c1"), String::from("c2")],
        submission_end_time: 0,
    }
}

fn opening_msg() -> InstantiateMsg {
    InstantiateMsg {
        sg721_code_id: 2595,
        base_factory_address: String::from("factory"),
        bid_denom: String::from("ustars"),
        memecoin_denom: Some(String::from("umeme")),
        first_submission: opening_item(),
        mint_cost: 50_000_000,
    }
}

fn fresh() -> State {
    instantiate(1_000, String::from("owner"), opening_msg())
}

fn nothing_known() -> Oracle {
    Oracle { sender_tokens: None, total_tokens: 0, reward_balance: None }
}

fn stars(amount: u128) -> Vec<Coin> {
    vec![Coin { denom: String::from("ustars"), amount }]
}

#[test]
fn instantiate_sets_the_configuration() {
    let state = fresh();
    let c = &state.config;
    assert_eq!(c.owner, "owner");
    assert_eq!(c.bid_denom, "ustars");
    assert_eq!(c.memecoin_denom, Some(String::from("umeme")));
    assert_eq!(c.memecoin_distribution_amount, 100_000_000);
    assert_eq!(c.current_token_id, 0);
    assert_eq!(c.current_submission_id, 0);
    assert_eq!(c.minter_addr, "");
    assert_eq!(c.mint_cost, 50_000_000);
    assert_eq!(c.submission_cost, 10_000_000);
    assert_eq!(c.submission_limit, 333);
    assert_eq!(c.submission_total, 0);
    assert_eq!(c.submission_vote_period, 7);
    assert_eq!(c.auction_period, 1);
}

#[test]
fn instantiate_takes_eleven_percent_as_threshold() {
    let state = fresh();
    assert_eq!(state.config.curation_threshold, Decimal { atomics: 110_000_000_000_000_000 });
}

#[test]
fn instantiate_puts_the_first_submission_up_for_a_day() {
    let state = fresh();
    assert!(state.submissions.is_empty());
    assert!(state.pending_auctions.is_empty());
    assert_eq!(
        state.auction,
        Some(Auction {
            submission_info: opening_item(),
            bids: vec![],
            highest_bid: Bid { bidder: String::new(), amount: 0 },
            auction_end_time: 1_000 + DAY,
        })
    );
    assert!(state.is_well_formed());
}

#[test]
fn execute_routes_a_submission() {
    let mut state = fresh();
    let oracle = Oracle {
        sender_tokens: Some(vec![String::from("7")]),
        total_tokens: 100,
        reward_balance: None,
    };
    let msg = ExecuteMsg::SubmitNFT {
        submitter: String::from("ignored"),
        proceed_recipient: String::from("artist-wallet"),
        token_uri: String::from("https://example.com/art.png"),
    };
    let r = execute(&mut state, 2_000, String::from("artist"), &vec![], &oracle, msg).unwrap();
    assert_eq!(r.event, Event::Submitted { submission_id: 0 });
    assert!(r.messages.is_empty());
    assert_eq!(state.submissions.len(), 1);
    assert_eq!(state.submissions[0].item.submission.submitter, "artist");
    assert_eq!(state.submissions[0].item.submission.proceed_recipient, "artist-wallet");
}

#[test]
fn execute_routes_a_vote() {
    let mut state = fresh();
    let holder = Oracle {
        sender_tokens: Some(vec![String::from("7")]),
        total_tokens: 100,
        reward_balance: None,
    };
    let submit = ExecuteMsg::SubmitNFT {
        submitter: String::from("artist"),
        proceed_recipient: String::from("artist"),
        token_uri: String::from("ipfs://art"),
    };
    execute(&mut state, 2_000, String::from("artist"), &vec![], &holder, submit).unwrap();
    let vote = ExecuteMsg::VoteToCurate { submission_ids: vec![0, 9], vote: true };
    let r = execute(&mut state, 2_001, String::from("voter"), &vec![], &holder, vote).unwrap();
    assert_eq!(
        r.event,
        Event::Curated { outcomes: vec![CurationOutcome::Recorded, CurationOutcome::NotFound] }
    );
    assert_eq!(state.submissions[0].item.curation_votes, vec![String::from("voter")]);
}

#[test]
fn execute_routes_a_bid_and_a_conclusion() {
    let mut state = fresh();
    let r = execute(
        &mut state,
        1_500,
        String::from("alice"),
        &stars(100),
        &nothing_known(),
        ExecuteMsg::Bid {},
    )
    .unwrap();
    assert_eq!(r.event, Event::BidPlaced { bidder: String::from("alice"), amount: 100 });
    let early = execute(
        &mut state,
        1_600,
        String::from("anyone"),
        &vec![],
        &nothing_known(),
        ExecuteMsg::ConcludeAuction {},
    );
    assert_eq!(early, Err(ContractError::AuctionStillLive));
    let done = execute(
        &mut state,
        1_000 + DAY,
        String::from("anyone"),
        &vec![],
        &Oracle { sender_tokens: None, total_tokens: 0, reward_balance: Some(1_000_000_000) },
        ExecuteMsg::ConcludeAuction {},
    )
    .unwrap();
    assert_eq!(
        done.event,
        Event::Concluded { highest_bidder: String::from("alice"), highest_bid: 100 }
    );
    assert_eq!(done.messages.len(), 5);
    assert_eq!(state.auction, None);
}

#[test]
fn checked_execute_answers_nothing_to_a_reconfiguration() {
    let mut state = fresh();
    let before = state.clone();
    let r = checked_execute(
        &mut state,
        1_500,
        String::from("owner"),
        &vec![],
        &nothing_known(),
        ExecuteMsg::MigrateMinter { new_address: String::from("elsewhere") },
    );
    assert_eq!(r, None);
    assert_eq!(state, before);
    let r = checked_execute(
        &mut state,
        1_500,
        String::from("owner"),
        &vec![],
        &nothing_known(),
        ExecuteMsg::UpdateConfig {
            owner: None,
            bid_denom: None,
            memecoin_denom: None,
            minter_addr: None,
        },
    );
    assert_eq!(r, None);
    assert_eq!(state, before);
}

#[test]
fn checked_execute_answers_nothing_where_a_deadline_would_overflow() {
    let mut state = fresh();
    let before = state.clone();
    let submit = ExecuteMsg::SubmitNFT {
        submitter: String::from("artist"),
        proceed_recipient: String::from("artist"),
        token_uri: String::from("ipfs://art"),
    };
    let r = checked_execute(
        &mut state,
        u64::MAX - 7 * DAY + 1,
        String::from("artist"),
        &vec![],
        &nothing_known(),
        submit.clone(),
    );
    assert_eq!(r, None);
    assert_eq!(state, before);
    let r = checked_execute(
        &mut state,
        u64::MAX - 7 * DAY,
        String::from("artist"),
        &stars(10_000_000),
        &nothing_known(),
        submit,
    );
    assert!(matches!(r, Some(Ok(_))));
    assert_eq!(state.submissions[0].item.submission_end_time, u64::MAX);
}

#[test]
fn checked_execute_answers_nothing_on_a_broken_state() {
    let mut state = fresh();
    state.config.submission_total = 3;
    let before = state.clone();
    let r = checked_execute(
        &mut state,
        1_500,
        String::from("alice"),
        &stars(100),
        &nothing_known(),
        ExecuteMsg::Bid {},
    );
    assert_eq!(r, None);
    assert_eq!(state, before);
}

#[test]
fn checked_execute_carries_out_what_execute_does() {
    let mut checked = fresh();
    let mut plain = fresh();
    let a = checked_execute(
        &mut checked,
        1_500,
        String::from("alice"),
        &stars(100),
        &nothing_known(),
        ExecuteMsg::Bid {},
    );
    let b = execute(
        &mut plain,
        1_500,
        String::from("alice"),
        &stars(100),
        &nothing_known(),
        ExecuteMsg::Bid {},
    );
    assert_eq!(a, Some(b));
    assert_eq!(checked, plain);
}

#[test]
fn a_refused_call_leaves_the_state_as_it_was() {
    let mut state = fresh();
    let before = state.clone();
    let r = execute(
        &mut state,
        1_500,
        String::from("alice"),
        &vec![Coin { denom: String::from("uatom"), amount: 5 }],
        &nothing_known(),
        ExecuteMsg::Bid {},
    );
    assert_eq!(r, Err(ContractError::InvalidBidAsset));
    assert_eq!(state, before);
    let r = execute(
        &mut state,
        1_500,
        String::from("stranger"),
        &vec![],
        &nothing_known(),
        ExecuteMsg::VoteToCurate { submission_ids: vec![0], vote: true },
    );
    assert_eq!(r, Err(ContractError::HolderCheckFailed));
    assert_eq!(state, before);
}

#[test]
fn reply_knows_the_collection_reply() {
    assert_eq!(COLLECTION_REPLY_ID, 1);
    assert_eq!(reply(1), Ok(ReplyKind::Collection));
}

#[test]
fn reply_refuses_any_other_identifier() {
    assert_eq!(reply(0), Err(ContractError::InvalidReplyId { id: 0 }));
    assert_eq!(reply(2), Err(ContractError::InvalidReplyId { id: 2 }));
    assert_eq!(reply(u64::MAX), Err(ContractError::InvalidReplyId { id: u64::MAX }));
}

#[test]
fn liquidity_contract_gives_its_address() {
    let contract = LiquidityContract(String::from("liq1"));
    assert_eq!(contract.addr(), "liq1");
}

#[test]
fn liquidity_contract_call_addresses_the_contract() {
    let contract = LiquidityContract(String::from("liq1"));
    let funds = vec![Coin { denom: String::from("ustars"), amount: 9 }];
    let instruction = contract.call(vec![1, 2, 3], funds.clone());
    assert_eq!(
        instruction,
        Instruction::Execute { contract_addr: String::from("liq1"), msg: vec![1, 2, 3], funds }
    );
}

#[test]
fn plain_records_compare_by_their_fields() {
    assert_eq!(Votes { yes: 2, no: 1 }, Votes { yes: 2, no: 1 });
    assert_ne!(Votes { yes: 2, no: 1 }, Votes { yes: 1, no: 2 });
    assert_eq!(QueryMsg::Config {}, QueryMsg::Config {});
    assert_ne!(
        QueryMsg::Submissions { limit: Some(3), start_after: None },
        QueryMsg::Submissions { limit: None, start_after: Some(3) }
    );
}
