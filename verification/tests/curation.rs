use brane_auction::contracts::instantiate;
use brane_auction::curation::{below_threshold, curate_nft, has_voted};
use brane_auction::error::ContractError;
use brane_auction::math::Decimal;
use brane_auction::msgs::InstantiateMsg;
use brane_auction::registry::submit_nft;
use brane_auction::response::{CurationOutcome, Event, Response};
use brane_auction::state::{Auction, Bid, State, SubmissionInfo, SubmissionItem};

const DAY: u64 = 86400;
const SUBMITTED_AT: u64 = 10_000;
const CLOSES_AT: u64 = SUBMITTED_AT + 7 * DAY;

fn curation_state() -> State {
    instantiate(
        1_000,
        String::from("owner"),
        InstantiateMsg {
            sg721_code_id: 1,
            base_factory_address: String::from("factory"),
            bid_denom: String::from("ustars"),
            memecoin_denom: None,
            first_submission: SubmissionItem {
                submission: SubmissionInfo {
                    submitter: String::from("founder"),
                    proceed_recipient: String::from("founder"),
                    token_uri: String::from("ipfs://first"),
                },
                curation_votes: vec![],
                submission_end_time: 0,
            },
            mint_cost: 1,
        },
    )
}

fn holding() -> Option<Vec<String>> {
    Some(vec![String::from("token")])
}

fn with_submissions(count: u64) -> State {
    let mut state = curation_state();
    for i in 0..count {
        submit_nft(
            &mut state,
            SUBMITTED_AT,
            format!("artist{}", i),
            &vec![],
            &holding(),
            format!("payee{}", i),
            format!("ipfs://art/{}", i),
        )
        .unwrap();
    }
    state
}

fn vote_on(
    state: &mut State,
    now: u64,
    who: &str,
    total_tokens: u64,
    ids: Vec<u64>,
    vote: bool,
) -> Vec<CurationOutcome> {
    let r = curate_nft(state, now, &String::from(who), &holding(), total_tokens, &ids, vote);
    match r {
        Ok(Response { messages, event: Event::Curated { outcomes } }) => {
            assert!(messages.is_empty());
            outcomes
        }
        other => panic!("a holder's batch does not fail: {:?}", other),
    }
}

fn ids_of(state: &State) -> Vec<u64> {
    state.submissions.iter().map(|e| e.id).collect()
}

#[test]
fn the_threshold_is_eleven_percent_of_all_tokens_rounded_down() {
    let eleven = Decimal { atomics: 110_000_000_000_000_000 };
    assert!(below_threshold(0, 10, eleven));
    assert!(!below_threshold(1, 10, eleven));
    assert!(below_threshold(1, 20, eleven));
    assert!(!below_threshold(2, 20, eleven));
    assert!(below_threshold(10, 100, eleven));
    assert!(!below_threshold(11, 100, eleven));
    assert!(!below_threshold(0, 9, eleven));
    assert!(!below_threshold(0, 0, eleven));
}

#[test]
fn a_threshold_beyond_the_integers_is_never_reached() {
    let huge = Decimal { atomics: u128::MAX };
    assert!(below_threshold(usize::MAX, u64::MAX, huge));
    assert!(below_threshold(0, u64::MAX, huge));
    let one = Decimal { atomics: 1_000_000_000_000_000_000 };
    assert!(below_threshold(5, 6, one));
    assert!(!below_threshold(6, 6, one));
}

#[test]
fn has_voted_looks_for_the_voter() {
    let votes = vec![String::from("a"), String::from("b")];
    assert!(has_voted(&votes, &String::from("a")));
    assert!(has_voted(&votes, &String::from("b")));
    assert!(!has_voted(&votes, &String::from("c")));
    assert!(!has_voted(&vec![], &String::from("a")));
}

#[test]
fn who_holds_no_token_cannot_vote() {
    let mut state = with_submissions(1);
    let before = state.clone();
    let voter = String::from("stranger");
    assert_eq!(
        curate_nft(&mut state, SUBMITTED_AT + 1, &voter, &Some(vec![]), 10, &vec![0], true),
        Err(ContractError::HolderCheckFailed)
    );
    assert_eq!(
        curate_nft(&mut state, SUBMITTED_AT + 1, &voter, &None, 10, &vec![0], true),
        Err(ContractError::HolderCheckFailed)
    );
    assert_eq!(state, before);
}

#[test]
fn a_vote_below_the_threshold_is_recorded() {
    let mut state = with_submissions(1);
    let outcomes = vote_on(&mut state, SUBMITTED_AT + 1, "v1", 20, vec![0], true);
    assert_eq!(outcomes, vec![CurationOutcome::Recorded]);
    assert_eq!(state.submissions[0].item.curation_votes, vec![String::from("v1")]);
    assert_eq!(state.config.submission_total, 1);
    assert!(state.pending_auctions.is_empty());
    assert!(state.is_well_formed());
}

#[test]
fn the_vote_that_reaches_the_threshold_queues_the_submission() {
    let mut state = with_submissions(1);
    let live_before = state.auction.clone();
    vote_on(&mut state, SUBMITTED_AT + 1, "v1", 20, vec![0], true);
    let outcomes = vote_on(&mut state, SUBMITTED_AT + 2, "v2", 20, vec![0], true);
    assert_eq!(outcomes, vec![CurationOutcome::Accepted]);
    assert!(state.submissions.is_empty());
    assert_eq!(state.config.submission_total, 0);
    assert_eq!(state.config.current_submission_id, 1);
    assert_eq!(state.auction, live_before);
    assert_eq!(
        state.pending_auctions,
        vec![Auction {
            submission_info: SubmissionItem {
                submission: SubmissionInfo {
                    submitter: String::from("artist0"),
                    proceed_recipient: String::from("payee0"),
                    token_uri: String::from("ipfs://art/0"),
                },
                curation_votes: vec![String::from("v1"), String::from("v2")],
                submission_end_time: CLOSES_AT,
            },
            bids: vec![],
            highest_bid: Bid { bidder: String::new(), amount: 0 },
            auction_end_time: 0,
        }]
    );
    assert!(state.is_well_formed());
}

#[test]
fn an_accepted_submission_goes_live_at_once_where_the_slot_is_free() {
    let mut state = with_submissions(1);
    state.auction = None;
    let now = SUBMITTED_AT + 50;
    let outcomes = vote_on(&mut state, now, "v1", 10, vec![0], true);
    assert_eq!(outcomes, vec![CurationOutcome::Accepted]);
    assert!(state.pending_auctions.is_empty());
    let live = state.auction.as_ref().unwrap();
    assert_eq!(live.auction_end_time, now + DAY);
    assert_eq!(live.submission_info.submission.token_uri, "ipfs://art/0");
    assert_eq!(live.submission_info.curation_votes, vec![String::from("v1")]);
    assert!(live.bids.is_empty());
}

#[test]
fn with_no_tokens_in_existence_the_first_vote_carries() {
    let mut state = with_submissions(1);
    let outcomes = vote_on(&mut state, SUBMITTED_AT + 1, "v1", 0, vec![0], true);
    assert_eq!(outcomes, vec![CurationOutcome::Accepted]);
}

#[test]
fn nobody_votes_twice() {
    let mut state = with_submissions(1);
    vote_on(&mut state, SUBMITTED_AT + 1, "v1", 100, vec![0], true);
    let before = state.clone();
    assert_eq!(
        vote_on(&mut state, SUBMITTED_AT + 2, "v1", 100, vec![0], true),
        vec![CurationOutcome::AlreadyVoted]
    );
    assert_eq!(
        vote_on(&mut state, SUBMITTED_AT + 2, "v1", 100, vec![0], false),
        vec![CurationOutcome::AlreadyVoted]
    );
    assert_eq!(state, before);
}

#[test]
fn an_identifier_named_twice_is_voted_on_once() {
    let mut state = with_submissions(1);
    let outcomes = vote_on(&mut state, SUBMITTED_AT + 1, "v1", 100, vec![0, 0], true);
    assert_eq!(outcomes, vec![CurationOutcome::Recorded, CurationOutcome::AlreadyVoted]);
    assert_eq!(state.submissions[0].item.curation_votes, vec![String::from("v1")]);
}

#[test]
fn an_unknown_identifier_is_passed_over() {
    let mut state = with_submissions(2);
    let outcomes = vote_on(&mut state, SUBMITTED_AT + 1, "v1", 100, vec![7, 1, 2, 0], true);
    assert_eq!(
        outcomes,
        vec![
            CurationOutcome::NotFound,
            CurationOutcome::Recorded,
            CurationOutcome::NotFound,
            CurationOutcome::Recorded,
        ]
    );
    assert_eq!(ids_of(&state), vec![0, 1]);
}

#[test]
fn an_empty_batch_does_nothing() {
    let mut state = with_submissions(1);
    let before = state.clone();
    assert_eq!(vote_on(&mut state, SUBMITTED_AT + 1, "v1", 100, vec![], true), vec![]);
    assert_eq!(state, before);
}

#[test]
fn a_vote_against_changes_nothing() {
    let mut state = with_submissions(1);
    let before = state.clone();
    let outcomes = vote_on(&mut state, SUBMITTED_AT + 1, "v1", 10, vec![0], false);
    assert_eq!(outcomes, vec![CurationOutcome::Unchanged]);
    assert_eq!(state, before);
    assert_eq!(
        vote_on(&mut state, SUBMITTED_AT + 2, "v1", 10, vec![0], true),
        vec![CurationOutcome::Accepted]
    );
}

#[test]
fn a_vote_past_the_window_removes_a_submission_below_the_threshold() {
    let mut state = with_submissions(3);
    vote_on(&mut state, SUBMITTED_AT + 1, "v1", 100, vec![1], true);
    let live_before = state.auction.clone();
    let outcomes = vote_on(&mut state, CLOSES_AT + 1, "v2", 100, vec![1], true);
    assert_eq!(outcomes, vec![CurationOutcome::Expired]);
    assert_eq!(ids_of(&state), vec![0, 2]);
    assert_eq!(state.config.submission_total, 2);
    assert_eq!(state.config.current_submission_id, 3);
    assert_eq!(state.auction, live_before);
    assert!(state.pending_auctions.is_empty());
    assert!(state.is_well_formed());
}

#[test]
fn a_vote_against_past_the_window_removes_it_too() {
    let mut state = with_submissions(1);
    let outcomes = vote_on(&mut state, CLOSES_AT + 1, "v1", 100, vec![0], false);
    assert_eq!(outcomes, vec![CurationOutcome::Expired]);
    assert!(state.submissions.is_empty());
    assert_eq!(state.config.submission_total, 0);
}

#[test]
fn the_window_is_open_up_to_and_at_its_end() {
    let mut state = with_submissions(1);
    assert_eq!(
        vote_on(&mut state, CLOSES_AT, "v1", 100, vec![0], true),
        vec![CurationOutcome::Recorded]
    );
    assert_eq!(
        vote_on(&mut state, CLOSES_AT + 1, "v2", 100, vec![0], true),
        vec![CurationOutcome::Expired]
    );
}

#[test]
fn who_has_voted_does_not_remove_an_expired_submission() {
    let mut state = with_submissions(1);
    vote_on(&mut state, SUBMITTED_AT + 1, "v1", 100, vec![0], true);
    let before = state.clone();
    assert_eq!(
        vote_on(&mut state, CLOSES_AT + 1, "v1", 100, vec![0], true),
        vec![CurationOutcome::AlreadyVoted]
    );
    assert_eq!(state, before);
}

#[test]
fn a_closed_window_at_the_threshold_is_left_alone() {
    let mut state = with_submissions(1);
    vote_on(&mut state, SUBMITTED_AT + 1, "v1", 20, vec![0], true);
    let before = state.clone();
    // the collection has shrunk: one vote is now enough, but the window is closed
    assert_eq!(
        vote_on(&mut state, CLOSES_AT + 1, "v2", 10, vec![0], true),
        vec![CurationOutcome::Unchanged]
    );
    assert_eq!(state, before);
}

#[test]
fn the_threshold_moves_with_the_collection() {
    let mut state = with_submissions(1);
    assert_eq!(
        vote_on(&mut state, SUBMITTED_AT + 1, "v1", 30, vec![0], true),
        vec![CurationOutcome::Recorded]
    );
    assert_eq!(
        vote_on(&mut state, SUBMITTED_AT + 2, "v2", 30, vec![0], true),
        vec![CurationOutcome::Recorded]
    );
    assert_eq!(
        vote_on(&mut state, SUBMITTED_AT + 3, "v3", 20, vec![0], true),
        vec![CurationOutcome::Accepted]
    );
}

#[test]
fn one_batch_can_accept_expire_and_record() {
    let mut state = with_submissions(2);
    submit_nft(
        &mut state,
        CLOSES_AT,
        String::from("late"),
        &vec![],
        &holding(),
        String::from("late"),
        String::from("ipfs://late"),
    )
    .unwrap();
    vote_on(&mut state, SUBMITTED_AT + 1, "v1", 20, vec![0], true);
    let outcomes = vote_on(&mut state, CLOSES_AT, "v2", 20, vec![0, 2], true);
    assert_eq!(outcomes, vec![CurationOutcome::Accepted, CurationOutcome::Recorded]);
    let outcomes = vote_on(&mut state, CLOSES_AT + 1, "v3", 20, vec![0, 1, 2], true);
    assert_eq!(
        outcomes,
        vec![CurationOutcome::NotFound, CurationOutcome::Expired, CurationOutcome::Accepted]
    );
    assert!(state.submissions.is_empty());
    assert_eq!(state.config.submission_total, 0);
    assert_eq!(state.pending_auctions.len(), 2);
    assert_eq!(state.pending_auctions[0].submission_info.submission.token_uri, "ipfs://art/0");
    assert_eq!(state.pending_auctions[1].submission_info.submission.token_uri, "ipfs://late");
    assert!(state.is_well_formed());
}

#[test]
fn an_accepted_identifier_never_comes_back() {
    let mut state = with_submissions(2);
    assert_eq!(
        vote_on(&mut state, SUBMITTED_AT + 1, "v1", 10, vec![0], true),
        vec![CurationOutcome::Accepted]
    );
    assert_eq!(ids_of(&state), vec![1]);
    for i in 0..5u64 {
        let r = submit_nft(
            &mut state,
            SUBMITTED_AT + 10 + i,
            String::from("artist"),
            &vec![],
            &holding(),
            String::from("payee"),
            String::from("ipfs://more"),
        )
        .unwrap();
        assert_eq!(r.event, Event::Submitted { submission_id: 2 + i });
        assert!(!ids_of(&state).contains(&0));
    }
    assert_eq!(
        vote_on(&mut state, SUBMITTED_AT + 20, "v2", 10, vec![0], true),
        vec![CurationOutcome::NotFound]
    );
    assert_eq!(
        vote_on(&mut state, CLOSES_AT + 100, "v3", 100, vec![0, 1, 2, 3, 4, 5, 6], false),
        vec![
            CurationOutcome::NotFound,
            CurationOutcome::Expired,
            CurationOutcome::Expired,
            CurationOutcome::Expired,
            CurationOutcome::Expired,
            CurationOutcome::Expired,
            CurationOutcome::Expired,
        ]
    );
    assert!(state.submissions.is_empty());
    assert_eq!(state.config.submission_total, 0);
    assert_eq!(state.config.current_submission_id, 7);
}

#[test]
fn a_single_vote_through_the_state_itself() {
    let mut state = with_submissions(1);
    let voter = String::from("v1");
    assert_eq!(state.find_submission(0), Some(0));
    assert_eq!(state.find_submission(1), None);
    assert_eq!(state.curate(4, &voter, true, SUBMITTED_AT, 100), CurationOutcome::NotFound);
    assert_eq!(state.curate(0, &voter, true, SUBMITTED_AT, 100), CurationOutcome::Recorded);
    assert_eq!(state.curate(0, &voter, true, SUBMITTED_AT, 100), CurationOutcome::AlreadyVoted);
}
