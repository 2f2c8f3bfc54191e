//! Setting the pipeline up, and carrying out one call on it.

use vstd::prelude::*;
use vstd::pervasive::unreached;
use crate::curation::{curate_nft, is_holder};
use crate::error::ContractError;
use crate::ledger::bid_on_live_auction;
use crate::math::Decimal;
use crate::msgs::{
    coins_view, opt_text, Coin, CoinView, Config, ConfigView, ExecuteMsg, InstantiateMsg,
    SECONDS_PER_DAY,
};
use crate::queue::deadline;
use crate::registry::{submit_nft, uri_parses};
use crate::response::{result_view, Response, ResponseView};
use crate::settlement::conclude_auction;
use crate::state::{Auction, AuctionView, State, StateView, SubmissionItemView};

verus! {

/// The one identifier under which a reply is expected: that of the collection's creation.
pub const COLLECTION_REPLY_ID: u64 = 1u64;

/// Days for which a submission takes votes.
pub const VOTE_PERIOD: u64 = 7u64;

/// Days for which an auction is live.
pub const AUCTION_PERIOD: u64 = 1u64;

/// Reward asset handed out per round.
pub const MEMECOIN_DISTRIBUTION_AMOUNT: u128 = 100_000_000u128;

/// What a non-holder pays to submit.
pub const SUBMISSION_COST: u128 = 10_000_000u128;

/// How many submissions may be pending at once.
pub const SUBMISSION_LIMIT: u64 = 333u64;

/// Hundredths of all tokens that must vote for a submission.
pub const CURATION_THRESHOLD_PERCENT: u64 = 11u64;

/// What the host has looked up for a call: the sender's tokens in the
/// reference collection (`None` where the lookup failed), the number of tokens
/// in existence, and the pipeline's own holdings of the reward asset (`None`
/// where unknown).
#[derive(Clone, Debug, PartialEq, Eq)]
pub struct Oracle {
    pub sender_tokens: Option<Vec<String>>,
    pub total_tokens: u64,
    pub reward_balance: Option<u128>,
}

/// What a reply answers.
#[derive(Clone, Copy, Debug, PartialEq, Eq, Structural)]
pub enum ReplyKind {
    /// The creation of the collection.
    Collection,
}

/// The configuration that the pipeline starts with.
pub open spec fn initial_config(
    sender: Seq<char>,
    bid_denom: Seq<char>,
    memecoin_denom: Option<Seq<char>>,
    mint_cost: u128,
) -> ConfigView {
    ConfigView {
        owner: sender,
        bid_denom,
        memecoin_denom,
        memecoin_distribution_amount: MEMECOIN_DISTRIBUTION_AMOUNT,
        current_token_id: 0,
        current_submission_id: 0,
        minter_addr: Seq::empty(),
        mint_cost,
        submission_cost: SUBMISSION_COST,
        submission_limit: SUBMISSION_LIMIT,
        submission_total: 0,
        submission_vote_period: VOTE_PERIOD,
        curation_threshold: Decimal {
            atomics: (CURATION_THRESHOLD_PERCENT * 10_000_000_000_000_000) as u128,
        },
        auction_period: AUCTION_PERIOD,
    }
}

/// The state that the pipeline starts in at `now`: an empty registry, nothing
/// queued, and the first submission live.
pub open spec fn initial_state(
    now: u64,
    sender: Seq<char>,
    bid_denom: Seq<char>,
    memecoin_denom: Option<Seq<char>>,
    first_submission: SubmissionItemView,
    mint_cost: u128,
) -> StateView {
    StateView {
        config: initial_config(sender, bid_denom, memecoin_denom, mint_cost),
        submissions: Map::empty(),
        auction: Some(
            AuctionView::opening(
                first_submission,
                (now + AUCTION_PERIOD * SECONDS_PER_DAY) as u64,
            ),
        ),
        pending_auctions: Seq::empty(),
    }
}

/// Sets the pipeline up at `now`, with the sender as owner and the first
/// submission live at once.
pub fn instantiate(now: u64, sender: String, msg: InstantiateMsg) -> (state: State)
    requires
        now + AUCTION_PERIOD * SECONDS_PER_DAY <= u64::MAX,
        msg.first_submission@.wf(),
    ensures
        state.wf(),
        state@ == initial_state(
            now,
            sender@,
            msg.bid_denom@,
            opt_text(msg.memecoin_denom),
            msg.first_submission@,
            msg.mint_cost,
        ),
{
    let config = Config {
        owner: sender,
        bid_denom: msg.bid_denom,
        memecoin_denom: msg.memecoin_denom,
        memecoin_distribution_amount: MEMECOIN_DISTRIBUTION_AMOUNT,
        current_token_id: 0,
        current_submission_id: 0,
        minter_addr: String::new(),
        mint_cost: msg.mint_cost,
        submission_cost: SUBMISSION_COST,
        submission_limit: SUBMISSION_LIMIT,
        submission_total: 0,
        submission_vote_period: VOTE_PERIOD,
        curation_threshold: Decimal::percent(CURATION_THRESHOLD_PERCENT),
        auction_period: AUCTION_PERIOD,
    };
    let end: u64 = deadline(now, config.auction_period);
    let state = State {
        config,
        submissions: Vec::new(),
        auction: Some(Auction::new(msg.first_submission, end)),
        pending_auctions: Vec::new(),
    };
    proof {
        assert(state@ =~= initial_state(
            now,
            sender@,
            msg.bid_denom@,
            opt_text(msg.memecoin_denom),
            msg.first_submission@,
            msg.mint_cost,
        ));
    }
    state
}

/// Whether the message belongs to the curation-to-auction pipeline.
pub open spec fn is_core(msg: ExecuteMsg) -> bool {
    !(msg is MigrateMinter) && !(msg is UpdateConfig)
}

impl StateView {
    /// The state after a call at `now`, and what the call returns. It says
    /// nothing of the messages that are not of the pipeline.
    pub open spec fn execute(
        self,
        now: u64,
        sender: Seq<char>,
        funds: Seq<CoinView>,
        oracle: Oracle,
        msg: ExecuteMsg,
    ) -> (StateView, Result<ResponseView, ContractError>) {
        match msg {
            ExecuteMsg::SubmitNFT { submitter, proceed_recipient, token_uri } => self.submit_nft(
                now,
                sender,
                proceed_recipient@,
                token_uri@,
                uri_parses(token_uri@),
                funds,
                is_holder(oracle.sender_tokens),
            ),
            ExecuteMsg::VoteToCurate { submission_ids, vote } => self.curate_batch(
                now,
                sender,
                is_holder(oracle.sender_tokens),
                oracle.total_tokens,
                submission_ids@,
                vote,
            ),
            ExecuteMsg::Bid {  } => self.bid(now, sender, funds),
            ExecuteMsg::ConcludeAuction {  } => self.conclude(now, oracle.reward_balance),
            _ => (self, Err(ContractError::NotFound)),
        }
    }
}

impl StateView {
    /// Whether the state admits the message at `now`: it is one of the
    /// pipeline's own, and carrying it out stays within the machine's integers.
    pub open spec fn admits(self, now: u64, msg: ExecuteMsg) -> bool {
        &&& is_core(msg)
        &&& msg is SubmitNFT ==> self.submission_in_range(now)
        &&& msg is VoteToCurate ==> self.curation_in_range(now)
        &&& msg is ConcludeAuction ==> self.conclusion_in_range(now)
    }
}

/// Carries out one call of the pipeline at `now`. The messages that
/// reconfigure the owner or the collection are not for this function.
pub fn execute(
    state: &mut State,
    now: u64,
    sender: String,
    funds: &Vec<Coin>,
    oracle: &Oracle,
    msg: ExecuteMsg,
) -> (r: Result<Response, ContractError>)
    requires
        old(state).wf(),
        old(state)@.admits(now, msg),
    ensures
        final(state).wf(),
        final(state)@ == old(state)@.execute(now, sender@, coins_view(funds@), *oracle, msg).0,
        result_view(r) == old(state)@.execute(now, sender@, coins_view(funds@), *oracle, msg).1,
{
    match msg {
        ExecuteMsg::SubmitNFT { submitter, proceed_recipient, token_uri } => submit_nft(
            state,
            now,
            sender,
            funds,
            &oracle.sender_tokens,
            proceed_recipient,
            token_uri,
        ),
        ExecuteMsg::VoteToCurate { submission_ids, vote } => curate_nft(
            state,
            now,
            &sender,
            &oracle.sender_tokens,
            oracle.total_tokens,
            &submission_ids,
            vote,
        ),
        ExecuteMsg::Bid {  } => bid_on_live_auction(state, now, &sender, funds),
        ExecuteMsg::ConcludeAuction {  } => conclude_auction(state, now, oracle.reward_balance),
        ExecuteMsg::MigrateMinter { new_address } => unreached(),
        ExecuteMsg::UpdateConfig { owner, bid_denom, memecoin_denom, minter_addr } => unreached(),
    }
}

/// Carries out one call of the pipeline at `now` where the state is well
/// formed and admits the message; else answers nothing and leaves the state
/// untouched.
pub fn checked_execute(
    state: &mut State,
    now: u64,
    sender: String,
    funds: &Vec<Coin>,
    oracle: &Oracle,
    msg: ExecuteMsg,
) -> (r: Option<Result<Response, ContractError>>)
    ensures
        r is Some <==> old(state).wf() && old(state)@.admits(now, msg),
        r is None ==> *final(state) == *old(state),
        r matches Some(done) ==> {
            &&& final(state).wf()
            &&& final(state)@ == old(state)@.execute(
                now,
                sender@,
                coins_view(funds@),
                *oracle,
                msg,
            ).0
            &&& result_view(done) == old(state)@.execute(
                now,
                sender@,
                coins_view(funds@),
                *oracle,
                msg,
            ).1
        },
{
    if state.is_well_formed() && state.admits(now, &msg) {
        Some(execute(state, now, sender, funds, oracle, msg))
    } else {
        None
    }
}

/// Tells what a reply answers from the identifier it came under.
pub fn reply(id: u64) -> (r: Result<ReplyKind, ContractError>)
    ensures
        r == if id == COLLECTION_REPLY_ID {
            Ok::<ReplyKind, ContractError>(ReplyKind::Collection)
        } else {
            Err(ContractError::InvalidReplyId { id })
        },
{
    if id == COLLECTION_REPLY_ID {
        Ok(ReplyKind::Collection)
    } else {
        Err(ContractError::InvalidReplyId { id })
    }
}

} // verus!
