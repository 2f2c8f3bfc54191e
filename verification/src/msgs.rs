//! Messages, coins and the configuration.

use vstd::prelude::*;
use crate::math::Decimal;
use crate::state::SubmissionItem;

verus! {

/// An amount of one fungible asset.
#[derive(Clone, Debug, PartialEq, Eq)]
pub struct Coin {
    pub denom: String,
    pub amount: u128,
}

/// What a [`Coin`] stands for in contracts.
#[verifier::ext_equal]
pub struct CoinView {
    pub denom: Seq<char>,
    pub amount: u128,
}

impl View for Coin {
    type V = CoinView;

    open spec fn view(&self) -> CoinView {
        CoinView { denom: self.denom@, amount: self.amount }
    }
}

/// What a list of coins stands for in contracts.
pub open spec fn coins_view(coins: Seq<Coin>) -> Seq<CoinView> {
    coins.map_values(|c: Coin| c@)
}

/// The text of an optional string.
pub open spec fn opt_text(text: Option<String>) -> Option<Seq<char>> {
    match text {
        Some(t) => Some(t@),
        None => None,
    }
}

/// What the pipeline is set up with.
#[derive(Clone, Debug, PartialEq, Eq)]
pub struct InstantiateMsg {
    pub sg721_code_id: u64,
    pub base_factory_address: String,
    /// Bid denom
    pub bid_denom: String,
    /// Memecoin denom
    pub memecoin_denom: Option<String>,
    /// First submission for the first NFT auction of the collection
    pub first_submission: SubmissionItem,
    /// Mint cost
    pub mint_cost: u128,
}

/// The calls that the pipeline takes.
#[derive(Clone, Debug, PartialEq, Eq)]
pub enum ExecuteMsg {
    SubmitNFT { submitter: String, proceed_recipient: String, token_uri: String },
    /// Submissions have their vote period to gather votes; a vote that arrives
    /// later removes a submission that has not gathered enough.
    VoteToCurate { submission_ids: Vec<u64>, vote: bool },
    Bid {  },
    /// Mint the artwork to the highest bidder and hand out proceeds and rewards.
    ConcludeAuction {  },
    MigrateMinter { new_address: String },
    UpdateConfig {
        owner: Option<String>,
        bid_denom: Option<String>,
        memecoin_denom: Option<String>,
        minter_addr: Option<String>,
    },
}

/// The questions that the pipeline answers.
#[derive(Clone, Copy, Debug, PartialEq, Eq, Structural)]
pub enum QueryMsg {
    /// Return contract config
    Config {  },
    /// Return list of submissions
    Submissions { limit: Option<u32>, start_after: Option<u64> },
}

/// The parameters and running counters of the pipeline.
#[derive(Clone, Debug, PartialEq, Eq)]
pub struct Config {
    /// Contract owner
    pub owner: String,
    /// Bid denom
    pub bid_denom: String,
    /// Memecoin denom
    pub memecoin_denom: Option<String>,
    /// Memecoin distribution amount
    pub memecoin_distribution_amount: u128,
    /// Current token ID
    pub current_token_id: u64,
    /// Current submission ID
    pub current_submission_id: u64,
    /// Minter address
    pub minter_addr: String,
    /// Mint cost
    pub mint_cost: u128,
    /// Submission cost for non-holders in the bid_denom
    pub submission_cost: u128,
    /// Submission limit
    pub submission_limit: u64,
    /// Current submission total
    pub submission_total: u64,
    /// Submission vote period (in days)
    pub submission_vote_period: u64,
    /// Curation threshold (share of all tokens that must vote yes)
    pub curation_threshold: Decimal,
    /// Auction period (in days)
    pub auction_period: u64,
}

/// What a [`Config`] stands for in contracts.
#[verifier::ext_equal]
pub struct ConfigView {
    pub owner: Seq<char>,
    pub bid_denom: Seq<char>,
    pub memecoin_denom: Option<Seq<char>>,
    pub memecoin_distribution_amount: u128,
    pub current_token_id: u64,
    pub current_submission_id: u64,
    pub minter_addr: Seq<char>,
    pub mint_cost: u128,
    pub submission_cost: u128,
    pub submission_limit: u64,
    pub submission_total: u64,
    pub submission_vote_period: u64,
    pub curation_threshold: Decimal,
    pub auction_period: u64,
}

impl View for Config {
    type V = ConfigView;

    open spec fn view(&self) -> ConfigView {
        ConfigView {
            owner: self.owner@,
            bid_denom: self.bid_denom@,
            memecoin_denom: opt_text(self.memecoin_denom),
            memecoin_distribution_amount: self.memecoin_distribution_amount,
            current_token_id: self.current_token_id,
            current_submission_id: self.current_submission_id,
            minter_addr: self.minter_addr@,
            mint_cost: self.mint_cost,
            submission_cost: self.submission_cost,
            submission_limit: self.submission_limit,
            submission_total: self.submission_total,
            submission_vote_period: self.submission_vote_period,
            curation_threshold: self.curation_threshold,
            auction_period: self.auction_period,
        }
    }
}

/// Seconds in a day.
pub const SECONDS_PER_DAY: u64 = 86400u64;

impl ConfigView {
    /// When a submission made at `now` stops taking votes.
    pub open spec fn vote_deadline(self, now: u64) -> int {
        now + self.submission_vote_period * SECONDS_PER_DAY
    }

    /// When an auction that goes live at `now` ends.
    pub open spec fn auction_deadline(self, now: u64) -> int {
        now + self.auction_period * SECONDS_PER_DAY
    }
}

} // verus!
