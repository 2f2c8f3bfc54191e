//! What a call hands back: instructions for the host and a record of what was done.

use vstd::prelude::*;
use crate::error::ContractError;
use crate::msgs::{coins_view, Coin, CoinView};

verus! {

/// What one submission of a curation batch came to.
#[derive(Clone, Copy, Debug, PartialEq, Eq, Structural)]
pub enum CurationOutcome {
    /// The vote carried the submission over the threshold; it left the registry
    /// for the auction queue.
    Accepted,
    /// The voting window had closed below the threshold; the submission was removed.
    Expired,
    /// The voter had voted on this submission before.
    AlreadyVoted,
    /// The registry holds no such submission.
    NotFound,
    /// The vote was added; the submission stays in the registry.
    Recorded,
    /// Nothing was changed: a vote against, or a closed window at or above the threshold.
    Unchanged,
}

/// Something for the host to carry out. The library only decides; it moves nothing.
#[derive(Clone, Debug, PartialEq, Eq)]
pub enum Instruction {
    /// Send `amount` of `denom` to `to_address`.
    Transfer { to_address: String, denom: String, amount: u128 },
    /// Have the collection at `minter` mint token `token_id` to `owner`, paying `fee`.
    Mint { minter: String, owner: String, token_id: u64, token_uri: String, fee: Coin },
    /// Hand a serialised message to the contract at `contract_addr`, with `funds`.
    Execute { contract_addr: String, msg: Vec<u8>, funds: Vec<Coin> },
}

/// What an [`Instruction`] stands for in contracts.
#[verifier::ext_equal]
pub enum InstructionView {
    Transfer { to_address: Seq<char>, denom: Seq<char>, amount: u128 },
    Mint {
        minter: Seq<char>,
        owner: Seq<char>,
        token_id: u64,
        token_uri: Seq<char>,
        fee: CoinView,
    },
    Execute { contract_addr: Seq<char>, msg: Seq<u8>, funds: Seq<CoinView> },
}

impl View for Instruction {
    type V = InstructionView;

    open spec fn view(&self) -> InstructionView {
        match *self {
            Instruction::Transfer { to_address, denom, amount } => InstructionView::Transfer {
                to_address: to_address@,
                denom: denom@,
                amount,
            },
            Instruction::Mint { minter, owner, token_id, token_uri, fee } => InstructionView::Mint {
                minter: minter@,
                owner: owner@,
                token_id,
                token_uri: token_uri@,
                fee: fee@,
            },
            Instruction::Execute { contract_addr, msg, funds } => InstructionView::Execute {
                contract_addr: contract_addr@,
                msg: msg@,
                funds: coins_view(funds@),
            },
        }
    }
}

/// What a list of instructions stands for in contracts.
pub open spec fn instructions_view(list: Seq<Instruction>) -> Seq<InstructionView> {
    list.map_values(|i: Instruction| i@)
}

/// The record of what a call did.
#[derive(Clone, Debug, PartialEq, Eq)]
pub enum Event {
    Submitted { submission_id: u64 },
    Curated { outcomes: Vec<CurationOutcome> },
    BidPlaced { bidder: String, amount: u128 },
    Concluded { highest_bidder: String, highest_bid: u128 },
}

/// What an [`Event`] stands for in contracts.
#[verifier::ext_equal]
pub enum EventView {
    Submitted { submission_id: u64 },
    Curated { outcomes: Seq<CurationOutcome> },
    BidPlaced { bidder: Seq<char>, amount: u128 },
    Concluded { highest_bidder: Seq<char>, highest_bid: u128 },
}

impl View for Event {
    type V = EventView;

    open spec fn view(&self) -> EventView {
        match *self {
            Event::Submitted { submission_id } => EventView::Submitted { submission_id },
            Event::Curated { outcomes } => EventView::Curated { outcomes: outcomes@ },
            Event::BidPlaced { bidder, amount } => EventView::BidPlaced { bidder: bidder@, amount },
            Event::Concluded { highest_bidder, highest_bid } => EventView::Concluded {
                highest_bidder: highest_bidder@,
                highest_bid,
            },
        }
    }
}

/// What a successful call hands back: instructions, in the order in which they
/// are to be carried out, and the record of what was done.
#[derive(Clone, Debug, PartialEq, Eq)]
pub struct Response {
    pub messages: Vec<Instruction>,
    pub event: Event,
}

/// What a [`Response`] stands for in contracts.
#[verifier::ext_equal]
pub struct ResponseView {
    pub messages: Seq<InstructionView>,
    pub event: EventView,
}

impl View for Response {
    type V = ResponseView;

    open spec fn view(&self) -> ResponseView {
        ResponseView { messages: instructions_view(self.messages@), event: self.event@ }
    }
}

/// What a call came to, over views.
pub open spec fn result_view(r: Result<Response, ContractError>) -> Result<
    ResponseView,
    ContractError,
> {
    match r {
        Ok(response) => Ok(response@),
        Err(e) => Err(e),
    }
}

} // verus!
