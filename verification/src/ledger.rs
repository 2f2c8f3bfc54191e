//! The bid ledger of the live auction.

use vstd::prelude::*;
use crate::error::ContractError;
use crate::msgs::{coins_view, Coin, CoinView};
use crate::response::{
    instructions_view, result_view, Event, EventView, Instruction, InstructionView, Response,
    ResponseView,
};
use crate::state::{AuctionView, Bid, BidView, State, StateView};

verus! {

/// The bid that the attached funds make: they must be exactly one coin, of the
/// bid denom.
pub open spec fn bid_asset(sender: Seq<char>, funds: Seq<CoinView>, bid_denom: Seq<char>) -> Result<
    BidView,
    ContractError,
> {
    if funds.len() != 1 || funds[0].denom != bid_denom {
        Err(ContractError::InvalidBidAsset)
    } else {
        Ok(BidView { bidder: sender, amount: funds[0].amount })
    }
}

impl AuctionView {
    /// Whether the ledger takes `bid`: the first bid always, a later one where
    /// it is strictly above the highest so far.
    pub open spec fn accepts(self, bid: BidView) -> bool {
        self.bids.len() == 0 || bid.amount > self.highest_bid.amount
    }

    /// The ledger after `bid` has been taken.
    pub open spec fn with_bid(self, bid: BidView) -> AuctionView {
        AuctionView { bids: self.bids.push(bid), highest_bid: bid, ..self }
    }

    /// The refund that taking a bid sets off: the displaced bidder gets the
    /// full amount back; the first bid displaces nobody.
    pub open spec fn refund(self, denom: Seq<char>) -> Seq<InstructionView> {
        if self.bids.len() == 0 {
            Seq::empty()
        } else {
            seq![
                InstructionView::Transfer {
                    to_address: self.highest_bid.bidder,
                    denom,
                    amount: self.highest_bid.amount,
                },
            ]
        }
    }
}

impl StateView {
    /// The state after a call to bid at `now`, and what the call returns.
    pub open spec fn bid(self, now: u64, sender: Seq<char>, funds: Seq<CoinView>) -> (
        StateView,
        Result<ResponseView, ContractError>,
    ) {
        match bid_asset(sender, funds, self.config.bid_denom) {
            Err(e) => (self, Err(e)),
            Ok(bid) => match self.auction {
                None => (self, Err(ContractError::NotFound)),
                Some(live) => if now > live.auction_end_time {
                    (self, Err(ContractError::AuctionEnded))
                } else if !live.accepts(bid) {
                    (self, Err(ContractError::BidTooLow))
                } else {
                    (
                        StateView { auction: Some(live.with_bid(bid)), ..self },
                        Ok(
                            ResponseView {
                                messages: live.refund(self.config.bid_denom),
                                event: EventView::BidPlaced {
                                    bidder: bid.bidder,
                                    amount: bid.amount,
                                },
                            },
                        ),
                    )
                },
            },
        }
    }
}

/// Reads the sender's bid from the attached funds.
pub fn assert_bid_asset(sender: &String, funds: &Vec<Coin>, bid_denom: &String) -> (r: Result<
    Bid,
    ContractError,
>)
    ensures
        match bid_asset(sender@, coins_view(funds@), bid_denom@) {
            Ok(bid) => r matches Ok(made) && made@ == bid,
            Err(e) => r == Err::<Bid, ContractError>(e),
        },
{
    if funds.len() != 1 {
        return Err(ContractError::InvalidBidAsset);
    }
    if funds[0].denom != *bid_denom {
        assert(coins_view(funds@)[0].denom == funds[0].denom@);
        return Err(ContractError::InvalidBidAsset);
    }
    assert(coins_view(funds@)[0] == funds[0]@);
    Ok(Bid { bidder: sender.clone(), amount: funds[0].amount })
}

/// Places the sender's bid on the live auction at `now`. A bid that is taken
/// sets off the refund of the bid that it displaces.
pub fn bid_on_live_auction(state: &mut State, now: u64, sender: &String, funds: &Vec<Coin>) -> (r:
    Result<Response, ContractError>)
    requires
        old(state).wf(),
    ensures
        final(state).wf(),
        final(state)@ == old(state)@.bid(now, sender@, coins_view(funds@)).0,
        result_view(r) == old(state)@.bid(now, sender@, coins_view(funds@)).1,
{
    let current_bid = match assert_bid_asset(sender, funds, &state.config.bid_denom) {
        Err(e) => {
            return Err(e);
        },
        Ok(bid) => bid,
    };
    match &state.auction {
        None => {
            return Err(ContractError::NotFound);
        },
        Some(live) => {
            if now > live.auction_end_time {
                return Err(ContractError::AuctionEnded);
            }
            if live.bids.len() > 0 && current_bid.amount <= live.highest_bid.amount {
                return Err(ContractError::BidTooLow);
            }
        },
    }
    let mut live = state.auction.take().unwrap();
    let ghost before = live@;
    let mut msgs: Vec<Instruction> = Vec::new();
    if live.bids.len() > 0 {
        msgs.push(
            Instruction::Transfer {
                to_address: live.highest_bid.bidder.clone(),
                denom: state.config.bid_denom.clone(),
                amount: live.highest_bid.amount,
            },
        );
    }
    let amount: u128 = current_bid.amount;
    live.bids.push(Bid { bidder: current_bid.bidder.clone(), amount });
    live.highest_bid = current_bid;
    proof {
        assert(live@ =~= before.with_bid(current_bid@));
        assert(instructions_view(msgs@) =~= before.refund(state@.config.bid_denom));
        assert(live@.wf());
    }
    state.auction = Some(live);
    let response = Response {
        messages: msgs,
        event: Event::BidPlaced { bidder: sender.clone(), amount },
    };
    proof {
        let expected = old(state)@.bid(now, sender@, coins_view(funds@));
        assert(state@ =~= expected.0);
        assert(response@ =~= expected.1->Ok_0);
    }
    Ok(response)
}

} // verus!
