//! The auction queue: one live slot and the accepted submissions that wait for it.

use vstd::prelude::*;
use crate::msgs::SECONDS_PER_DAY;
use crate::state::{
    Auction, AuctionView, Bid, State, StateView, SubmissionItem, SubmissionItemView,
};

verus! {

impl StateView {
    /// The state after an accepted submission enters the queue at `now`: it goes
    /// live at once where the live slot is free, and waits at the end of the
    /// pending sequence, with its deadline unset, where it is not.
    pub open spec fn promote(self, item: SubmissionItemView, now: u64) -> StateView {
        if self.auction is None {
            StateView {
                auction: Some(
                    AuctionView::opening(item, self.config.auction_deadline(now) as u64),
                ),
                ..self
            }
        } else {
            StateView {
                pending_auctions: self.pending_auctions.push(AuctionView::opening(item, 0)),
                ..self
            }
        }
    }

    /// The state after the live auction has concluded at `now`: the auction that
    /// was queued last goes live with a fresh deadline; with nothing queued the
    /// live slot stays free.
    pub open spec fn activate_next(self, now: u64) -> StateView {
        if self.pending_auctions.len() == 0 {
            StateView { auction: None, ..self }
        } else {
            StateView {
                auction: Some(
                    AuctionView {
                        auction_end_time: self.config.auction_deadline(now) as u64,
                        ..self.pending_auctions.last()
                    },
                ),
                pending_auctions: self.pending_auctions.drop_last(),
                ..self
            }
        }
    }
}

/// `now` plus `days` days, in seconds.
pub fn deadline(now: u64, days: u64) -> (end: u64)
    requires
        now + days * SECONDS_PER_DAY <= u64::MAX,
    ensures
        end == now + days * SECONDS_PER_DAY,
{
    now + days * SECONDS_PER_DAY
}

impl Auction {
    /// The auction that an accepted submission starts as: no bids yet.
    pub fn new(item: SubmissionItem, auction_end_time: u64) -> (auction: Auction)
        ensures
            auction@ == AuctionView::opening(item@, auction_end_time),
    {
        let auction = Auction {
            submission_info: item,
            bids: Vec::new(),
            highest_bid: Bid { bidder: String::new(), amount: 0 },
            auction_end_time,
        };
        assert(auction@ =~= AuctionView::opening(item@, auction_end_time));
        auction
    }
}

impl State {
    /// Hands an accepted submission to the queue: live at once if the live slot
    /// is free, else last in the pending sequence.
    pub fn promote(&mut self, item: SubmissionItem, now: u64)
        requires
            old(self).auction is None ==> old(self)@.config.auction_deadline(now) <= u64::MAX,
        ensures
            final(self)@ == old(self)@.promote(item@, now),
            final(self).submissions == old(self).submissions,
            old(self).wf() && item@.wf() ==> final(self).wf(),
    {
        if self.auction.is_none() {
            let end: u64 = deadline(now, self.config.auction_period);
            self.auction = Some(Auction::new(item, end));
        } else {
            self.pending_auctions.push(Auction::new(item, 0));
        }
        assert(self@ =~= old(self)@.promote(item@, now));
    }

    /// Replaces the concluded live auction by the one that was queued last, if any.
    pub fn activate_next(&mut self, now: u64)
        requires
            old(self).pending_auctions.len() > 0 ==> old(self)@.config.auction_deadline(now)
                <= u64::MAX,
        ensures
            final(self)@ == old(self)@.activate_next(now),
            final(self).submissions == old(self).submissions,
            old(self).wf() ==> final(self).wf(),
    {
        match self.pending_auctions.pop() {
            Some(mut next) => {
                next.auction_end_time = deadline(now, self.config.auction_period);
                self.auction = Some(next);
            },
            None => {
                self.auction = None;
            },
        }
        assert(self@ =~= old(self)@.activate_next(now));
    }
}

} // verus!
