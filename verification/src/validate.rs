//! Run-time tests of well-formedness and of the machine's limits, for callers
//! that cannot prove them.

use vstd::prelude::*;
use crate::msgs::{ExecuteMsg, SECONDS_PER_DAY};
use crate::registry::lemma_registry_view;
use crate::state::{
    auctions_view, bid_total, bids_view, ids_rise, lemma_bid_total_prefix, lemma_take_step,
    names_view, registry_view, Auction, Bid, State, SubmissionItem,
};

verus! {

impl SubmissionItem {
    /// Whether nobody has voted twice.
    pub fn is_well_formed(&self) -> (ok: bool)
        ensures
            ok == self@.wf(),
    {
        let ghost names = names_view(self.curation_votes@);
        let mut i: usize = 0;
        while i < self.curation_votes.len()
            invariant
                i <= self.curation_votes.len(),
                names == names_view(self.curation_votes@),
                forall|a: int, b: int| 0 <= a < b < i ==> names[a] != names[b],
            decreases self.curation_votes.len() - i,
        {
            let mut j: usize = 0;
            while j < i
                invariant
                    j <= i < self.curation_votes.len(),
                    names == names_view(self.curation_votes@),
                    forall|a: int| 0 <= a < j ==> names[a] != names[i as int],
                decreases i - j,
            {
                if self.curation_votes[j] == self.curation_votes[i] {
                    assert(names[j as int] == names[i as int]);
                    return false;
                }
                j += 1;
            }
            i += 1;
        }
        assert forall|a: int, b: int|
            0 <= a < names.len() && 0 <= b < names.len() && a != b implies names[a]
            != names[b] by {
            if a < b {
                assert(names[a] != names[b]);
            } else {
                assert(names[b] != names[a]);
            }
        }
        true
    }
}

/// Whether two bids name the same bidder and amount.
fn same_bid(a: &Bid, b: &Bid) -> (same: bool)
    ensures
        same == (a@ == b@),
{
    a.amount == b.amount && a.bidder == b.bidder
}

impl Auction {
    /// Whether the submission is well formed, the amounts rise strictly along
    /// the history, and the cached highest bid is the last one (or the no-bid
    /// entry where there is none).
    pub fn is_well_formed(&self) -> (ok: bool)
        ensures
            ok == self@.wf(),
    {
        if !self.submission_info.is_well_formed() {
            return false;
        }
        let ghost bids = bids_view(self.bids@);
        let count: usize = self.bids.len();
        if count == 0 {
            return self.highest_bid.amount == 0 && self.highest_bid.bidder == String::new();
        }
        assert(bids[count - 1] == self.bids[count - 1]@);
        if !same_bid(&self.highest_bid, &self.bids[count - 1]) {
            return false;
        }
        let mut i: usize = 1;
        while i < count
            invariant
                1 <= i <= count,
                count == self.bids.len(),
                bids == bids_view(self.bids@),
                forall|a: int, b: int| 0 <= a < b < i ==> bids[a].amount < bids[b].amount,
            decreases count - i,
        {
            assert(bids[i - 1] == self.bids[i - 1]@ && bids[i as int] == self.bids[i as int]@);
            if self.bids[i - 1].amount >= self.bids[i].amount {
                return false;
            }
            i += 1;
        }
        true
    }

    /// The sum of all bids, where it fits 128 bits.
    pub fn checked_bid_total(&self) -> (total: Option<u128>)
        ensures
            total == if bid_total(self@.bids) <= u128::MAX {
                Some(bid_total(self@.bids) as u128)
            } else {
                None
            },
    {
        let ghost all = bids_view(self.bids@);
        let mut total: u128 = 0;
        let mut k: usize = 0;
        while k < self.bids.len()
            invariant
                k <= self.bids.len(),
                all == bids_view(self.bids@),
                total == bid_total(all.take(k as int)),
            decreases self.bids.len() - k,
        {
            proof {
                lemma_take_step(all, k as int);
                lemma_bid_total_prefix(all, k + 1);
            }
            match total.checked_add(self.bids[k].amount) {
                Some(sum) => {
                    total = sum;
                },
                None => {
                    return None;
                },
            }
            k += 1;
        }
        proof {
            assert(all.take(k as int) =~= all);
        }
        Some(total)
    }
}

/// Whether `now` plus `days` days, in seconds, fits 64 bits.
pub fn deadline_fits(now: u64, days: u64) -> (fits: bool)
    ensures
        fits == (now + days * SECONDS_PER_DAY <= u64::MAX),
{
    match days.checked_mul(SECONDS_PER_DAY) {
        Some(seconds) => now.checked_add(seconds).is_some(),
        None => false,
    }
}

impl State {
    /// Whether the state is well formed.
    pub fn is_well_formed(&self) -> (ok: bool)
        ensures
            ok == self.wf(),
    {
        let ghost entries = self.submissions@;
        proof {
            lemma_registry_view(entries);
        }
        let count: usize = self.submissions.len();
        let mut i: usize = 0;
        while i < count
            invariant
                i <= count,
                count == self.submissions.len(),
                entries == self.submissions@,
                forall|a: int, b: int| 0 <= a < b < i ==> entries[a].id < entries[b].id,
                forall|a: int|
                    0 <= a < i ==> (#[trigger] entries[a]).id < self.config.current_submission_id
                        && entries[a].item@.wf(),
            decreases count - i,
        {
            let entry = &self.submissions[i];
            if i > 0 && self.submissions[i - 1].id >= entry.id {
                return false;
            }
            if entry.id >= self.config.current_submission_id {
                proof {
                    lemma_registry_view(entries);
                    assert(registry_view(entries).contains_key(entries[i as int].id));
                }
                return false;
            }
            if !entry.item.is_well_formed() {
                proof {
                    lemma_registry_view(entries);
                    assert(registry_view(entries).contains_key(entries[i as int].id));
                }
                return false;
            }
            i += 1;
        }
        assert(ids_rise(entries));
        if count as u64 != self.config.submission_total {
            return false;
        }
        match &self.auction {
            Some(live) => {
                if !live.is_well_formed() {
                    return false;
                }
            },
            None => {},
        }
        let ghost pending = auctions_view(self.pending_auctions@);
        let mut k: usize = 0;
        while k < self.pending_auctions.len()
            invariant
                k <= self.pending_auctions.len(),
                pending == auctions_view(self.pending_auctions@),
                forall|a: int| 0 <= a < k ==> (#[trigger] pending[a]).wf(),
            decreases self.pending_auctions.len() - k,
        {
            if !self.pending_auctions[k].is_well_formed() {
                assert(self@.pending_auctions[k as int] == self.pending_auctions[k as int]@);
                return false;
            }
            assert(pending[k as int] == self.pending_auctions[k as int]@);
            k += 1;
        }
        assert forall|id: u64| #[trigger] self@.submissions.contains_key(id) implies id
            < self@.config.current_submission_id && self@.submissions[id].wf() by {
            let a = choose|a: int| 0 <= a < entries.len() && (#[trigger] entries[a]).id == id;
            assert(entries[a].id < self.config.current_submission_id);
        }
        true
    }

    /// Whether the state admits the message at `now`: it is one of the
    /// pipeline's own, and carrying it out stays within the machine's integers.
    pub fn admits(&self, now: u64, msg: &ExecuteMsg) -> (ok: bool)
        ensures
            ok == self@.admits(now, *msg),
    {
        match msg {
            ExecuteMsg::SubmitNFT { .. } => self.config.current_submission_id < u64::MAX
                && deadline_fits(now, self.config.submission_vote_period),
            ExecuteMsg::VoteToCurate { .. } => self.auction.is_some() || deadline_fits(
                now,
                self.config.auction_period,
            ),
            ExecuteMsg::Bid {  } => true,
            ExecuteMsg::ConcludeAuction {  } => {
                if self.pending_auctions.len() > 0 && !deadline_fits(
                    now,
                    self.config.auction_period,
                ) {
                    return false;
                }
                match &self.auction {
                    Some(live) => live.highest_bid.amount == 0
                        || self.config.memecoin_denom.is_none()
                        || live.checked_bid_total().is_some(),
                    None => true,
                }
            },
            ExecuteMsg::MigrateMinter { .. } => false,
            ExecuteMsg::UpdateConfig { .. } => false,
        }
    }
}

} // verus!
