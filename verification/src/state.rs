//! What the pipeline keeps between calls, its mathematical view, and when it is
//! well formed.

use vstd::prelude::*;
use crate::msgs::{Config, ConfigView};

verus! {

/// One offer on the live auction.
#[derive(Clone, Debug, PartialEq, Eq)]
pub struct Bid {
    pub bidder: String,
    pub amount: u128,
}

/// Tally of votes for and against.
#[derive(Clone, Copy, Debug, PartialEq, Eq, Structural)]
pub struct Votes {
    pub yes: u64,
    pub no: u64,
}

/// A candidate artwork: who submitted it, who receives the proceeds, and where it lives.
#[derive(Clone, Debug, PartialEq, Eq)]
pub struct SubmissionInfo {
    pub submitter: String,
    pub proceed_recipient: String,
    pub token_uri: String,
}

/// A submission under curation: the votes cast for it and the end of its voting window.
#[derive(Clone, Debug, PartialEq, Eq)]
pub struct SubmissionItem {
    pub submission: SubmissionInfo,
    pub curation_votes: Vec<String>,
    /// In seconds.
    pub submission_end_time: u64,
}

/// An accepted submission with its bid history.
#[derive(Clone, Debug, PartialEq, Eq)]
pub struct Auction {
    pub submission_info: SubmissionItem,
    pub bids: Vec<Bid>,
    pub highest_bid: Bid,
    /// In seconds; zero while the auction waits in the queue.
    pub auction_end_time: u64,
}

/// A pending submission under its identifier.
#[derive(Clone, Debug, PartialEq, Eq)]
pub struct Registered {
    pub id: u64,
    pub item: SubmissionItem,
}

/// Everything the pipeline keeps between calls.
#[derive(Clone, Debug, PartialEq, Eq)]
pub struct State {
    pub config: Config,
    /// The pending submissions, by rising identifier.
    pub submissions: Vec<Registered>,
    /// The live auction, if there is one.
    pub auction: Option<Auction>,
    /// Accepted submissions that wait for the live slot; the last one goes live next.
    pub pending_auctions: Vec<Auction>,
}

/// What a [`Bid`] stands for in contracts.
#[verifier::ext_equal]
pub struct BidView {
    pub bidder: Seq<char>,
    pub amount: u128,
}

/// What a [`SubmissionInfo`] stands for in contracts.
#[verifier::ext_equal]
pub struct SubmissionInfoView {
    pub submitter: Seq<char>,
    pub proceed_recipient: Seq<char>,
    pub token_uri: Seq<char>,
}

/// What a [`SubmissionItem`] stands for in contracts.
#[verifier::ext_equal]
pub struct SubmissionItemView {
    pub submission: SubmissionInfoView,
    pub curation_votes: Seq<Seq<char>>,
    pub submission_end_time: u64,
}

/// What an [`Auction`] stands for in contracts.
#[verifier::ext_equal]
pub struct AuctionView {
    pub submission_info: SubmissionItemView,
    pub bids: Seq<BidView>,
    pub highest_bid: BidView,
    pub auction_end_time: u64,
}

impl View for Bid {
    type V = BidView;

    open spec fn view(&self) -> BidView {
        BidView { bidder: self.bidder@, amount: self.amount }
    }
}

impl View for SubmissionInfo {
    type V = SubmissionInfoView;

    open spec fn view(&self) -> SubmissionInfoView {
        SubmissionInfoView {
            submitter: self.submitter@,
            proceed_recipient: self.proceed_recipient@,
            token_uri: self.token_uri@,
        }
    }
}

impl View for SubmissionItem {
    type V = SubmissionItemView;

    open spec fn view(&self) -> SubmissionItemView {
        SubmissionItemView {
            submission: self.submission@,
            curation_votes: names_view(self.curation_votes@),
            submission_end_time: self.submission_end_time,
        }
    }
}

impl View for Auction {
    type V = AuctionView;

    open spec fn view(&self) -> AuctionView {
        AuctionView {
            submission_info: self.submission_info@,
            bids: bids_view(self.bids@),
            highest_bid: self.highest_bid@,
            auction_end_time: self.auction_end_time,
        }
    }
}

/// What a [`State`] stands for in contracts.
#[verifier::ext_equal]
pub struct StateView {
    pub config: ConfigView,
    pub submissions: Map<u64, SubmissionItemView>,
    pub auction: Option<AuctionView>,
    pub pending_auctions: Seq<AuctionView>,
}

impl View for State {
    type V = StateView;

    open spec fn view(&self) -> StateView {
        StateView {
            config: self.config@,
            submissions: registry_view(self.submissions@),
            auction: match self.auction {
                Some(a) => Some(a@),
                None => None,
            },
            pending_auctions: auctions_view(self.pending_auctions@),
        }
    }
}

/// The registry as a map from identifier to submission.
pub open spec fn registry_view(entries: Seq<Registered>) -> Map<u64, SubmissionItemView>
    decreases entries.len(),
{
    if entries.len() == 0 {
        Map::empty()
    } else {
        registry_view(entries.drop_last()).insert(entries.last().id, entries.last().item@)
    }
}

/// Identifiers rise strictly along the registry.
pub open spec fn ids_rise(entries: Seq<Registered>) -> bool {
    forall|i: int, j: int| 0 <= i < j < entries.len() ==> entries[i].id < entries[j].id
}

/// The texts of a list of addresses.
pub open spec fn names_view(names: Seq<String>) -> Seq<Seq<char>> {
    names.map_values(|n: String| n@)
}

/// What a bid history stands for in contracts.
pub open spec fn bids_view(bids: Seq<Bid>) -> Seq<BidView> {
    bids.map_values(|b: Bid| b@)
}

/// What a sequence of auctions stands for in contracts.
pub open spec fn auctions_view(auctions: Seq<Auction>) -> Seq<AuctionView> {
    auctions.map_values(|a: Auction| a@)
}

/// The entry that stands for "no bid yet": nobody, offering nothing.
pub open spec fn no_bid() -> BidView {
    BidView { bidder: Seq::empty(), amount: 0 }
}

/// Sum of the amounts of a bid history.
pub open spec fn bid_total(bids: Seq<BidView>) -> int
    decreases bids.len(),
{
    if bids.len() == 0 {
        0
    } else {
        bid_total(bids.drop_last()) + bids.last().amount
    }
}

impl SubmissionItemView {
    /// Nobody has voted twice.
    pub open spec fn wf(self) -> bool {
        self.curation_votes.no_duplicates()
    }
}

impl AuctionView {
    /// Amounts rise strictly along the history, and the cached highest bid is its
    /// last entry, or the no-bid entry while the history is empty.
    pub open spec fn wf(self) -> bool {
        &&& self.submission_info.wf()
        &&& forall|i: int, j: int|
            0 <= i < j < self.bids.len() ==> self.bids[i].amount < self.bids[j].amount
        &&& self.highest_bid == if self.bids.len() == 0 {
            no_bid()
        } else {
            self.bids.last()
        }
    }

    /// The auction that a just-accepted submission starts as.
    pub open spec fn opening(item: SubmissionItemView, end_time: u64) -> AuctionView {
        AuctionView {
            submission_info: item,
            bids: Seq::empty(),
            highest_bid: no_bid(),
            auction_end_time: end_time,
        }
    }
}

impl StateView {
    /// The pending-total counter counts the registry; every identifier in the
    /// registry was handed out by the counter; and each submission and auction
    /// is well formed.
    pub open spec fn wf(self) -> bool {
        &&& self.submissions.dom().finite()
        &&& self.config.submission_total == self.submissions.dom().len()
        &&& forall|id: u64| #[trigger]
            self.submissions.contains_key(id) ==> id < self.config.current_submission_id
                && self.submissions[id].wf()
        &&& (self.auction matches Some(a) ==> a.wf())
        &&& forall|i: int|
            0 <= i < self.pending_auctions.len() ==> (#[trigger] self.pending_auctions[i]).wf()
    }
}

impl State {
    /// The view is well formed and the registry is kept by rising identifier.
    pub open spec fn wf(&self) -> bool {
        &&& self@.wf()
        &&& ids_rise(self.submissions@)
    }
}

/// The last step of a prefix.
pub proof fn lemma_take_step<A>(s: Seq<A>, k: int)
    requires
        0 <= k < s.len(),
    ensures
        s.take(k + 1).drop_last() == s.take(k),
        s.take(k + 1).last() == s[k],
        s.take(k + 1).len() == k + 1,
{
    assert(s.take(k + 1).drop_last() =~= s.take(k));
}

/// A history sums to at least each of its prefixes, and to at least its last bid.
pub proof fn lemma_bid_total_prefix(bids: Seq<BidView>, k: int)
    requires
        0 <= k <= bids.len(),
    ensures
        0 <= bid_total(bids.take(k)) <= bid_total(bids),
        bids.len() > 0 ==> bids.last().amount <= bid_total(bids),
    decreases bids.len(),
{
    if bids.len() == 0 {
        assert(bids.take(k) =~= bids);
    } else if k == bids.len() {
        assert(bids.take(k) =~= bids);
        lemma_bid_total_prefix(bids.drop_last(), k - 1);
    } else {
        lemma_bid_total_prefix(bids.drop_last(), k);
        assert(bids.drop_last().take(k) =~= bids.take(k));
    }
}

} // verus!
