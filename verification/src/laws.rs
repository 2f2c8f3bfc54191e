//! What holds of the transitions together: invariants, and laws over runs of
//! calls, of bids and of votes.

use vstd::prelude::*;
use crate::contracts::{initial_state, is_core, Oracle};
use crate::curation::pass_count;
use crate::error::ContractError;
use crate::math::{lemma_ratio_bound, lemma_share_bound, share_of};
use crate::msgs::{CoinView, ExecuteMsg};
use crate::response::{CurationOutcome, InstructionView, ResponseView};
use crate::settlement::{
    bidder_rewards, bidders, curator_rewards, distribution_amount, lemma_bidders,
    lemma_staked_bound, staked_by,
};
use crate::state::{
    bid_total, lemma_bid_total_prefix, AuctionView, BidView, StateView, SubmissionItemView,
};

verus! {

/// What a list of instructions transfers in all.
pub open spec fn transfer_total(msgs: Seq<InstructionView>) -> int
    decreases msgs.len(),
{
    if msgs.len() == 0 {
        0
    } else {
        transfer_total(msgs.drop_last()) + match msgs.last() {
            InstructionView::Transfer { amount, .. } => amount as int,
            _ => 0,
        }
    }
}

/// What the listed bidders have staked in all.
pub open spec fn staked_sum(bids: Seq<BidView>, who: Seq<Seq<char>>) -> int
    decreases who.len(),
{
    if who.len() == 0 {
        0
    } else {
        staked_sum(bids, who.drop_last()) + staked_by(bids, who.last())
    }
}

/// One more bid raises what a list of distinct bidders has staked by its
/// amount if its bidder is listed, and by nothing if not.
proof fn lemma_staked_sum_step(bids: Seq<BidView>, who: Seq<Seq<char>>)
    requires
        bids.len() > 0,
        who.no_duplicates(),
    ensures
        staked_sum(bids, who) == staked_sum(bids.drop_last(), who) + if who.contains(
            bids.last().bidder,
        ) {
            bids.last().amount as int
        } else {
            0
        },
    decreases who.len(),
{
    if who.len() > 0 {
        let rest = who.drop_last();
        lemma_staked_sum_step(bids, rest);
        let b = bids.last().bidder;
        if who.last() == b {
            assert(!rest.contains(b)) by {
                if rest.contains(b) {
                    let i = choose|i: int| 0 <= i < rest.len() && rest[i] == b;
                    assert(who[i] == who[who.len() - 1]);
                }
            }
            assert(who[who.len() - 1] == b);
        } else {
            if rest.contains(b) {
                let i = choose|i: int| 0 <= i < rest.len() && rest[i] == b;
                assert(who[i] == b);
            }
            if who.contains(b) {
                let i = choose|i: int| 0 <= i < who.len() && who[i] == b;
                assert(rest[i] == b);
            }
        }
    }
}

/// The bidders' stakes add up to the sum of all bids.
pub proof fn lemma_stakes_sum(bids: Seq<BidView>)
    ensures
        staked_sum(bids, bidders(bids)) == bid_total(bids),
    decreases bids.len(),
{
    if bids.len() > 0 {
        let earlier = bids.drop_last();
        let who = bidders(earlier);
        lemma_stakes_sum(earlier);
        lemma_bidders(earlier);
        lemma_staked_sum_step(bids, who);
        if !who.contains(bids.last().bidder) {
            lemma_staked_bound(earlier, bids.last().bidder);
            assert(bidders(bids).drop_last() =~= who);
        }
    }
}

/// The rewards of the listed bidders, each in proportion to their stake.
spec fn rewards_for(bids: Seq<BidView>, who: Seq<Seq<char>>, pool: u128, denom: Seq<char>) -> Seq<
    InstructionView,
> {
    who.map_values(
        |w: Seq<char>|
            InstructionView::Transfer {
                to_address: w,
                denom,
                amount: share_of(pool as int, staked_by(bids, w), bid_total(bids)) as u128,
            },
    )
}

/// The rewards of any bidders, times the sum of all bids, stay within the
/// pool times what these bidders staked.
proof fn lemma_rewards_for(bids: Seq<BidView>, who: Seq<Seq<char>>, pool: u128, denom: Seq<char>)
    requires
        0 < bid_total(bids),
    ensures
        0 <= transfer_total(rewards_for(bids, who, pool, denom)),
        transfer_total(rewards_for(bids, who, pool, denom)) * bid_total(bids) <= pool * staked_sum(
            bids,
            who,
        ),
    decreases who.len(),
{
    let total = bid_total(bids);
    if who.len() == 0 {
        assert(0 * total == 0) by (nonlinear_arith);
        assert(pool * 0 == 0) by (nonlinear_arith);
    } else {
        let rest = who.drop_last();
        let w = who.last();
        lemma_rewards_for(bids, rest, pool, denom);
        assert(rewards_for(bids, who, pool, denom).drop_last() =~= rewards_for(
            bids,
            rest,
            pool,
            denom,
        ));
        lemma_staked_bound(bids, w);
        lemma_share_bound(pool as int, staked_by(bids, w), total);
        let share = share_of(pool as int, staked_by(bids, w), total);
        let before = transfer_total(rewards_for(bids, rest, pool, denom));
        assert(transfer_total(rewards_for(bids, who, pool, denom)) == before + share);
        assert((before + share) * total <= pool * (staked_sum(bids, rest) + staked_by(bids, w)))
            by (nonlinear_arith)
            requires
                before * total <= pool * staked_sum(bids, rest),
                share * total <= pool * staked_by(bids, w),
        ;
    }
}

/// Rounding down never overpays the bidders: what they receive of the reward
/// asset adds up to no more than the pool.
pub proof fn law_bidder_rewards_within_pool(bids: Seq<BidView>, pool: u128, denom: Seq<char>)
    requires
        bids.len() > 0 ==> 0 < bid_total(bids),
        bid_total(bids) <= u128::MAX,
    ensures
        0 <= transfer_total(bidder_rewards(bids, pool, denom)) <= pool,
{
    let who = bidders(bids);
    let total = bid_total(bids);
    if bids.len() == 0 {
        assert(bidder_rewards(bids, pool, denom) =~= Seq::empty());
    } else {
        assert forall|i: int| 0 <= i < who.len() implies #[trigger] bidder_rewards(
            bids,
            pool,
            denom,
        )[i] == rewards_for(bids, who, pool, denom)[i] by {
            lemma_staked_bound(bids, who[i]);
            lemma_ratio_bound(staked_by(bids, who[i]), total);
        }
        assert(bidder_rewards(bids, pool, denom) =~= rewards_for(bids, who, pool, denom));
        lemma_rewards_for(bids, who, pool, denom);
        lemma_stakes_sum(bids);
        let paid = transfer_total(bidder_rewards(bids, pool, denom));
        assert(paid <= pool) by (nonlinear_arith)
            requires
                paid * total <= pool * total,
                0 < total,
        ;
    }
}

/// What `count` equal transfers of `amount` come to.
proof fn lemma_equal_transfers(msgs: Seq<InstructionView>, amount: u128)
    requires
        forall|i: int|
            0 <= i < msgs.len() ==> (#[trigger] msgs[i] matches InstructionView::Transfer {
                amount: a,
                ..
            } && a == amount),
    ensures
        transfer_total(msgs) == msgs.len() * amount,
    decreases msgs.len(),
{
    if msgs.len() == 0 {
        assert(0 * amount == 0) by (nonlinear_arith);
    } else {
        lemma_equal_transfers(msgs.drop_last(), amount);
        assert(msgs[msgs.len() - 1] matches InstructionView::Transfer { amount: a, .. } && a
            == amount);
        let n = msgs.len() as int;
        assert((n - 1) * amount + amount == n * amount) by (nonlinear_arith);
    }
}

/// Rounding down never overpays the curators: what they receive of the reward
/// asset adds up to no more than the pool.
pub proof fn law_curator_rewards_within_pool(
    curators: Seq<Seq<char>>,
    pool: u128,
    denom: Seq<char>,
)
    ensures
        0 <= transfer_total(curator_rewards(curators, pool, denom)) <= pool,
{
    let rewards = curator_rewards(curators, pool, denom);
    let count = curators.len() as int;
    if count == 0 {
        assert(rewards =~= Seq::empty());
    } else {
        lemma_share_bound(pool as int, 1, count);
        let share = share_of(pool as int, 1, count);
        lemma_equal_transfers(rewards, share as u128);
        assert(share * count == count * share) by (nonlinear_arith);
        assert(0 <= count * share) by (nonlinear_arith)
            requires
                0 <= share,
                0 < count,
        ;
    }
}

/// All rewards of one round, to bidders and curators together, stay within
/// twice the pool; they stay within the pool itself where the curators receive
/// nothing, be it that there are none or that their share rounds down to zero.
pub proof fn law_rewards_within_bounds(
    bids: Seq<BidView>,
    curators: Seq<Seq<char>>,
    pool: u128,
    denom: Seq<char>,
)
    requires
        bids.len() > 0 ==> 0 < bid_total(bids),
        bid_total(bids) <= u128::MAX,
    ensures
        transfer_total(bidder_rewards(bids, pool, denom)) + transfer_total(
            curator_rewards(curators, pool, denom),
        ) <= 2 * pool,
        curators.len() == 0 || share_of(pool as int, 1, curators.len() as int) == 0
            ==> transfer_total(bidder_rewards(bids, pool, denom)) + transfer_total(
            curator_rewards(curators, pool, denom),
        ) <= pool,
{
    law_bidder_rewards_within_pool(bids, pool, denom);
    law_curator_rewards_within_pool(curators, pool, denom);
    if curators.len() == 0 {
        assert(curator_rewards(curators, pool, denom) =~= Seq::empty());
    } else if share_of(pool as int, 1, curators.len() as int) == 0 {
        lemma_equal_transfers(curator_rewards(curators, pool, denom), 0);
        assert(curators.len() * 0 == 0) by (nonlinear_arith);
    }
}

/// At the conclusion of a well-formed auction on which a bid above zero
/// stands, neither the bidders nor the curators receive more of the reward
/// asset than the round's pool, and the pool is no more than what is configured.
pub proof fn law_conclusion_never_overpays(
    auction: AuctionView,
    configured: u128,
    reward_balance: Option<u128>,
    denom: Seq<char>,
)
    requires
        auction.wf(),
        auction.highest_bid.amount > 0,
        bid_total(auction.bids) <= u128::MAX,
    ensures
        ({
            let pool = distribution_amount(configured, reward_balance);
            &&& pool <= configured
            &&& transfer_total(bidder_rewards(auction.bids, pool, denom)) <= pool
            &&& transfer_total(
                curator_rewards(auction.submission_info.curation_votes, pool, denom),
            ) <= pool
        }),
{
    let pool = distribution_amount(configured, reward_balance);
    lemma_bid_total_prefix(auction.bids, 0);
    law_bidder_rewards_within_pool(auction.bids, pool, denom);
    law_curator_rewards_within_pool(auction.submission_info.curation_votes, pool, denom);
}

/// The refund of a displaced bid: the whole amount, back to its bidder.
pub open spec fn refund_of(bid: BidView, denom: Seq<char>) -> InstructionView {
    InstructionView::Transfer { to_address: bid.bidder, denom, amount: bid.amount }
}

impl AuctionView {
    /// The ledger after a run of attempted bids: each one is taken or turned away.
    pub open spec fn after_bids(self, attempts: Seq<BidView>) -> AuctionView
        decreases attempts.len(),
    {
        if attempts.len() == 0 {
            self
        } else {
            let earlier = self.after_bids(attempts.drop_last());
            if earlier.accepts(attempts.last()) {
                earlier.with_bid(attempts.last())
            } else {
                earlier
            }
        }
    }

    /// The refunds that a run of attempted bids sets off, in order.
    pub open spec fn refunds_after(self, attempts: Seq<BidView>, denom: Seq<char>) -> Seq<
        InstructionView,
    >
        decreases attempts.len(),
    {
        if attempts.len() == 0 {
            Seq::empty()
        } else {
            let earlier = self.after_bids(attempts.drop_last());
            self.refunds_after(attempts.drop_last(), denom) + if earlier.accepts(attempts.last()) {
                earlier.refund(denom)
            } else {
                Seq::empty()
            }
        }
    }

    /// The bids that have been outbid: all but the last.
    pub open spec fn displaced(self) -> Seq<BidView> {
        if self.bids.len() == 0 {
            Seq::empty()
        } else {
            self.bids.drop_last()
        }
    }
}

/// Whatever bids are attempted, the ledger stays well formed, its highest bid
/// is the bid of the greatest amount among those taken, and no attempt
/// exceeds it.
pub proof fn law_highest_bid_is_maximum(start: AuctionView, attempts: Seq<BidView>)
    requires
        start.wf(),
    ensures
        ({
            let ledger = start.after_bids(attempts);
            &&& ledger.wf()
            &&& ledger.bids.len() >= start.bids.len()
            &&& forall|i: int|
                0 <= i < ledger.bids.len() ==> (#[trigger] ledger.bids[i]).amount
                    <= ledger.highest_bid.amount
            &&& ledger.bids.len() > 0 ==> ledger.highest_bid == ledger.bids.last()
            &&& forall|k: int|
                0 <= k < attempts.len() ==> (#[trigger] attempts[k]).amount
                    <= ledger.highest_bid.amount
        }),
    decreases attempts.len(),
{
    if attempts.len() > 0 {
        law_highest_bid_is_maximum(start, attempts.drop_last());
        let earlier = start.after_bids(attempts.drop_last());
        let ledger = start.after_bids(attempts);
        assert forall|k: int| 0 <= k < attempts.len() implies (#[trigger] attempts[k]).amount
            <= ledger.highest_bid.amount by {
            if k < attempts.len() - 1 {
                assert(attempts.drop_last()[k] == attempts[k]);
            }
        }
    }
}

/// The refunds of a list of displaced bids, in order.
pub open spec fn refunds_of(bids: Seq<BidView>, denom: Seq<char>) -> Seq<InstructionView> {
    bids.map_values(|b: BidView| refund_of(b, denom))
}

/// Every bid that is outbid is refunded exactly once, in full: the refunds set
/// off by a run of attempts are, in order, those of the bids that the run
/// displaced.
pub proof fn law_displaced_bids_are_refunded(
    start: AuctionView,
    attempts: Seq<BidView>,
    denom: Seq<char>,
)
    requires
        start.wf(),
    ensures
        refunds_of(start.displaced(), denom) + start.refunds_after(attempts, denom) == refunds_of(
            start.after_bids(attempts).displaced(),
            denom,
        ),
    decreases attempts.len(),
{
    let ledger = start.after_bids(attempts);
    if attempts.len() == 0 {
        assert(refunds_of(start.displaced(), denom) + start.refunds_after(attempts, denom)
            =~= refunds_of(ledger.displaced(), denom));
    } else {
        law_displaced_bids_are_refunded(start, attempts.drop_last(), denom);
        law_highest_bid_is_maximum(start, attempts.drop_last());
        let earlier = start.after_bids(attempts.drop_last());
        let refunded = start.refunds_after(attempts.drop_last(), denom);
        if earlier.accepts(attempts.last()) && earlier.bids.len() > 0 {
            assert(ledger.bids.drop_last() =~= earlier.bids);
            assert(earlier.bids =~= earlier.displaced().push(earlier.highest_bid));
            assert(refunds_of(ledger.displaced(), denom) =~= refunds_of(
                earlier.displaced(),
                denom,
            ).push(refund_of(earlier.highest_bid, denom)));
            assert(start.refunds_after(attempts, denom) =~= refunded.push(
                refund_of(earlier.highest_bid, denom),
            ));
        } else {
            assert(ledger.displaced() =~= earlier.displaced());
            assert(start.refunds_after(attempts, denom) =~= refunded);
        }
        assert(refunds_of(start.displaced(), denom) + start.refunds_after(attempts, denom)
            =~= refunds_of(ledger.displaced(), denom));
    }
}

/// Once a bid stands, a bid at or below the highest is turned away and the
/// state stays as it was, however often it is tried.
pub proof fn law_low_bid_changes_nothing(
    s: StateView,
    now: u64,
    sender: Seq<char>,
    funds: Seq<CoinView>,
)
    requires
        s.auction matches Some(live) && live.bids.len() > 0 && funds.len() == 1
            && funds[0].amount <= live.highest_bid.amount,
    ensures
        s.bid(now, sender, funds).0 == s,
        s.bid(now, sender, funds).1 is Err,
        funds[0].denom == s.config.bid_denom && now <= s.auction->Some_0.auction_end_time
            ==> s.bid(now, sender, funds).1 == Err::<ResponseView, ContractError>(
            ContractError::BidTooLow,
        ),
{
}

/// A vote by someone who has not voted on it removes a submission whose
/// voting window has closed below the threshold, and the count of pending
/// submissions falls by exactly one; nothing else changes.
pub proof fn law_expired_submission_is_removed(
    s: StateView,
    id: u64,
    voter: Seq<char>,
    vote: bool,
    now: u64,
    total_tokens: u64,
)
    requires
        s.wf(),
        s.submissions.contains_key(id),
        !s.submissions[id].curation_votes.contains(voter),
        now > s.submissions[id].submission_end_time,
        s.submissions[id].curation_votes.len() < pass_count(
            total_tokens,
            s.config.curation_threshold,
        ),
    ensures
        ({
            let after = s.curate(id, voter, vote, now, total_tokens);
            &&& after.1 == CurationOutcome::Expired
            &&& !after.0.submissions.contains_key(id)
            &&& after.0.submissions == s.submissions.remove(id)
            &&& after.0.config.submission_total == s.config.submission_total - 1
            &&& after.0.submissions.dom().len() == s.submissions.dom().len() - 1
            &&& after.0.auction == s.auction
            &&& after.0.pending_auctions == s.pending_auctions
            &&& after.0.wf()
        }),
{
    assert(s.config.submission_total >= 1);
}

/// The auction that an accepted submission starts as: the live auction of
/// `after` where the live slot of `before` was free, else the one queued last
/// in `after`.
pub open spec fn promoted(before: StateView, after: StateView) -> AuctionView {
    if before.auction is None {
        after.auction->Some_0
    } else {
        after.pending_auctions.last()
    }
}

/// The auction that an accepted submission starts as carries the submission
/// as it stood at that moment: its artwork and recipient untouched, its
/// curators those who had voted followed by the one whose vote carried it.
/// It starts without bids.
pub proof fn law_promotion_preserves_submission(
    s: StateView,
    id: u64,
    voter: Seq<char>,
    vote: bool,
    now: u64,
    total_tokens: u64,
)
    requires
        s.wf(),
        s.curate(id, voter, vote, now, total_tokens).1 == CurationOutcome::Accepted,
    ensures
        ({
            let after = s.curate(id, voter, vote, now, total_tokens).0;
            let auction = promoted(s, after);
            &&& s.submissions.contains_key(id)
            &&& s.auction is None ==> after.auction is Some && after.pending_auctions
                == s.pending_auctions
            &&& s.auction is Some ==> after.auction == s.auction && after.pending_auctions.len()
                == s.pending_auctions.len() + 1
            &&& auction.submission_info.submission == s.submissions[id].submission
            &&& auction.submission_info.curation_votes == s.submissions[id].curation_votes.push(
                voter,
            )
            &&& auction.submission_info.submission_end_time
                == s.submissions[id].submission_end_time
            &&& auction.bids.len() == 0
        }),
{
}

impl StateView {
    /// The identifier has been handed out and its submission has left the registry.
    pub open spec fn retired(self, id: u64) -> bool {
        id < self.config.current_submission_id && !self.submissions.contains_key(id)
    }
}

/// One call with all that the host hands over.
pub struct Call {
    pub now: u64,
    pub sender: Seq<char>,
    pub funds: Seq<CoinView>,
    pub oracle: Oracle,
    pub msg: ExecuteMsg,
}

impl StateView {
    /// The state after one call.
    pub open spec fn after_call(self, call: Call) -> StateView {
        self.execute(call.now, call.sender, call.funds, call.oracle, call.msg).0
    }

    /// The state after a run of calls.
    pub open spec fn after_calls(self, calls: Seq<Call>) -> StateView
        decreases calls.len(),
    {
        if calls.len() == 0 {
            self
        } else {
            self.after_calls(calls.drop_last()).after_call(calls.last())
        }
    }

    /// Whether each call of a run is admitted in the state that it meets.
    pub open spec fn admits_all(self, calls: Seq<Call>) -> bool
        decreases calls.len(),
    {
        calls.len() == 0 || (self.admits_all(calls.drop_last()) && self.after_calls(
            calls.drop_last(),
        ).admits(calls.last().now, calls.last().msg))
    }
}

/// A vote keeps a well-formed state well formed.
pub proof fn lemma_curate_keeps_well_formed(
    s: StateView,
    id: u64,
    voter: Seq<char>,
    vote: bool,
    now: u64,
    total_tokens: u64,
)
    requires
        s.wf(),
    ensures
        s.curate(id, voter, vote, now, total_tokens).0.wf(),
        s.curate(id, voter, vote, now, total_tokens).0.config.current_submission_id
            == s.config.current_submission_id,
        s.curation_in_range(now) ==> s.curate(
            id,
            voter,
            vote,
            now,
            total_tokens,
        ).0.curation_in_range(now),
        forall|other: u64|
            s.retired(other) ==> s.curate(id, voter, vote, now, total_tokens).0.retired(other),
{
    let after = s.curate(id, voter, vote, now, total_tokens);
    if s.submissions.contains_key(id) {
        assert(s.config.submission_total >= 1);
        let item = s.submissions[id];
        if after.1 == CurationOutcome::Recorded {
            assert(after.0.submissions.dom() =~= s.submissions.dom());
        }
    }
}

/// A batch of votes keeps a well-formed state well formed, and keeps out of
/// the registry what had left it.
pub proof fn lemma_curate_all_keeps_well_formed(
    s: StateView,
    ids: Seq<u64>,
    voter: Seq<char>,
    vote: bool,
    now: u64,
    total_tokens: u64,
)
    requires
        s.wf(),
    ensures
        s.curate_all(ids, voter, vote, now, total_tokens).0.wf(),
        s.curate_all(ids, voter, vote, now, total_tokens).1.len() == ids.len(),
        forall|other: u64|
            s.retired(other) ==> s.curate_all(ids, voter, vote, now, total_tokens).0.retired(
                other,
            ),
    decreases ids.len(),
{
    if ids.len() > 0 {
        lemma_curate_all_keeps_well_formed(s, ids.drop_last(), voter, vote, now, total_tokens);
        let earlier = s.curate_all(ids.drop_last(), voter, vote, now, total_tokens).0;
        lemma_curate_keeps_well_formed(earlier, ids.last(), voter, vote, now, total_tokens);
    }
}

/// The pipeline starts in a well-formed state.
pub proof fn law_initial_state_is_well_formed(
    now: u64,
    sender: Seq<char>,
    bid_denom: Seq<char>,
    memecoin_denom: Option<Seq<char>>,
    first_submission: SubmissionItemView,
    mint_cost: u128,
)
    requires
        first_submission.wf(),
    ensures
        initial_state(now, sender, bid_denom, memecoin_denom, first_submission, mint_cost).wf(),
{
    let s = initial_state(now, sender, bid_denom, memecoin_denom, first_submission, mint_cost);
    assert(s.submissions.dom() =~= Set::empty());
}

/// Every call that the pipeline admits keeps a well-formed state well formed.
pub proof fn law_calls_keep_state_well_formed(s: StateView, call: Call)
    requires
        s.wf(),
        s.admits(call.now, call.msg),
    ensures
        s.after_call(call).wf(),
{
    match call.msg {
        ExecuteMsg::SubmitNFT { submitter, proceed_recipient, token_uri } => {},
        ExecuteMsg::VoteToCurate { submission_ids, vote } => {
            lemma_curate_all_keeps_well_formed(
                s,
                submission_ids@,
                call.sender,
                vote,
                call.now,
                call.oracle.total_tokens,
            );
        },
        ExecuteMsg::Bid {  } => {},
        ExecuteMsg::ConcludeAuction {  } => {},
        _ => {},
    }
}

/// A call that is refused leaves the state as it was.
pub proof fn law_refused_call_changes_nothing(s: StateView, call: Call)
    requires
        is_core(call.msg),
        s.execute(call.now, call.sender, call.funds, call.oracle, call.msg).1 is Err,
    ensures
        s.after_call(call) == s,
{
}

/// A vote that carries a submission takes it out of the registry.
pub proof fn law_accepted_submission_is_retired(
    s: StateView,
    id: u64,
    voter: Seq<char>,
    vote: bool,
    now: u64,
    total_tokens: u64,
)
    requires
        s.wf(),
        s.curate(id, voter, vote, now, total_tokens).1 == CurationOutcome::Accepted,
    ensures
        s.curate(id, voter, vote, now, total_tokens).0.retired(id),
{
}

/// Each submission that a batch of votes accepts is out of the registry when
/// the batch is done.
pub proof fn law_batch_retires_what_it_accepts(
    s: StateView,
    ids: Seq<u64>,
    voter: Seq<char>,
    vote: bool,
    now: u64,
    total_tokens: u64,
)
    requires
        s.wf(),
    ensures
        ({
            let done = s.curate_all(ids, voter, vote, now, total_tokens);
            &&& done.1.len() == ids.len()
            &&& forall|k: int|
                0 <= k < ids.len() && done.1[k] == CurationOutcome::Accepted
                    ==> done.0.retired(#[trigger] ids[k])
        }),
    decreases ids.len(),
{
    if ids.len() > 0 {
        let earlier = s.curate_all(ids.drop_last(), voter, vote, now, total_tokens);
        let done = s.curate_all(ids, voter, vote, now, total_tokens);
        law_batch_retires_what_it_accepts(s, ids.drop_last(), voter, vote, now, total_tokens);
        lemma_curate_all_keeps_well_formed(s, ids.drop_last(), voter, vote, now, total_tokens);
        lemma_curate_keeps_well_formed(earlier.0, ids.last(), voter, vote, now, total_tokens);
        assert forall|k: int|
            0 <= k < ids.len() && done.1[k] == CurationOutcome::Accepted implies done.0.retired(
            #[trigger] ids[k],
        ) by {
            if k < ids.len() - 1 {
                assert(ids.drop_last()[k] == ids[k]);
                assert(earlier.1[k] == done.1[k]);
                assert(earlier.0.retired(ids[k]));
            }
        }
    }
}

/// No call puts back into the registry what has left it.
pub proof fn law_retired_submission_stays_out(s: StateView, id: u64, call: Call)
    requires
        s.retired(id),
        s.admits(call.now, call.msg),
    ensures
        s.after_call(call).retired(id),
{
    match call.msg {
        ExecuteMsg::VoteToCurate { submission_ids, vote } => {
            lemma_curate_all_retired(
                s,
                id,
                submission_ids@,
                call.sender,
                vote,
                call.now,
                call.oracle.total_tokens,
            );
        },
        _ => {},
    }
}

proof fn lemma_curate_all_retired(
    s: StateView,
    id: u64,
    ids: Seq<u64>,
    voter: Seq<char>,
    vote: bool,
    now: u64,
    total_tokens: u64,
)
    requires
        s.retired(id),
    ensures
        s.curate_all(ids, voter, vote, now, total_tokens).0.retired(id),
    decreases ids.len(),
{
    if ids.len() > 0 {
        lemma_curate_all_retired(s, id, ids.drop_last(), voter, vote, now, total_tokens);
    }
}

/// What has left the registry stays out of it through any run of calls.
pub proof fn law_accepted_submission_never_returns(s: StateView, id: u64, calls: Seq<Call>)
    requires
        s.retired(id),
        s.admits_all(calls),
    ensures
        s.after_calls(calls).retired(id),
        !s.after_calls(calls).submissions.contains_key(id),
    decreases calls.len(),
{
    if calls.len() > 0 {
        law_accepted_submission_never_returns(s, id, calls.drop_last());
        law_retired_submission_stays_out(s.after_calls(calls.drop_last()), id, calls.last());
    }
}

/// Promotion is destructive for good: from the vote that carries a
/// submission on, whatever calls follow, the registry never holds its
/// identifier again.
pub proof fn law_promotion_is_destructive(
    s: StateView,
    id: u64,
    voter: Seq<char>,
    vote: bool,
    now: u64,
    total_tokens: u64,
    calls: Seq<Call>,
)
    requires
        s.wf(),
        s.curate(id, voter, vote, now, total_tokens).1 == CurationOutcome::Accepted,
        s.curate(id, voter, vote, now, total_tokens).0.admits_all(calls),
    ensures
        !s.curate(id, voter, vote, now, total_tokens).0.after_calls(calls).submissions.contains_key(
            id,
        ),
{
    law_accepted_submission_is_retired(s, id, voter, vote, now, total_tokens);
    law_accepted_submission_never_returns(
        s.curate(id, voter, vote, now, total_tokens).0,
        id,
        calls,
    );
}

} // verus!
