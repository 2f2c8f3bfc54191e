//! Settlement: what the conclusion of an auction mints and pays.

use vstd::prelude::*;
use crate::error::ContractError;
use crate::math::{
    lemma_mul_floor_bound, lemma_ratio_bound, mul_floor, mul_floor_spec, ratio_atomics, share_of,
    Decimal, DECIMAL_FRACTIONAL,
};
use crate::msgs::{Coin, CoinView, ConfigView};
use crate::response::{
    instructions_view, result_view, Event, EventView, Instruction, InstructionView, Response,
    ResponseView,
};
use crate::state::{
    bid_total, bids_view, lemma_bid_total_prefix, lemma_take_step, names_view, AuctionView, Bid,
    BidView, State, StateView,
};

verus! {

/// Sum of the bids that `who` placed.
pub open spec fn staked_by(bids: Seq<BidView>, who: Seq<char>) -> int
    decreases bids.len(),
{
    if bids.len() == 0 {
        0
    } else {
        staked_by(bids.drop_last(), who) + if bids.last().bidder == who {
            bids.last().amount as int
        } else {
            0
        }
    }
}

/// The bidders, each once, in the order of their first bids.
pub open spec fn bidders(bids: Seq<BidView>) -> Seq<Seq<char>>
    decreases bids.len(),
{
    if bids.len() == 0 {
        Seq::empty()
    } else {
        let earlier = bidders(bids.drop_last());
        if earlier.contains(bids.last().bidder) {
            earlier
        } else {
            earlier.push(bids.last().bidder)
        }
    }
}

/// Each bidder with the share of all bids that is theirs, as a ratio rounded
/// down to eighteen digits.
pub open spec fn bid_ratios(bids: Seq<BidView>) -> Seq<(Seq<char>, Decimal)> {
    bidders(bids).map_values(
        |who: Seq<char>|
            (
                who,
                Decimal { atomics: ratio_atomics(staked_by(bids, who), bid_total(bids)) as u128 },
            ),
    )
}

/// What a list of bidders with their ratios stands for in contracts.
pub open spec fn ratios_view(ratios: Seq<(String, Decimal)>) -> Seq<(Seq<char>, Decimal)> {
    ratios.map_values(|e: (String, Decimal)| (e.0@, e.1))
}

/// What one round hands out of the reward asset: the configured amount, but no
/// more than half of what is held; the configured amount where the holdings
/// are unknown.
pub open spec fn distribution_amount(configured: u128, balance: Option<u128>) -> u128 {
    match balance {
        Some(held) => if held / 2 < configured {
            held / 2
        } else {
            configured
        },
        None => configured,
    }
}

/// One transfer of the reward asset per bidder, in proportion to their bids.
pub open spec fn bidder_rewards(bids: Seq<BidView>, pool: u128, denom: Seq<char>) -> Seq<
    InstructionView,
> {
    bid_ratios(bids).map_values(
        |e: (Seq<char>, Decimal)|
            InstructionView::Transfer {
                to_address: e.0,
                denom,
                amount: mul_floor_spec(pool as int, e.1.atomics as int) as u128,
            },
    )
}

/// One transfer of the reward asset per curator, the same amount to each.
pub open spec fn curator_rewards(curators: Seq<Seq<char>>, pool: u128, denom: Seq<char>) -> Seq<
    InstructionView,
> {
    curators.map_values(
        |who: Seq<char>|
            InstructionView::Transfer {
                to_address: who,
                denom,
                amount: share_of(pool as int, 1, curators.len() as int) as u128,
            },
    )
}

/// The asset in which the collection takes its mint fee.
pub open spec fn mint_denom() -> Seq<char> {
    "ustars"@
}

/// The instructions that settle an auction, in order: nothing where no bid
/// above zero stands; else the mint to the highest bidder, the proceeds to the
/// artwork's recipient, and, where a reward asset is configured, the rewards
/// of the bidders and then of the curators.
pub open spec fn settlement_messages(
    config: ConfigView,
    auction: AuctionView,
    reward_balance: Option<u128>,
) -> Seq<InstructionView> {
    if auction.highest_bid.amount == 0 {
        Seq::empty()
    } else {
        let mint = InstructionView::Mint {
            minter: config.minter_addr,
            owner: auction.highest_bid.bidder,
            token_id: config.current_token_id,
            token_uri: auction.submission_info.submission.token_uri,
            fee: CoinView { denom: mint_denom(), amount: config.mint_cost },
        };
        let proceeds = InstructionView::Transfer {
            to_address: auction.submission_info.submission.proceed_recipient,
            denom: config.bid_denom,
            amount: auction.highest_bid.amount,
        };
        let rewards = match config.memecoin_denom {
            Some(denom) => {
                let pool = distribution_amount(config.memecoin_distribution_amount, reward_balance);
                bidder_rewards(auction.bids, pool, denom) + curator_rewards(
                    auction.submission_info.curation_votes,
                    pool,
                    denom,
                )
            },
            None => Seq::empty(),
        };
        seq![mint, proceeds] + rewards
    }
}

impl StateView {
    /// A conclusion at `now` stays within the machine's integers: where an
    /// auction is queued, its deadline fits 64 bits; where rewards are due, the
    /// bids of the live auction sum within 128 bits.
    pub open spec fn conclusion_in_range(self, now: u64) -> bool {
        &&& self.pending_auctions.len() > 0 ==> self.config.auction_deadline(now) <= u64::MAX
        &&& self.auction matches Some(a) ==> (a.highest_bid.amount > 0
            && self.config.memecoin_denom is Some ==> bid_total(a.bids) <= u128::MAX)
    }

    /// The state after a call to conclude at `now`, and what the call returns.
    pub open spec fn conclude(self, now: u64, reward_balance: Option<u128>) -> (
        StateView,
        Result<ResponseView, ContractError>,
    ) {
        match self.auction {
            None => (self, Err(ContractError::NotFound)),
            Some(live) => if now < live.auction_end_time {
                (self, Err(ContractError::AuctionStillLive))
            } else {
                (
                    self.activate_next(now),
                    Ok(
                        ResponseView {
                            messages: settlement_messages(self.config, live, reward_balance),
                            event: EventView::Concluded {
                                highest_bidder: live.highest_bid.bidder,
                                highest_bid: live.highest_bid.amount,
                            },
                        },
                    ),
                )
            },
        }
    }
}

/// The list of bidders names exactly those who bid, each once.
pub proof fn lemma_bidders(bids: Seq<BidView>)
    ensures
        bidders(bids).no_duplicates(),
        forall|who: Seq<char>| #[trigger]
            bidders(bids).contains(who) <==> exists|k: int|
                0 <= k < bids.len() && (#[trigger] bids[k]).bidder == who,
    decreases bids.len(),
{
    if bids.len() > 0 {
        let earlier = bids.drop_last();
        let last = bids.last();
        lemma_bidders(earlier);
        assert forall|who: Seq<char>| #[trigger]
            bidders(bids).contains(who) <==> exists|k: int|
                0 <= k < bids.len() && (#[trigger] bids[k]).bidder == who by {
            if bidders(bids).contains(who) {
                if bidders(earlier).contains(who) {
                    let k = choose|k: int|
                        0 <= k < earlier.len() && (#[trigger] earlier[k]).bidder == who;
                    assert(bids[k].bidder == who);
                } else {
                    let i = choose|i: int|
                        0 <= i < bidders(bids).len() && bidders(bids)[i] == who;
                    assert(who == last.bidder);
                    assert(bids[bids.len() - 1].bidder == who);
                }
            }
            if exists|k: int| 0 <= k < bids.len() && (#[trigger] bids[k]).bidder == who {
                let k = choose|k: int| 0 <= k < bids.len() && (#[trigger] bids[k]).bidder == who;
                if k < earlier.len() {
                    assert(earlier[k].bidder == who);
                    assert(bidders(earlier).contains(who));
                    let i = choose|i: int|
                        0 <= i < bidders(earlier).len() && bidders(earlier)[i] == who;
                    assert(bidders(bids)[i] == who);
                } else {
                    assert(who == last.bidder);
                    if !bidders(earlier).contains(who) {
                        assert(bidders(bids)[bidders(earlier).len() as int] == who);
                    } else {
                        let i = choose|i: int|
                            0 <= i < bidders(earlier).len() && bidders(earlier)[i] == who;
                        assert(bidders(bids)[i] == who);
                    }
                }
            }
        }
    }
}

/// Nobody's bids sum to more than all bids, and who is not among the bidders
/// has staked nothing.
pub proof fn lemma_staked_bound(bids: Seq<BidView>, who: Seq<char>)
    ensures
        0 <= staked_by(bids, who) <= bid_total(bids),
        !bidders(bids).contains(who) ==> staked_by(bids, who) == 0,
    decreases bids.len(),
{
    if bids.len() > 0 {
        lemma_staked_bound(bids.drop_last(), who);
        lemma_bidders(bids);
        lemma_bidders(bids.drop_last());
        if !bidders(bids).contains(who) {
            assert(bids[bids.len() - 1].bidder != who);
            if bidders(bids.drop_last()).contains(who) {
                let k = choose|k: int|
                    0 <= k < bids.drop_last().len() && (#[trigger] bids.drop_last()[k]).bidder
                        == who;
                assert(bids[k].bidder == who);
            }
        }
    }
}

/// Where `who` stands in a list of stakes, or the length of the list.
fn find_bidder(stakes: &Vec<Bid>, who: &String) -> (at: usize)
    ensures
        at <= stakes.len(),
        at < stakes.len() ==> stakes[at as int].bidder@ == who@,
        forall|i: int| 0 <= i < at ==> stakes[i].bidder@ != who@,
{
    let mut at: usize = 0;
    while at < stakes.len() && stakes[at].bidder != *who
        invariant
            at <= stakes.len(),
            forall|i: int| 0 <= i < at ==> stakes[i].bidder@ != who@,
        decreases stakes.len() - at,
    {
        at += 1;
    }
    at
}

/// Sum of all bids.
fn sum_bids(bids: &Vec<Bid>) -> (total: u128)
    requires
        bid_total(bids_view(bids@)) <= u128::MAX,
    ensures
        total == bid_total(bids_view(bids@)),
{
    let ghost all = bids_view(bids@);
    let mut total: u128 = 0;
    let mut k: usize = 0;
    while k < bids.len()
        invariant
            k <= bids.len(),
            all == bids_view(bids@),
            total == bid_total(all.take(k as int)),
            bid_total(all) <= u128::MAX,
        decreases bids.len() - k,
    {
        proof {
            lemma_take_step(all, k as int);
            lemma_bid_total_prefix(all, k + 1);
        }
        total = total + bids[k].amount;
        k += 1;
    }
    proof {
        assert(all.take(k as int) =~= all);
    }
    total
}

/// One entry per bidder, in the order of their first bids, each with the sum
/// of that bidder's bids.
fn aggregate_bids(bids: &Vec<Bid>) -> (stakes: Vec<Bid>)
    requires
        bid_total(bids_view(bids@)) <= u128::MAX,
    ensures
        stakes.len() == bidders(bids_view(bids@)).len(),
        forall|i: int|
            0 <= i < stakes.len() ==> (#[trigger] stakes[i]).bidder@ == bidders(
                bids_view(bids@),
            )[i] && stakes[i].amount == staked_by(bids_view(bids@), stakes[i].bidder@),
{
    let ghost all = bids_view(bids@);
    let mut stakes: Vec<Bid> = Vec::new();
    let mut k: usize = 0;
    while k < bids.len()
        invariant
            k <= bids.len(),
            all == bids_view(bids@),
            bid_total(all) <= u128::MAX,
            stakes.len() == bidders(all.take(k as int)).len(),
            forall|i: int|
                0 <= i < stakes.len() ==> (#[trigger] stakes[i]).bidder@ == bidders(
                    all.take(k as int),
                )[i] && stakes[i].amount == staked_by(all.take(k as int), stakes[i].bidder@),
        decreases bids.len() - k,
    {
        let bid = &bids[k];
        let at = find_bidder(&stakes, &bid.bidder);
        let ghost before = all.take(k as int);
        let ghost after = all.take(k + 1);
        proof {
            lemma_take_step(all, k as int);
            lemma_bidders(before);
            lemma_bid_total_prefix(all, k + 1);
            lemma_staked_bound(after, bid.bidder@);
            assert(after.last() == bid@);
        }
        if at < stakes.len() {
            proof {
                assert(bidders(before)[at as int] == bid.bidder@);
                assert(bidders(before).contains(bid.bidder@));
            }
            let sum: u128 = stakes[at].amount + bid.amount;
            stakes.set(at, Bid { bidder: bid.bidder.clone(), amount: sum });
        } else {
            proof {
                assert(!bidders(before).contains(bid.bidder@)) by {
                    if bidders(before).contains(bid.bidder@) {
                        let i = choose|i: int|
                            0 <= i < bidders(before).len() && bidders(before)[i] == bid.bidder@;
                        assert(stakes[i].bidder@ == bid.bidder@);
                    }
                }
                lemma_staked_bound(before, bid.bidder@);
            }
            stakes.push(Bid { bidder: bid.bidder.clone(), amount: bid.amount });
        }
        k += 1;
    }
    proof {
        assert(all.take(k as int) =~= all);
    }
    stakes
}

/// Each bidder, in the order of their first bids, with the share of all bids
/// that is theirs. Where bids are given, their sum must not be zero.
pub fn get_bid_ratios(bids: &Vec<Bid>) -> (ratios: Vec<(String, Decimal)>)
    requires
        bid_total(bids_view(bids@)) <= u128::MAX,
        bids.len() > 0 ==> bid_total(bids_view(bids@)) > 0,
    ensures
        ratios_view(ratios@) == bid_ratios(bids_view(bids@)),
{
    let ghost all = bids_view(bids@);
    let total = sum_bids(bids);
    let stakes = aggregate_bids(bids);
    let mut ratios: Vec<(String, Decimal)> = Vec::new();
    let mut i: usize = 0;
    proof {
        if bids.len() == 0 {
            assert(bidders(all).len() == 0);
        }
    }
    while i < stakes.len()
        invariant
            i <= stakes.len(),
            all == bids_view(bids@),
            total == bid_total(all),
            stakes.len() > 0 ==> total > 0,
            stakes.len() == bidders(all).len(),
            forall|j: int|
                0 <= j < stakes.len() ==> (#[trigger] stakes[j]).bidder@ == bidders(all)[j]
                    && stakes[j].amount == staked_by(all, stakes[j].bidder@),
            ratios.len() == i,
            forall|j: int|
                0 <= j < i ==> ratios_view(ratios@)[j] == #[trigger] bid_ratios(all)[j],
        decreases stakes.len() - i,
    {
        let stake = &stakes[i];
        proof {
            lemma_staked_bound(all, stake.bidder@);
            lemma_ratio_bound(stake.amount as int, total as int);
        }
        let ratio = Decimal::from_ratio(stake.amount, total);
        ratios.push((stake.bidder.clone(), ratio));
        i += 1;
    }
    proof {
        assert(ratios_view(ratios@) =~= bid_ratios(all));
    }
    ratios
}

/// Every ratio of a bid history is at most one.
pub proof fn lemma_bid_ratios_bound(bids: Seq<BidView>, i: int)
    requires
        0 <= i < bid_ratios(bids).len(),
        0 < bid_total(bids) <= u128::MAX,
    ensures
        bid_ratios(bids)[i].1.atomics == ratio_atomics(
            staked_by(bids, bidders(bids)[i]),
            bid_total(bids),
        ),
        bid_ratios(bids)[i].1.atomics <= DECIMAL_FRACTIONAL,
{
    lemma_staked_bound(bids, bidders(bids)[i]);
    lemma_ratio_bound(staked_by(bids, bidders(bids)[i]), bid_total(bids));
}

/// The configured amount, but no more than half of what is held.
fn reward_pool(configured: u128, balance: Option<u128>) -> (pool: u128)
    ensures
        pool == distribution_amount(configured, balance),
{
    match balance {
        Some(held) => if held / 2 < configured {
            held / 2
        } else {
            configured
        },
        None => configured,
    }
}

/// Appends the bidders' rewards.
fn push_bidder_rewards(msgs: &mut Vec<Instruction>, bids: &Vec<Bid>, pool: u128, denom: &String)
    requires
        bid_total(bids_view(bids@)) <= u128::MAX,
        bids.len() > 0 ==> bid_total(bids_view(bids@)) > 0,
    ensures
        instructions_view(final(msgs)@) == instructions_view(old(msgs)@) + bidder_rewards(
            bids_view(bids@),
            pool,
            denom@,
        ),
{
    let ghost all = bids_view(bids@);
    let ghost before = instructions_view(msgs@);
    let ratios = get_bid_ratios(bids);
    let mut i: usize = 0;
    proof {
        assert(ratios_view(ratios@).len() == ratios.len());
        assert(bid_ratios(all).len() == bidders(all).len());
        if bids.len() == 0 {
            assert(bidders(all).len() == 0);
        }
        assert(bidder_rewards(all, pool, denom@).take(0) =~= Seq::empty());
    }
    while i < ratios.len()
        invariant
            i <= ratios.len(),
            ratios_view(ratios@) == bid_ratios(all),
            ratios.len() > 0 ==> 0 < bid_total(all) <= u128::MAX,
            instructions_view(msgs@) == before + bidder_rewards(all, pool, denom@).take(i as int),
        decreases ratios.len() - i,
    {
        let entry = &ratios[i];
        proof {
            assert(ratios_view(ratios@)[i as int] == (entry.0@, entry.1));
            lemma_bid_ratios_bound(all, i as int);
            lemma_mul_floor_bound(pool as int, entry.1.atomics as int);
            lemma_take_step(bidder_rewards(all, pool, denom@), i as int);
        }
        let amount: u128 = mul_floor(pool, entry.1);
        let ghost earlier = instructions_view(msgs@);
        msgs.push(
            Instruction::Transfer { to_address: entry.0.clone(), denom: denom.clone(), amount },
        );
        proof {
            let rewards = bidder_rewards(all, pool, denom@);
            assert(instructions_view(msgs@) =~= earlier.push(rewards[i as int]));
            assert(rewards.take(i + 1) =~= rewards.take(i as int).push(rewards[i as int]));
            assert(instructions_view(msgs@) =~= before + rewards.take(i + 1));
        }
        i += 1;
    }
    proof {
        let rewards = bidder_rewards(all, pool, denom@);
        assert(rewards.take(i as int) =~= rewards);
    }
}

/// Appends the curators' rewards.
fn push_curator_rewards(
    msgs: &mut Vec<Instruction>,
    curators: &Vec<String>,
    pool: u128,
    denom: &String,
)
    ensures
        instructions_view(final(msgs)@) == instructions_view(old(msgs)@) + curator_rewards(
            names_view(curators@),
            pool,
            denom@,
        ),
{
    let ghost names = names_view(curators@);
    let ghost before = instructions_view(msgs@);
    let ghost rewards = curator_rewards(names, pool, denom@);
    if curators.len() == 0 {
        assert(instructions_view(msgs@) =~= before + rewards);
        return ;
    }
    let count: u128 = curators.len() as u128;
    proof {
        lemma_ratio_bound(1, count as int);
    }
    let ratio = Decimal::from_ratio(1, count);
    proof {
        lemma_mul_floor_bound(pool as int, ratio.atomics as int);
    }
    let amount: u128 = mul_floor(pool, ratio);
    let mut i: usize = 0;
    assert(rewards.take(0) =~= Seq::empty());
    while i < curators.len()
        invariant
            i <= curators.len(),
            names == names_view(curators@),
            rewards == curator_rewards(names, pool, denom@),
            amount == share_of(pool as int, 1, curators.len() as int),
            instructions_view(msgs@) == before + rewards.take(i as int),
        decreases curators.len() - i,
    {
        let ghost earlier = instructions_view(msgs@);
        msgs.push(
            Instruction::Transfer { to_address: curators[i].clone(), denom: denom.clone(), amount },
        );
        proof {
            assert(instructions_view(msgs@) =~= earlier.push(rewards[i as int]));
            assert(rewards.take(i + 1) =~= rewards.take(i as int).push(rewards[i as int]));
            assert(instructions_view(msgs@) =~= before + rewards.take(i + 1));
        }
        i += 1;
    }
    proof {
        assert(rewards.take(i as int) =~= rewards);
    }
}

/// Concludes the live auction at `now`: decides the mint and every payout, and
/// lets the next queued auction go live. `reward_balance` is what the pipeline
/// holds of the reward asset, where that is known. Nothing is carried out here.
pub fn conclude_auction(state: &mut State, now: u64, reward_balance: Option<u128>) -> (r: Result<
    Response,
    ContractError,
>)
    requires
        old(state).wf(),
        old(state)@.conclusion_in_range(now),
    ensures
        final(state).wf(),
        final(state)@ == old(state)@.conclude(now, reward_balance).0,
        result_view(r) == old(state)@.conclude(now, reward_balance).1,
{
    match &state.auction {
        None => {
            return Err(ContractError::NotFound);
        },
        Some(live) => {
            if now < live.auction_end_time {
                return Err(ContractError::AuctionStillLive);
            }
        },
    }
    let live = state.auction.take().unwrap();
    let ghost expected = settlement_messages(old(state)@.config, live@, reward_balance);
    let mut msgs: Vec<Instruction> = Vec::new();
    if live.highest_bid.amount > 0 {
        msgs.push(
            Instruction::Mint {
                minter: state.config.minter_addr.clone(),
                owner: live.highest_bid.bidder.clone(),
                token_id: state.config.current_token_id,
                token_uri: live.submission_info.submission.token_uri.clone(),
                fee: Coin { denom: String::from_str("ustars"), amount: state.config.mint_cost },
            },
        );
        msgs.push(
            Instruction::Transfer {
                to_address: live.submission_info.submission.proceed_recipient.clone(),
                denom: state.config.bid_denom.clone(),
                amount: live.highest_bid.amount,
            },
        );
        let ghost head = instructions_view(msgs@);
        match &state.config.memecoin_denom {
            Some(denom) => {
                let pool = reward_pool(state.config.memecoin_distribution_amount, reward_balance);
                proof {
                    lemma_bid_total_prefix(live@.bids, 0);
                }
                push_bidder_rewards(&mut msgs, &live.bids, pool, denom);
                push_curator_rewards(&mut msgs, &live.submission_info.curation_votes, pool, denom);
                proof {
                    assert(instructions_view(msgs@) =~= head + (bidder_rewards(
                        live@.bids,
                        pool,
                        denom@,
                    ) + curator_rewards(live@.submission_info.curation_votes, pool, denom@)));
                }
            },
            None => {
                proof {
                    assert(instructions_view(msgs@) =~= head + Seq::empty());
                }
            },
        }
        proof {
            assert(head.len() == 2);
            assert(head =~= seq![head[0], head[1]]);
            assert(instructions_view(msgs@) =~= expected);
        }
    } else {
        proof {
            assert(instructions_view(msgs@) =~= expected);
        }
    }
    state.activate_next(now);
    let response = Response {
        messages: msgs,
        event: Event::Concluded {
            highest_bidder: live.highest_bid.bidder.clone(),
            highest_bid: live.highest_bid.amount,
        },
    };
    proof {
        assert(state@ =~= old(state)@.conclude(now, reward_balance).0);
        assert(response@ =~= old(state)@.conclude(now, reward_balance).1->Ok_0);
    }
    Ok(response)
}

} // verus!
