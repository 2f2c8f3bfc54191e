//! Curation: votes on pending submissions, their expiry and their acceptance.

use vstd::prelude::*;
use crate::error::ContractError;
use crate::math::{checked_mul_floor, mul_floor_spec, Decimal};
use crate::msgs::ConfigView;
use crate::registry::lemma_registry_view;
use crate::response::{
    result_view, CurationOutcome, Event, EventView, Response, ResponseView,
};
use crate::state::{
    ids_rise, lemma_take_step, names_view, registry_view, Registered, State, StateView,
    SubmissionItemView,
};

verus! {

/// Whether a lookup of the sender's tokens shows a holder: it succeeded and
/// found at least one token.
pub open spec fn is_holder(tokens: Option<Vec<String>>) -> bool {
    tokens matches Some(held) && held.len() > 0
}

/// The number of votes that a submission needs: the threshold's share of all
/// tokens of the reference collection, rounded down.
pub open spec fn pass_count(total_tokens: u64, threshold: Decimal) -> int {
    mul_floor_spec(total_tokens as int, threshold.atomics as int)
}

impl StateView {
    /// A curation at `now` stays within the machine's integers: where the live
    /// slot is free, the deadline of an auction that goes live fits 64 bits.
    pub open spec fn curation_in_range(self, now: u64) -> bool {
        self.auction is None ==> self.config.auction_deadline(now) <= u64::MAX
    }

    /// The state without the submission `id`, which is counted no longer.
    pub open spec fn without_submission(self, id: u64) -> StateView {
        StateView {
            config: ConfigView {
                submission_total: (self.config.submission_total - 1) as u64,
                ..self.config
            },
            submissions: self.submissions.remove(id),
            ..self
        }
    }

    /// The state after `voter` has voted on submission `id` at `now`, and what
    /// the vote came to. The threshold is taken from the tokens that exist at
    /// the time of the vote.
    pub open spec fn curate(
        self,
        id: u64,
        voter: Seq<char>,
        vote: bool,
        now: u64,
        total_tokens: u64,
    ) -> (StateView, CurationOutcome) {
        if !self.submissions.contains_key(id) {
            (self, CurationOutcome::NotFound)
        } else {
            let item = self.submissions[id];
            let needed = pass_count(total_tokens, self.config.curation_threshold);
            if item.curation_votes.contains(voter) {
                (self, CurationOutcome::AlreadyVoted)
            } else if now > item.submission_end_time {
                if item.curation_votes.len() < needed {
                    (self.without_submission(id), CurationOutcome::Expired)
                } else {
                    (self, CurationOutcome::Unchanged)
                }
            } else if !vote {
                (self, CurationOutcome::Unchanged)
            } else {
                let voted = SubmissionItemView {
                    curation_votes: item.curation_votes.push(voter),
                    ..item
                };
                if voted.curation_votes.len() < needed {
                    (
                        StateView { submissions: self.submissions.insert(id, voted), ..self },
                        CurationOutcome::Recorded,
                    )
                } else {
                    (self.without_submission(id).promote(voted, now), CurationOutcome::Accepted)
                }
            }
        }
    }

    /// The state after `voter` has voted on each of `ids` in turn, and what
    /// each vote came to.
    pub open spec fn curate_all(
        self,
        ids: Seq<u64>,
        voter: Seq<char>,
        vote: bool,
        now: u64,
        total_tokens: u64,
    ) -> (StateView, Seq<CurationOutcome>)
        decreases ids.len(),
    {
        if ids.len() == 0 {
            (self, Seq::empty())
        } else {
            let earlier = self.curate_all(ids.drop_last(), voter, vote, now, total_tokens);
            let last = earlier.0.curate(ids.last(), voter, vote, now, total_tokens);
            (last.0, earlier.1.push(last.1))
        }
    }

    /// The state after a curation call, and what the call returns: who holds no
    /// token is refused; a holder's batch always succeeds, one outcome per
    /// identifier.
    pub open spec fn curate_batch(
        self,
        now: u64,
        voter: Seq<char>,
        holder: bool,
        total_tokens: u64,
        ids: Seq<u64>,
        vote: bool,
    ) -> (StateView, Result<ResponseView, ContractError>) {
        if !holder {
            (self, Err(ContractError::HolderCheckFailed))
        } else {
            let done = self.curate_all(ids, voter, vote, now, total_tokens);
            (
                done.0,
                Ok(
                    ResponseView {
                        messages: Seq::empty(),
                        event: EventView::Curated { outcomes: done.1 },
                    },
                ),
            )
        }
    }
}

/// Decides from a lookup of the sender's tokens in the reference collection
/// whether the sender is a holder. `None` stands for a lookup that failed.
pub fn check_if_collection_holder(tokens: &Option<Vec<String>>) -> (r: Result<(), ContractError>)
    ensures
        r == if is_holder(*tokens) {
            Ok::<(), ContractError>(())
        } else {
            Err(ContractError::HolderCheckFailed)
        },
{
    match tokens {
        None => Err(ContractError::HolderCheckFailed),
        Some(held) => {
            if held.len() == 0 {
                Err(ContractError::HolderCheckFailed)
            } else {
                Ok(())
            }
        },
    }
}

/// Whether `votes` votes fall short of the threshold's share of `total_tokens`.
pub fn below_threshold(votes: usize, total_tokens: u64, threshold: Decimal) -> (below: bool)
    ensures
        below == (votes < pass_count(total_tokens, threshold)),
{
    match checked_mul_floor(total_tokens as u128, threshold) {
        Some(needed) => (votes as u128) < needed,
        None => true,
    }
}

/// Whether `voter` is among `votes`.
pub fn has_voted(votes: &Vec<String>, voter: &String) -> (found: bool)
    ensures
        found == names_view(votes@).contains(voter@),
{
    let mut i: usize = 0;
    while i < votes.len()
        invariant
            i <= votes.len(),
            forall|j: int| 0 <= j < i ==> names_view(votes@)[j] != voter@,
        decreases votes.len() - i,
    {
        if votes[i] == *voter {
            assert(names_view(votes@)[i as int] == voter@);
            return true;
        }
        i += 1;
    }
    false
}

impl State {
    /// Where the submission `id` first stands in the registry, if it is there.
    pub fn find_submission(&self, id: u64) -> (at: Option<usize>)
        ensures
            at matches Some(i) ==> i < self.submissions.len() && self.submissions[i as int].id
                == id && forall|j: int| 0 <= j < i ==> (#[trigger] self.submissions[j]).id != id,
            at is None ==> forall|i: int|
                0 <= i < self.submissions.len() ==> (#[trigger] self.submissions[i]).id != id,
    {
        let mut i: usize = 0;
        while i < self.submissions.len()
            invariant
                i <= self.submissions.len(),
                forall|j: int| 0 <= j < i ==> (#[trigger] self.submissions[j]).id != id,
            decreases self.submissions.len() - i,
        {
            if self.submissions[i].id == id {
                return Some(i);
            }
            i += 1;
        }
        None
    }

    /// Casts `voter`'s vote on submission `id` at `now`, with `total_tokens`
    /// tokens of the reference collection in existence.
    pub fn curate(
        &mut self,
        id: u64,
        voter: &String,
        vote: bool,
        now: u64,
        total_tokens: u64,
    ) -> (outcome: CurationOutcome)
        requires
            old(self).wf(),
            old(self)@.curation_in_range(now),
        ensures
            final(self).wf(),
            final(self)@.curation_in_range(now),
            final(self)@ == old(self)@.curate(id, voter@, vote, now, total_tokens).0,
            outcome == old(self)@.curate(id, voter@, vote, now, total_tokens).1,
    {
        proof {
            lemma_registry_view(self.submissions@);
        }
        let at = match self.find_submission(id) {
            None => {
                return CurationOutcome::NotFound;
            },
            Some(at) => at,
        };
        assert(registry_view(self.submissions@).contains_key(id));
        if has_voted(&self.submissions[at].item.curation_votes, voter) {
            return CurationOutcome::AlreadyVoted;
        }
        let threshold = self.config.curation_threshold;
        let votes: usize = self.submissions[at].item.curation_votes.len();
        if now > self.submissions[at].item.submission_end_time {
            if below_threshold(votes, total_tokens, threshold) {
                self.submissions.remove(at);
                self.config.submission_total = self.config.submission_total - 1;
                proof {
                    lemma_removed(old(self).submissions@, at as int);
                    assert(self@ =~= old(self)@.without_submission(id));
                }
                return CurationOutcome::Expired;
            }
            return CurationOutcome::Unchanged;
        }
        if !vote {
            return CurationOutcome::Unchanged;
        }
        let mut entry = self.submissions.remove(at);
        entry.item.curation_votes.push(voter.clone());
        let ghost voted = entry.item@;
        proof {
            lemma_removed(old(self).submissions@, at as int);
            let before = old(self).submissions[at as int].item@;
            assert(voted =~= SubmissionItemView {
                curation_votes: before.curation_votes.push(voter@),
                ..before
            });
            assert(voted.wf());
        }
        if below_threshold(entry.item.curation_votes.len(), total_tokens, threshold) {
            self.submissions.insert(at, entry);
            proof {
                lemma_replaced(old(self).submissions@, at as int, entry);
                assert(self.submissions@ =~= old(self).submissions@.update(at as int, entry));
                assert(self@ =~= old(self)@.curate(id, voter@, vote, now, total_tokens).0);
            }
            CurationOutcome::Recorded
        } else {
            self.config.submission_total = self.config.submission_total - 1;
            assert(self@ =~= old(self)@.without_submission(id));
            self.promote(entry.item, now);
            CurationOutcome::Accepted
        }
    }
}

/// Casts the sender's vote on each of `submission_ids` in turn, at `now`.
/// `sender_tokens` is the lookup of the sender's tokens in the reference
/// collection (`None` where it failed), `total_tokens` the number of tokens in
/// existence. One identifier's outcome never stops the batch.
pub fn curate_nft(
    state: &mut State,
    now: u64,
    sender: &String,
    sender_tokens: &Option<Vec<String>>,
    total_tokens: u64,
    submission_ids: &Vec<u64>,
    vote: bool,
) -> (r: Result<Response, ContractError>)
    requires
        old(state).wf(),
        old(state)@.curation_in_range(now),
    ensures
        final(state).wf(),
        final(state)@ == old(state)@.curate_batch(
            now,
            sender@,
            is_holder(*sender_tokens),
            total_tokens,
            submission_ids@,
            vote,
        ).0,
        result_view(r) == old(state)@.curate_batch(
            now,
            sender@,
            is_holder(*sender_tokens),
            total_tokens,
            submission_ids@,
            vote,
        ).1,
{
    match check_if_collection_holder(sender_tokens) {
        Err(e) => {
            return Err(e);
        },
        Ok(_) => {},
    }
    let ghost start = state@;
    let ghost ids = submission_ids@;
    let mut outcomes: Vec<CurationOutcome> = Vec::new();
    let mut i: usize = 0;
    assert(ids.take(0) =~= Seq::empty());
    while i < submission_ids.len()
        invariant
            i <= submission_ids.len(),
            ids == submission_ids@,
            state.wf(),
            state@.curation_in_range(now),
            state@ == start.curate_all(ids.take(i as int), sender@, vote, now, total_tokens).0,
            outcomes@ == start.curate_all(ids.take(i as int), sender@, vote, now, total_tokens).1,
        decreases submission_ids.len() - i,
    {
        let outcome = state.curate(submission_ids[i], sender, vote, now, total_tokens);
        outcomes.push(outcome);
        proof {
            lemma_take_step(ids, i as int);
        }
        i += 1;
    }
    proof {
        assert(ids.take(i as int) =~= ids);
    }
    let response = Response { messages: Vec::new(), event: Event::Curated { outcomes } };
    proof {
        let expected = start.curate_batch(
            now,
            sender@,
            is_holder(*sender_tokens),
            total_tokens,
            ids,
            vote,
        );
        assert(response@ =~= expected.1->Ok_0);
    }
    Ok(response)
}

/// Taking an entry out of the registry takes its identifier out of the map and
/// leaves the rest as it was.
pub proof fn lemma_removed(entries: Seq<Registered>, at: int)
    requires
        ids_rise(entries),
        0 <= at < entries.len(),
    ensures
        ids_rise(entries.remove(at)),
        registry_view(entries.remove(at)) == registry_view(entries).remove(entries[at].id),
        registry_view(entries.remove(at)).dom().len() == entries.len() - 1,
{
    let rest = entries.remove(at);
    lemma_registry_view(entries);
    lemma_registry_view(rest);
    assert forall|id: u64| #[trigger]
        registry_view(rest).contains_key(id) <==> registry_view(entries).remove(
            entries[at].id,
        ).contains_key(id) by {
        if registry_view(rest).contains_key(id) {
            let i = choose|i: int| 0 <= i < rest.len() && (#[trigger] rest[i]).id == id;
            if i < at {
                assert(entries[i].id == id);
            } else {
                assert(entries[i + 1].id == id);
            }
        }
        if registry_view(entries).remove(entries[at].id).contains_key(id) {
            let i = choose|i: int| 0 <= i < entries.len() && (#[trigger] entries[i]).id == id;
            if i < at {
                assert(rest[i].id == id);
            } else {
                assert(rest[i - 1].id == id);
            }
        }
    }
    assert forall|id: u64| #[trigger] registry_view(rest).contains_key(id) implies registry_view(
        rest,
    )[id] == registry_view(entries)[id] by {
        let i = choose|i: int| 0 <= i < rest.len() && (#[trigger] rest[i]).id == id;
        if i < at {
            assert(entries[i].id == id);
        } else {
            assert(entries[i + 1].id == id);
        }
    }
    assert(registry_view(rest) =~= registry_view(entries).remove(entries[at].id));
}

/// Putting another submission in the place of an entry, under the same
/// identifier, replaces it in the map and leaves the rest as it was.
pub proof fn lemma_replaced(entries: Seq<Registered>, at: int, entry: Registered)
    requires
        ids_rise(entries),
        0 <= at < entries.len(),
        entry.id == entries[at].id,
    ensures
        ids_rise(entries.update(at, entry)),
        registry_view(entries.update(at, entry)) == registry_view(entries).insert(
            entry.id,
            entry.item@,
        ),
{
    let next = entries.update(at, entry);
    lemma_registry_view(entries);
    lemma_registry_view(next);
    assert forall|id: u64| #[trigger]
        registry_view(next).contains_key(id) <==> registry_view(entries).insert(
            entry.id,
            entry.item@,
        ).contains_key(id) by {
        if registry_view(next).contains_key(id) {
            let i = choose|i: int| 0 <= i < next.len() && (#[trigger] next[i]).id == id;
            assert(entries[i].id == id);
        }
        if registry_view(entries).contains_key(id) {
            let i = choose|i: int| 0 <= i < entries.len() && (#[trigger] entries[i]).id == id;
            assert(next[i].id == id);
        }
        if id == entry.id {
            assert(next[at].id == id);
        }
    }
    assert forall|id: u64| #[trigger] registry_view(next).contains_key(id) implies registry_view(
        next,
    )[id] == registry_view(entries).insert(entry.id, entry.item@)[id] by {
        let i = choose|i: int| 0 <= i < next.len() && (#[trigger] next[i]).id == id;
        assert(entries[i].id == id);
        if i != at {
            assert(next[i] == entries[i]);
        }
    }
    assert(registry_view(next) =~= registry_view(entries).insert(entry.id, entry.item@));
}

} // verus!
