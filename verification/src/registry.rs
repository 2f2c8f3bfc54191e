//! The registry of pending submissions.

use vstd::prelude::*;
use crate::curation::{check_if_collection_holder, is_holder};
use crate::error::ContractError;
use crate::msgs::{coins_view, Coin, CoinView, Config, ConfigView};
use crate::queue::deadline;
use crate::response::{
    result_view, Event, EventView, Instruction, InstructionView, Response, ResponseView,
};
use crate::state::{
    ids_rise, registry_view, Registered, State, StateView, SubmissionInfo, SubmissionInfoView,
    SubmissionItem, SubmissionItemView,
};

verus! {

/// Whether `coins` cover the `required` coin: the first coin of its denom
/// decides, and it must hold at least the required amount.
pub open spec fn covers(coins: Seq<CoinView>, required: CoinView) -> bool {
    exists|i: int|
        0 <= i < coins.len() && (#[trigger] coins[i]).denom == required.denom && coins[i].amount
            >= required.amount && forall|j: int|
            0 <= j < i ==> (#[trigger] coins[j]).denom != required.denom
}

/// `cosmwasm_std::has_coins`: looks up the first coin of the required denom
/// and compares its amount with the required one; false where no coin has
/// that denom.
#[verifier::external_body]
pub(crate) fn has_coins(coins: &Vec<Coin>, required: &Coin) -> (r: bool)
    ensures
        r == covers(coins_view(coins@), required@),
{
    let held: Vec<cosmwasm_std::Coin> = coins.iter().map(
        |c| cosmwasm_std::Coin::new(c.amount, c.denom.clone()),
    ).collect();
    cosmwasm_std::has_coins(
        &held,
        &cosmwasm_std::Coin::new(required.amount, required.denom.clone()),
    )
}

/// Whether a text parses as an absolute URL, as the `url` crate reads it.
pub uninterp spec fn uri_parses(uri: Seq<char>) -> bool;

/// `url::Url::parse`: whether the text is accepted as an absolute URL.
#[verifier::external_body]
pub(crate) fn parses_as_url(uri: &String) -> (r: bool)
    ensures
        r == uri_parses(uri@),
{
    url::Url::parse(uri.as_str()).is_ok()
}

/// The map holds exactly the identifiers of the entries, and, where these rise,
/// under each the entry's submission; it has as many keys as there are entries.
pub proof fn lemma_registry_view(entries: Seq<Registered>)
    ensures
        registry_view(entries).dom().finite(),
        forall|id: u64| #[trigger]
            registry_view(entries).contains_key(id) <==> exists|i: int|
                0 <= i < entries.len() && (#[trigger] entries[i]).id == id,
        ids_rise(entries) ==> registry_view(entries).dom().len() == entries.len(),
        ids_rise(entries) ==> forall|i: int|
            0 <= i < entries.len() ==> registry_view(entries)[(#[trigger] entries[i]).id]
                == entries[i].item@,
    decreases entries.len(),
{
    if entries.len() > 0 {
        let earlier = entries.drop_last();
        let last = entries.last();
        lemma_registry_view(earlier);
        assert forall|id: u64| #[trigger]
            registry_view(entries).contains_key(id) <==> exists|i: int|
                0 <= i < entries.len() && (#[trigger] entries[i]).id == id by {
            if registry_view(entries).contains_key(id) {
                if id == last.id {
                    assert(entries[entries.len() - 1].id == id);
                } else {
                    let i = choose|i: int|
                        0 <= i < earlier.len() && (#[trigger] earlier[i]).id == id;
                    assert(entries[i].id == id);
                }
            }
            if exists|i: int| 0 <= i < entries.len() && (#[trigger] entries[i]).id == id {
                let i = choose|i: int| 0 <= i < entries.len() && (#[trigger] entries[i]).id == id;
                if i < earlier.len() {
                    assert(earlier[i].id == id);
                }
            }
        }
        if ids_rise(entries) {
            assert(ids_rise(earlier));
            assert(!registry_view(earlier).contains_key(last.id)) by {
                if registry_view(earlier).contains_key(last.id) {
                    let i = choose|i: int|
                        0 <= i < earlier.len() && (#[trigger] earlier[i]).id == last.id;
                    assert(entries[i].id < entries[entries.len() - 1].id);
                }
            }
            assert forall|i: int| 0 <= i < entries.len() implies registry_view(entries)[(
            #[trigger] entries[i]).id] == entries[i].item@ by {
                if i < earlier.len() {
                    assert(earlier[i].id == entries[i].id);
                    assert(entries[i].id < entries[entries.len() - 1].id);
                }
            }
        }
    }
}

impl ConfigView {
    /// The configuration after one identifier has been handed out.
    pub open spec fn after_allocation(self) -> ConfigView {
        ConfigView {
            current_submission_id: (self.current_submission_id + 1) as u64,
            submission_total: (self.submission_total + 1) as u64,
            ..self
        }
    }
}

impl StateView {
    /// A submission at `now` stays within the machine's integers: one more
    /// identifier can be handed out and the voting deadline fits 64 bits.
    pub open spec fn submission_in_range(self, now: u64) -> bool {
        &&& self.config.current_submission_id < u64::MAX
        &&& self.config.vote_deadline(now) <= u64::MAX
    }

    /// The state after a call to submit at `now`, and what the call returns.
    /// A full registry refuses; a non-holder pays the submission fee, which goes
    /// to the owner; the submission enters the registry under the next
    /// identifier, with no votes and a full voting period ahead.
    pub open spec fn submit(
        self,
        now: u64,
        sender: Seq<char>,
        proceed_recipient: Seq<char>,
        token_uri: Seq<char>,
        funds: Seq<CoinView>,
        is_holder: bool,
    ) -> (StateView, Result<ResponseView, ContractError>) {
        if self.config.submission_total >= self.config.submission_limit {
            (self, Err(ContractError::ExceededSubmissionLimit))
        } else if !is_holder && !covers(
            funds,
            CoinView { denom: self.config.bid_denom, amount: self.config.submission_cost },
        ) {
            (self, Err(ContractError::InsufficientFunds))
        } else {
            let id = self.config.current_submission_id;
            let item = SubmissionItemView {
                submission: SubmissionInfoView { submitter: sender, proceed_recipient, token_uri },
                curation_votes: Seq::empty(),
                submission_end_time: self.config.vote_deadline(now) as u64,
            };
            let fee = InstructionView::Transfer {
                to_address: self.config.owner,
                denom: self.config.bid_denom,
                amount: self.config.submission_cost,
            };
            (
                StateView {
                    config: self.config.after_allocation(),
                    submissions: self.submissions.insert(id, item),
                    ..self
                },
                Ok(
                    ResponseView {
                        messages: if is_holder {
                            Seq::empty()
                        } else {
                            seq![fee]
                        },
                        event: EventView::Submitted { submission_id: id },
                    },
                ),
            )
        }
    }
}

impl StateView {
    /// The state after a call to submit an artwork, and what the call returns:
    /// a URI that does not parse is refused before anything else is looked at.
    pub open spec fn submit_nft(
        self,
        now: u64,
        sender: Seq<char>,
        proceed_recipient: Seq<char>,
        token_uri: Seq<char>,
        uri_ok: bool,
        funds: Seq<CoinView>,
        is_holder: bool,
    ) -> (StateView, Result<ResponseView, ContractError>) {
        if !uri_ok {
            (self, Err(ContractError::InvalidArtworkURI))
        } else {
            self.submit(now, sender, proceed_recipient, token_uri, funds, is_holder)
        }
    }
}

/// Hands out the next submission identifier and counts one more pending submission.
pub fn get_next_submission_id(config: &mut Config) -> (id: u64)
    requires
        old(config).current_submission_id < u64::MAX,
        old(config).submission_total < u64::MAX,
    ensures
        id == old(config).current_submission_id,
        final(config)@ == old(config)@.after_allocation(),
{
    let submission_id: u64 = config.current_submission_id;
    config.current_submission_id = config.current_submission_id + 1;
    config.submission_total = config.submission_total + 1;
    submission_id
}

impl State {
    /// Registers a submission at `now`. `is_holder` says whether the sender
    /// holds a token of the reference collection; who does not pays the fee.
    pub fn submit(
        &mut self,
        now: u64,
        sender: String,
        proceed_recipient: String,
        token_uri: String,
        funds: &Vec<Coin>,
        is_holder: bool,
    ) -> (r: Result<Response, ContractError>)
        requires
            old(self).wf(),
            old(self)@.submission_in_range(now),
        ensures
            final(self).wf(),
            final(self)@ == old(self)@.submit(
                now,
                sender@,
                proceed_recipient@,
                token_uri@,
                coins_view(funds@),
                is_holder,
            ).0,
            result_view(r) == old(self)@.submit(
                now,
                sender@,
                proceed_recipient@,
                token_uri@,
                coins_view(funds@),
                is_holder,
            ).1,
    {
        if self.config.submission_total >= self.config.submission_limit {
            return Err(ContractError::ExceededSubmissionLimit);
        }
        let mut msgs: Vec<Instruction> = Vec::new();
        if !is_holder {
            let fee = Coin {
                denom: self.config.bid_denom.clone(),
                amount: self.config.submission_cost,
            };
            if !has_coins(funds, &fee) {
                return Err(ContractError::InsufficientFunds);
            }
            msgs.push(
                Instruction::Transfer {
                    to_address: self.config.owner.clone(),
                    denom: self.config.bid_denom.clone(),
                    amount: self.config.submission_cost,
                },
            );
        }
        let submission_id: u64 = get_next_submission_id(&mut self.config);
        let item = SubmissionItem {
            submission: SubmissionInfo { submitter: sender, proceed_recipient, token_uri },
            curation_votes: Vec::new(),
            submission_end_time: deadline(now, self.config.submission_vote_period),
        };
        proof {
            lemma_registry_view(old(self).submissions@);
            assert(!registry_view(old(self).submissions@).contains_key(submission_id));
            assert forall|i: int| 0 <= i < old(self).submissions.len() implies (
            #[trigger] old(self).submissions[i]).id < submission_id by {
                assert(registry_view(old(self).submissions@).contains_key(
                    old(self).submissions[i].id,
                ));
            }
        }
        self.submissions.push(Registered { id: submission_id, item });
        let response = Response {
            messages: msgs,
            event: Event::Submitted { submission_id },
        };
        proof {
            let expected = old(self)@.submit(
                now,
                sender@,
                proceed_recipient@,
                token_uri@,
                coins_view(funds@),
                is_holder,
            );
            assert(item@ =~= expected.0.submissions[submission_id]);
            assert(self.submissions@.drop_last() =~= old(self).submissions@);
            assert(self@ =~= expected.0);
            assert(response@ =~= expected.1->Ok_0);
        }
        Ok(response)
    }
}

/// Submits an artwork at `now`. The URI must parse as an absolute URL.
/// `sender_tokens` is the lookup of the sender's tokens in the reference
/// collection (`None` where it failed): who holds none pays the submission fee.
pub fn submit_nft(
    state: &mut State,
    now: u64,
    sender: String,
    funds: &Vec<Coin>,
    sender_tokens: &Option<Vec<String>>,
    proceed_recipient: String,
    token_uri: String,
) -> (r: Result<Response, ContractError>)
    requires
        old(state).wf(),
        old(state)@.submission_in_range(now),
    ensures
        final(state).wf(),
        final(state)@ == old(state)@.submit_nft(
            now,
            sender@,
            proceed_recipient@,
            token_uri@,
            uri_parses(token_uri@),
            coins_view(funds@),
            is_holder(*sender_tokens),
        ).0,
        result_view(r) == old(state)@.submit_nft(
            now,
            sender@,
            proceed_recipient@,
            token_uri@,
            uri_parses(token_uri@),
            coins_view(funds@),
            is_holder(*sender_tokens),
        ).1,
{
    if !parses_as_url(&token_uri) {
        return Err(ContractError::InvalidArtworkURI);
    }
    let holder = check_if_collection_holder(sender_tokens).is_ok();
    state.submit(now, sender, proceed_recipient, token_uri, funds, holder)
}

} // verus!
