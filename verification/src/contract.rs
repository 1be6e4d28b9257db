//! The contract: state and operations.
//!
//! Every operation takes the invoking principal explicitly and is
//! all-or-nothing: it either commits the mutation its transition function
//! describes, or returns an error and leaves the state untouched. The
//! surrounding host supplies the caller identity, persists the state
//! between calls, drains the event log, and performs code upgrades.

use vstd::prelude::*;
use crate::account::AccountId;
use crate::errors::Error;
use crate::events::{ChoiceAdded, Event, PollCreated, PollEnded, PollStarted};
use crate::inv::{
    lemma_add_choice_inv, lemma_change_admin_inv, lemma_count_votes_le_len, lemma_create_poll_inv,
    lemma_end_poll_inv, lemma_pause_inv, lemma_start_poll_inv, lemma_unpause_inv, lemma_vote_inv,
    state_inv,
};
use crate::model::{
    add_choice_tr, change_admin_tr, choice_list, choices_of, create_poll_tr, end_poll_tr,
    has_choices, has_voted, init_state, leads_all, pause_tr, report_of, set_code_auth,
    start_poll_tr, tally_of, unpause_tr, vote_tr, winner_of, Ballot, StateView,
};
use crate::pair_table::PairTable;
use crate::poll::{Choice, ChoiceId, Poll, PollId, PollStatus};
use crate::report::{report_result, ChoiceReport, PollReport};
use crate::table::KeyTable;
use vstd::pervasive::unreached;

verus! {

/// Copies a list of choice ids.
fn copy_ids(v: &Vec<ChoiceId>) -> (r: Vec<ChoiceId>)
    ensures
        r@ == v@,
{
    let mut r: Vec<ChoiceId> = Vec::new();
    let mut i: usize = 0;
    while i < v.len()
        invariant
            i <= v@.len(),
            r@ == v@.subrange(0, i as int),
        decreases v@.len() - i,
    {
        r.push(v[i]);
        proof {
            assert(r@ =~= v@.subrange(0, i as int + 1));
        }
        i = i + 1;
    }
    proof {
        assert(r@ =~= v@);
    }
    r
}

/// The voting contract: five keyed stores, the two process-wide scalars,
/// the event log, and the ghost history of accepted ballots.
pub struct VotingContract {
    /// All polls, keyed by poll id.
    polls: KeyTable<Poll>,
    /// All choices, keyed by poll id and choice id.
    choices: PairTable<Choice>,
    /// For each poll with at least one choice, its choice ids in insertion
    /// order.
    choice_index: KeyTable<Vec<ChoiceId>>,
    /// Vote counts, keyed by poll id and choice id; absent means zero.
    tallies: PairTable<u64>,
    /// One entry per accepted vote: which principal voted on which poll.
    voted_by: Vec<(PollId, AccountId)>,
    /// The single process-wide admin.
    admin: AccountId,
    /// Whether all mutating poll, choice and vote operations are rejected.
    paused: bool,
    /// The events raised so far, for the host to drain.
    events: Vec<Event>,
    /// The history of accepted ballots; drives the tally specifications.
    ballots: Ghost<Seq<Ballot>>,
}

impl View for VotingContract {
    type V = StateView;

    closed spec fn view(&self) -> StateView {
        StateView {
            polls: self.polls@,
            choices: self.choices@,
            choice_index: self.choice_index@,
            tallies: self.tallies@,
            admin: self.admin,
            paused: self.paused,
            ballots: self.ballots@,
            events: self.events@.map_values(|e: Event| e@),
        }
    }
}

impl VotingContract {
    /// The representation invariant: the stores hold no duplicate keys,
    /// the voter ledger records exactly the accepted ballots, and the
    /// state satisfies the model invariant.
    pub closed spec fn wf(&self) -> bool {
        &&& self.polls.wf()
        &&& self.choices.wf()
        &&& self.choice_index.wf()
        &&& self.tallies.wf()
        &&& self.voted_by@.len() == self.ballots@.len()
        &&& forall|i: int|
            0 <= i < self.ballots@.len() ==> (#[trigger] self.voted_by@[i]).0
                == self.ballots@[i].poll_id && self.voted_by@[i].1 == self.ballots@[i].voter
        &&& state_inv(self@)
    }

    /// A freshly deployed contract: no polls, no votes, the deploying
    /// principal as admin, not paused.
    pub fn default(caller: AccountId) -> (r: VotingContract)
        ensures
            r.wf(),
            r@ == init_state(caller),
    {
        let r = VotingContract {
            polls: KeyTable::new(),
            choices: PairTable::new(),
            choice_index: KeyTable::new(),
            tallies: PairTable::new(),
            voted_by: Vec::new(),
            admin: caller,
            paused: false,
            events: Vec::new(),
            ballots: Ghost(Seq::empty()),
        };
        proof {
            assert(r@ =~= init_state(caller));
        }
        r
    }

    /// Pauses the contract. Admin only.
    pub fn pause(&mut self, caller: AccountId) -> (r: Result<(), Error>)
        requires
            old(self).wf(),
        ensures
            final(self).wf(),
            final(self)@ == pause_tr(old(self)@, caller).0,
            r == pause_tr(old(self)@, caller).1,
    {
        if caller != self.admin {
            return Err(Error::CallerIsNotAdmin);
        }
        self.paused = true;
        proof {
            lemma_pause_inv(old(self)@, caller);
            assert(self@ =~= pause_tr(old(self)@, caller).0);
        }
        Ok(())
    }

    /// Unpauses the contract. Admin only.
    pub fn unpause(&mut self, caller: AccountId) -> (r: Result<(), Error>)
        requires
            old(self).wf(),
        ensures
            final(self).wf(),
            final(self)@ == unpause_tr(old(self)@, caller).0,
            r == unpause_tr(old(self)@, caller).1,
    {
        if caller != self.admin {
            return Err(Error::CallerIsNotAdmin);
        }
        self.paused = false;
        proof {
            lemma_unpause_inv(old(self)@, caller);
            assert(self@ =~= unpause_tr(old(self)@, caller).0);
        }
        Ok(())
    }

    /// Hands the admin role to another principal. Admin only.
    pub fn change_admin(&mut self, caller: AccountId, new_admin: AccountId) -> (r: Result<
        (),
        Error,
    >)
        requires
            old(self).wf(),
        ensures
            final(self).wf(),
            final(self)@ == change_admin_tr(old(self)@, caller, new_admin).0,
            r == change_admin_tr(old(self)@, caller, new_admin).1,
    {
        if caller != self.admin {
            return Err(Error::CallerIsNotAdmin);
        }
        self.admin = new_admin;
        proof {
            lemma_change_admin_inv(old(self)@, caller, new_admin);
            assert(self@ =~= change_admin_tr(old(self)@, caller, new_admin).0);
        }
        Ok(())
    }

    /// Authorizes a code upgrade: returns the code hash to hand to the
    /// host's upgrade mechanism, or the authorization error. Admin only.
    ///
    /// The installation itself is the host's; once it reports back, feed
    /// its outcome to [`VotingContract::complete_set_code`].
    pub fn set_code(&self, caller: AccountId, code_hash: [u8; 32]) -> (r: Result<[u8; 32], Error>)
        ensures
            r == set_code_auth(self@, caller, code_hash),
    {
        if caller != self.admin {
            Err(Error::CallerIsNotAdmin)
        } else {
            Ok(code_hash)
        }
    }

    /// Wraps the host's report of an attempted code installation into the
    /// contract's typed error, keeping its diagnostic.
    pub fn complete_set_code(outcome: Result<(), String>) -> (r: Result<(), Error>)
        ensures
            r == match outcome {
                Ok(()) => Ok::<(), Error>(()),
                Err(m) => Err::<(), Error>(Error::FailedToSetCodeHash(m)),
            },
    {
        match outcome {
            Ok(()) => Ok(()),
            Err(m) => Err(Error::FailedToSetCodeHash(m)),
        }
    }

    /// Creates a new poll owned by the caller, with status `NotStarted`
    /// and no winner; raises a `PollCreated` event. Fails if the contract
    /// is paused or the id is taken.
    pub fn create_poll(&mut self, caller: AccountId, poll_id: PollId, description: String) -> (r:
        Result<(), Error>)
        requires
            old(self).wf(),
        ensures
            final(self).wf(),
            final(self)@ == create_poll_tr(old(self)@, caller, poll_id, description@).0,
            r == create_poll_tr(old(self)@, caller, poll_id, description@).1,
    {
        if self.paused {
            return Err(Error::ContractIsPaused);
        }
        if self.polls.contains(poll_id) {
            return Err(Error::PollWithIdAlreadyExists);
        }
        let poll = Poll {
            description: description.clone(),
            status: PollStatus::NotStarted,
            owner: caller,
            winner: None,
        };
        self.polls.insert(poll_id, poll);
        self.events.push(Event::PollCreated(PollCreated { poll_id, description, owner: caller }));
        proof {
            lemma_create_poll_inv(old(self)@, caller, poll_id, description@);
            assert(self@ =~= create_poll_tr(old(self)@, caller, poll_id, description@).0);
        }
        Ok(())
    }

    /// Adds a choice to a poll that has not started yet; raises a
    /// `ChoiceAdded` event. Only the poll's owner may add choices, and
    /// choice ids must be unique within the poll.
    pub fn add_choice(
        &mut self,
        caller: AccountId,
        poll_id: PollId,
        choice_id: ChoiceId,
        description: String,
    ) -> (r: Result<(), Error>)
        requires
            old(self).wf(),
        ensures
            final(self).wf(),
            final(self)@ == add_choice_tr(old(self)@, caller, poll_id, choice_id, description@).0,
            r == add_choice_tr(old(self)@, caller, poll_id, choice_id, description@).1,
    {
        if self.paused {
            return Err(Error::ContractIsPaused);
        }
        let poll_owner: AccountId;
        let poll_status: PollStatus;
        match self.polls.get(poll_id) {
            None => {
                return Err(Error::PollWithIdDoesNotExist);
            },
            Some(p) => {
                poll_owner = p.owner;
                poll_status = p.status;
            },
        }
        if caller != poll_owner {
            return Err(Error::OnlyOwnerCanAddChoice);
        }
        match poll_status {
            PollStatus::Started => {
                return Err(Error::PollHasStarted);
            },
            PollStatus::Ended => {
                return Err(Error::PollHasEnded);
            },
            PollStatus::NotStarted => {},
        }
        if self.choices.contains((poll_id, choice_id)) {
            return Err(Error::ChoiceWithIdAlreadyExists);
        }
        let mut list: Vec<ChoiceId> = match self.choice_index.get(poll_id) {
            Some(l) => copy_ids(l),
            None => Vec::new(),
        };
        list.push(choice_id);
        self.choices.insert((poll_id, choice_id), Choice { description: description.clone() });
        self.choice_index.insert(poll_id, list);
        self.events.push(
            Event::ChoiceAdded(ChoiceAdded { poll_id, choice_id, description }),
        );
        proof {
            lemma_add_choice_inv(old(self)@, caller, poll_id, choice_id, description@);
            assert(self@ =~= add_choice_tr(old(self)@, caller, poll_id, choice_id, description@).0);
        }
        Ok(())
    }

    /// Starts a poll that has at least one choice; raises a `PollStarted`
    /// event. Only the poll's owner may start it, and only from
    /// `NotStarted`.
    pub fn start_poll(&mut self, caller: AccountId, poll_id: PollId) -> (r: Result<(), Error>)
        requires
            old(self).wf(),
        ensures
            final(self).wf(),
            final(self)@ == start_poll_tr(old(self)@, caller, poll_id).0,
            r == start_poll_tr(old(self)@, caller, poll_id).1,
    {
        if self.paused {
            return Err(Error::ContractIsPaused);
        }
        let poll: Poll = match self.polls.get(poll_id) {
            None => {
                return Err(Error::PollWithIdDoesNotExist);
            },
            Some(p) => p.clone(),
        };
        if caller != poll.owner {
            return Err(Error::OnlyOwnerCanStartPoll);
        }
        match poll.status {
            PollStatus::Started => {
                return Err(Error::PollHasStarted);
            },
            PollStatus::Ended => {
                return Err(Error::PollHasEnded);
            },
            PollStatus::NotStarted => {},
        }
        if !self.choice_index.contains(poll_id) {
            proof {
                assert(!has_choices(old(self)@, poll_id));
            }
            return Err(Error::CannotStartPollWithNoChoices);
        }
        proof {
            assert(has_choices(old(self)@, poll_id));
        }
        let updated = Poll {
            description: poll.description,
            status: PollStatus::Started,
            owner: poll.owner,
            winner: poll.winner,
        };
        self.polls.insert(poll_id, updated);
        self.events.push(Event::PollStarted(PollStarted { poll_id }));
        proof {
            lemma_start_poll_inv(old(self)@, caller, poll_id);
            assert(self@ =~= start_poll_tr(old(self)@, caller, poll_id).0);
        }
        Ok(())
    }

    /// The vote count recorded for a choice; zero when none is recorded.
    fn tally_value(&self, poll_id: PollId, choice_id: ChoiceId) -> (r: u64)
        requires
            self.tallies.wf(),
        ensures
            r == tally_of(self@, poll_id, choice_id),
    {
        match self.tallies.get((poll_id, choice_id)) {
            Some(t) => *t,
            None => 0,
        }
    }

    /// Whether `voter` has an accepted vote on `poll_id`.
    fn scan_voted(&self, poll_id: PollId, voter: AccountId) -> (r: bool)
        requires
            self.voted_by@.len() == self.ballots@.len(),
            forall|i: int|
                0 <= i < self.ballots@.len() ==> (#[trigger] self.voted_by@[i]).0
                    == self.ballots@[i].poll_id && self.voted_by@[i].1 == self.ballots@[i].voter,
        ensures
            r == has_voted(self@, poll_id, voter),
    {
        let mut i: usize = 0;
        while i < self.voted_by.len()
            invariant
                self.voted_by@.len() == self.ballots@.len(),
                forall|k: int|
                    0 <= k < self.ballots@.len() ==> (#[trigger] self.voted_by@[k]).0
                        == self.ballots@[k].poll_id && self.voted_by@[k].1
                        == self.ballots@[k].voter,
                i <= self.voted_by@.len(),
                forall|j: int|
                    0 <= j < i ==> !((#[trigger] self.ballots@[j]).poll_id == poll_id
                        && self.ballots@[j].voter == voter),
            decreases self.voted_by@.len() - i,
        {
            let e = self.voted_by[i];
            if e.0 == poll_id && e.1 == voter {
                return true;
            }
            i = i + 1;
        }
        false
    }

    /// Casts the caller's vote for a choice of a started poll: raises the
    /// choice's tally by exactly one and records the caller in the vote
    /// ledger. A principal can vote at most once per poll. No event is
    /// raised; tallies stay private until reported.
    pub fn vote(&mut self, caller: AccountId, poll_id: PollId, choice_id: ChoiceId) -> (r: Result<
        (),
        Error,
    >)
        requires
            old(self).wf(),
        ensures
            final(self).wf(),
            final(self)@ == vote_tr(old(self)@, caller, poll_id, choice_id).0,
            r == vote_tr(old(self)@, caller, poll_id, choice_id).1,
    {
        if self.paused {
            return Err(Error::ContractIsPaused);
        }
        let poll_status: PollStatus;
        match self.polls.get(poll_id) {
            None => {
                return Err(Error::PollWithIdDoesNotExist);
            },
            Some(p) => {
                poll_status = p.status;
            },
        }
        match poll_status {
            PollStatus::NotStarted => {
                return Err(Error::PollHasNotStarted);
            },
            PollStatus::Ended => {
                return Err(Error::PollHasEnded);
            },
            PollStatus::Started => {},
        }
        if !self.choices.contains((poll_id, choice_id)) {
            return Err(Error::ChoiceWithIdDoesNotExist);
        }
        if self.scan_voted(poll_id, caller) {
            return Err(Error::CallerAlreadyVotedOnPoll);
        }
        let current = self.tally_value(poll_id, choice_id);
        self.voted_by.push((poll_id, caller));
        let ghost b = Ballot { poll_id, voter: caller, choice_id };
        proof {
            self.ballots@ = old(self).ballots@.push(b);
        }
        let n = self.voted_by.len();
        proof {
            lemma_count_votes_le_len(old(self)@.ballots, poll_id, choice_id);
            assert(current < u64::MAX);
        }
        self.tallies.insert((poll_id, choice_id), current + 1);
        proof {
            lemma_vote_inv(old(self)@, caller, poll_id, choice_id);
            assert(self@ =~= vote_tr(old(self)@, caller, poll_id, choice_id).0);
        }
        Ok(())
    }

    /// The winner of a poll under the strict-majority rule: the choice
    /// with the strictly highest tally, or none when two or more choices
    /// tie for the highest tally (or the poll has no choices).
    fn compute_winner(&self, poll_id: PollId) -> (r: Option<ChoiceId>)
        requires
            self.wf(),
        ensures
            r == winner_of(self@, poll_id),
    {
        let list: &Vec<ChoiceId> = match self.choice_index.get(poll_id) {
            None => {
                proof {
                    assert(choice_list(self@, poll_id) =~= Seq::<ChoiceId>::empty());
                }
                return None;
            },
            Some(l) => l,
        };
        let mut best_k: usize = 0;
        let mut best_t: u64 = self.tally_value(poll_id, list[0]);
        let mut tie: bool = false;
        let mut k: usize = 1;
        while k < list.len()
            invariant
                self.wf(),
                self@.choice_index.contains_key(poll_id),
                list@ == choice_list(self@, poll_id),
                1 <= k <= list@.len(),
                best_k < k,
                best_t == tally_of(self@, poll_id, list@[best_k as int]),
                forall|j: int|
                    0 <= j < k ==> #[trigger] tally_of(self@, poll_id, list@[j]) <= best_t,
                !tie ==> forall|j: int|
                    0 <= j < k && j != best_k ==> #[trigger] tally_of(self@, poll_id, list@[j])
                        < best_t,
                tie ==> exists|j: int|
                    0 <= j < k && j != best_k && #[trigger] tally_of(self@, poll_id, list@[j])
                        == best_t,
            decreases list@.len() - k,
        {
            let t = self.tally_value(poll_id, list[k]);
            if t > best_t {
                best_k = k;
                best_t = t;
                tie = false;
            } else if t == best_t {
                tie = true;
            }
            k = k + 1;
        }
        proof {
            let csl = choice_list(self@, poll_id);
            if tie {
                let j0 = choose|j: int|
                    0 <= j < csl.len() && j != best_k && tally_of(self@, poll_id, csl[j]) == best_t;
                assert forall|i: int| 0 <= i < csl.len() implies !leads_all(
                    self@,
                    poll_id,
                    i,
                ) by {
                    if leads_all(self@, poll_id, i) {
                        if i == best_k as int {
                            assert(tally_of(self@, poll_id, csl[j0]) < tally_of(
                                self@,
                                poll_id,
                                csl[i],
                            ));
                        } else {
                            assert(tally_of(self@, poll_id, csl[best_k as int]) < tally_of(
                                self@,
                                poll_id,
                                csl[i],
                            ));
                            assert(tally_of(self@, poll_id, csl[i]) <= best_t);
                        }
                    }
                }
                assert(winner_of(self@, poll_id) is None);
            } else {
                assert forall|j: int| 0 <= j < csl.len() && j != best_k as int implies tally_of(
                    self@,
                    poll_id,
                    csl[j],
                ) < tally_of(self@, poll_id, csl[best_k as int]) by {
                    assert(tally_of(self@, poll_id, list@[j]) < best_t);
                }
                assert(leads_all(self@, poll_id, best_k as int));
                let i0 = choose|i: int|
                    0 <= i < choice_list(self@, poll_id).len() && #[trigger] leads_all(
                        self@,
                        poll_id,
                        i,
                    );
                if i0 != best_k as int {
                    assert(tally_of(self@, poll_id, csl[best_k as int]) < tally_of(
                        self@,
                        poll_id,
                        csl[i0],
                    ));
                    assert(tally_of(self@, poll_id, csl[i0]) < tally_of(
                        self@,
                        poll_id,
                        csl[best_k as int],
                    ));
                }
                assert(winner_of(self@, poll_id) == Some(csl[best_k as int]));
            }
        }
        if tie {
            None
        } else {
            Some(list[best_k])
        }
    }

    /// Ends a started poll: computes the winner from the tallies at this
    /// moment, records it, and raises a `PollEnded` event carrying it.
    /// Only the poll's owner may end it.
    pub fn end_poll(&mut self, caller: AccountId, poll_id: PollId) -> (r: Result<(), Error>)
        requires
            old(self).wf(),
        ensures
            final(self).wf(),
            final(self)@ == end_poll_tr(old(self)@, caller, poll_id).0,
            r == end_poll_tr(old(self)@, caller, poll_id).1,
    {
        if self.paused {
            return Err(Error::ContractIsPaused);
        }
        let poll: Poll = match self.polls.get(poll_id) {
            None => {
                return Err(Error::PollWithIdDoesNotExist);
            },
            Some(p) => p.clone(),
        };
        if caller != poll.owner {
            return Err(Error::OnlyOwnerCanEndPoll);
        }
        match poll.status {
            PollStatus::Ended => {
                return Err(Error::PollHasEnded);
            },
            PollStatus::NotStarted => {
                return Err(Error::PollHasNotStarted);
            },
            PollStatus::Started => {},
        }
        let winner = self.compute_winner(poll_id);
        let updated = Poll {
            description: poll.description,
            status: PollStatus::Ended,
            owner: poll.owner,
            winner,
        };
        self.polls.insert(poll_id, updated);
        self.events.push(Event::PollEnded(PollEnded { poll_id, winner }));
        proof {
            lemma_end_poll_inv(old(self)@, caller, poll_id);
            assert(self@ =~= end_poll_tr(old(self)@, caller, poll_id).0);
        }
        Ok(())
    }

    /// All choices of a poll, as `(id, choice)` pairs in the order they
    /// were added. A poll without choices — or an absent poll — yields an
    /// empty vector; this read never fails.
    pub fn get_choices(&self, poll_id: PollId) -> (r: Vec<(ChoiceId, Choice)>)
        requires
            self.wf(),
        ensures
            r@.map_values(|t: (ChoiceId, Choice)| (t.0, t.1@)) == choices_of(self@, poll_id),
    {
        let mut r: Vec<(ChoiceId, Choice)> = Vec::new();
        let list: &Vec<ChoiceId> = match self.choice_index.get(poll_id) {
            None => {
                proof {
                    assert(r@.map_values(|t: (ChoiceId, Choice)| (t.0, t.1@)) =~= choices_of(
                        self@,
                        poll_id,
                    ));
                }
                return r;
            },
            Some(l) => l,
        };
        let mut k: usize = 0;
        while k < list.len()
            invariant
                self.wf(),
                self@.choice_index.contains_key(poll_id),
                list@ == choice_list(self@, poll_id),
                k <= list@.len(),
                r@.len() == k,
                forall|i: int|
                    0 <= i < k ==> (#[trigger] r@[i]).0 == list@[i] && r@[i].1@
                        == self@.choices[(poll_id, list@[i])],
            decreases list@.len() - k,
        {
            let c = list[k];
            proof {
                assert(choice_list(self@, poll_id)[k as int] == c);
                assert(choice_list(self@, poll_id).contains(c));
            }
            let item: Choice = match self.choices.get((poll_id, c)) {
                Some(ch) => ch.clone(),
                None => unreached(),
            };
            r.push((c, item));
            k = k + 1;
        }
        proof {
            assert(r@.map_values(|t: (ChoiceId, Choice)| (t.0, t.1@)) =~= choices_of(
                self@,
                poll_id,
            ));
        }
        r
    }

    /// A snapshot of a poll: its fields and, in registry order, each of
    /// its choices with the current tally. Fails only when the poll does
    /// not exist.
    pub fn get_report(&self, poll_id: PollId) -> (r: Result<PollReport, Error>)
        requires
            self.wf(),
        ensures
            report_result(r) == report_of(self@, poll_id),
    {
        let poll: Poll = match self.polls.get(poll_id) {
            None => {
                return Err(Error::PollWithIdDoesNotExist);
            },
            Some(p) => p.clone(),
        };
        let mut creports: Vec<ChoiceReport> = Vec::new();
        match self.choice_index.get(poll_id) {
            None => {},
            Some(list) => {
                let mut k: usize = 0;
                while k < list.len()
                    invariant
                        self.wf(),
                        self@.choice_index.contains_key(poll_id),
                        list@ == choice_list(self@, poll_id),
                        k <= list@.len(),
                        creports@.len() == k,
                        forall|i: int|
                            0 <= i < k ==> (#[trigger] creports@[i]).id == list@[i]
                                && creports@[i].description@
                                == self@.choices[(poll_id, list@[i])]
                                && creports@[i].vote_count == tally_of(
                                self@,
                                poll_id,
                                list@[i],
                            ),
                    decreases list@.len() - k,
                {
                    let c = list[k];
                    proof {
                        assert(choice_list(self@, poll_id)[k as int] == c);
                        assert(choice_list(self@, poll_id).contains(c));
                    }
                    let item: Choice = match self.choices.get((poll_id, c)) {
                        Some(ch) => ch.clone(),
                        None => unreached(),
                    };
                    let vote_count = self.tally_value(poll_id, c);
                    creports.push(
                        ChoiceReport { id: c, description: item.description, vote_count },
                    );
                    k = k + 1;
                }
            },
        }
        let report = PollReport {
            id: poll_id,
            description: poll.description,
            status: poll.status,
            owner: poll.owner,
            choices: creports,
            winner: poll.winner,
        };
        proof {
            let expected = match report_of(self@, poll_id) {
                Ok(v) => v,
                Err(_) => report@,
            };
            assert(report@.choices =~= expected.choices);
            assert(report@ =~= expected);
        }
        Ok(report)
    }

    /// The current admin.
    pub fn admin(&self) -> (r: AccountId)
        ensures
            r == self@.admin,
    {
        self.admin
    }

    /// Whether the contract is paused.
    pub fn is_paused(&self) -> (r: bool)
        ensures
            r == self@.paused,
    {
        self.paused
    }

    /// Whether `voter` has an accepted vote on `poll_id`.
    pub fn has_voted(&self, poll_id: PollId, voter: AccountId) -> (r: bool)
        requires
            self.wf(),
        ensures
            r == has_voted(self@, poll_id, voter),
    {
        self.scan_voted(poll_id, voter)
    }

    /// The vote count recorded for a choice; zero when none is recorded.
    pub fn get_tally(&self, poll_id: PollId, choice_id: ChoiceId) -> (r: u64)
        requires
            self.wf(),
        ensures
            r == tally_of(self@, poll_id, choice_id),
    {
        self.tally_value(poll_id, choice_id)
    }

    /// The events raised so far, oldest first, for the host to drain.
    pub fn event_log(&self) -> (r: &Vec<Event>)
        ensures
            r@.map_values(|e: Event| e@) == self@.events,
    {
        &self.events
    }

    /// A well-formed contract's state satisfies the model invariant.
    pub proof fn lemma_wf_state_inv(&self)
        requires
            self.wf(),
        ensures
            state_inv(self@),
    {
    }
}

} // verus!
