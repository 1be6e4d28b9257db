//! The mathematical model of the contract state and of every operation.
//!
//! A [`StateView`] holds the five keyed stores and the two process-wide
//! scalars as mathematical maps and values, together with two histories:
//! the ballots accepted so far and the events raised so far. For every
//! operation there is a transition function here that maps the state before
//! the call to the state after it and to the operation's result; the
//! executable operations ensure that they return exactly what their
//! transition function says.

use vstd::prelude::*;
use crate::account::AccountId;
use crate::errors::Error;
use crate::events::EventView;
use crate::poll::{ChoiceId, PollId, PollStatus, PollView};
use crate::report::{ChoiceReportView, PollReportView};

verus! {

/// One accepted vote: who voted on which poll, and for which choice.
pub ghost struct Ballot {
    pub poll_id: PollId,
    pub voter: AccountId,
    pub choice_id: ChoiceId,
}

/// The whole contract state as a mathematical value.
#[verifier::ext_equal]
pub ghost struct StateView {
    /// All polls, keyed by poll id.
    pub polls: Map<PollId, PollView>,
    /// All choices, keyed by poll id and choice id; the value is the
    /// choice's description.
    pub choices: Map<(PollId, ChoiceId), Seq<char>>,
    /// For each poll that has at least one choice, the choice ids in the
    /// order they were added.
    pub choice_index: Map<PollId, Seq<ChoiceId>>,
    /// Vote counts, keyed by poll id and choice id; keys absent from this
    /// map count as zero.
    pub tallies: Map<(PollId, ChoiceId), u64>,
    /// The single process-wide admin.
    pub admin: AccountId,
    /// Whether all mutating poll, choice and vote operations are rejected.
    pub paused: bool,
    /// Every accepted vote, in order of acceptance.
    pub ballots: Seq<Ballot>,
    /// Every event raised, in order.
    pub events: Seq<EventView>,
}

/// The state of a freshly deployed contract: empty stores, the deploying
/// principal as admin, not paused.
pub open spec fn init_state(admin: AccountId) -> StateView {
    StateView {
        polls: Map::empty(),
        choices: Map::empty(),
        choice_index: Map::empty(),
        tallies: Map::empty(),
        admin,
        paused: false,
        ballots: Seq::empty(),
        events: Seq::empty(),
    }
}

/// The vote count recorded under a key of a tally map; zero when the key
/// is absent.
pub open spec fn tally_lookup(
    tallies: Map<(PollId, ChoiceId), u64>,
    poll_id: PollId,
    choice_id: ChoiceId,
) -> u64 {
    if tallies.contains_key((poll_id, choice_id)) {
        tallies[(poll_id, choice_id)]
    } else {
        0
    }
}

/// The vote count recorded for a choice; zero when no vote was recorded.
pub open spec fn tally_of(s: StateView, poll_id: PollId, choice_id: ChoiceId) -> u64 {
    tally_lookup(s.tallies, poll_id, choice_id)
}

/// Whether `voter` cast one of the ballots in `ballots` on `poll_id`.
pub open spec fn voted(ballots: Seq<Ballot>, poll_id: PollId, voter: AccountId) -> bool {
    exists|i: int|
        0 <= i < ballots.len() && (#[trigger] ballots[i]).poll_id == poll_id
            && ballots[i].voter == voter
}

/// Whether `voter` has an accepted vote on `poll_id`.
pub open spec fn has_voted(s: StateView, poll_id: PollId, voter: AccountId) -> bool {
    voted(s.ballots, poll_id, voter)
}

/// The choice ids recorded under a key of a choice-index map; empty when
/// the key is absent.
pub open spec fn list_lookup(index: Map<PollId, Seq<ChoiceId>>, poll_id: PollId) -> Seq<
    ChoiceId,
> {
    if index.contains_key(poll_id) {
        index[poll_id]
    } else {
        Seq::empty()
    }
}

/// The poll's choice ids in insertion order; empty for a poll without
/// choices (or an absent poll).
pub open spec fn choice_list(s: StateView, poll_id: PollId) -> Seq<ChoiceId> {
    list_lookup(s.choice_index, poll_id)
}

/// Whether the poll has at least one choice.
pub open spec fn has_choices(s: StateView, poll_id: PollId) -> bool {
    choice_list(s, poll_id).len() > 0
}

/// How many of the ballots in `ballots` were cast on `poll_id` for
/// `choice_id`.
pub open spec fn count_votes(ballots: Seq<Ballot>, poll_id: PollId, choice_id: ChoiceId) -> nat
    decreases ballots.len(),
{
    if ballots.len() == 0 {
        0
    } else {
        count_votes(ballots.drop_last(), poll_id, choice_id) + (
        if ballots.last().poll_id == poll_id && ballots.last().choice_id == choice_id {
            1nat
        } else {
            0nat
        })
    }
}

/// Whether the choice at position `i` of the poll's choice list has a
/// strictly higher tally than every other position.
pub open spec fn leads_all(s: StateView, poll_id: PollId, i: int) -> bool {
    forall|j: int|
        0 <= j < choice_list(s, poll_id).len() && j != i
            ==> #[trigger] tally_of(s, poll_id, choice_list(s, poll_id)[j]) < tally_of(
            s,
            poll_id,
            choice_list(s, poll_id)[i],
        )
}

/// The winner of the poll under the strict-majority rule: the choice with
/// the strictly highest tally, or no winner when two or more choices tie
/// for the highest tally (or the poll has no choices).
pub open spec fn winner_of(s: StateView, poll_id: PollId) -> Option<ChoiceId> {
    if exists|i: int|
        0 <= i < choice_list(s, poll_id).len() && #[trigger] leads_all(s, poll_id, i) {
        Some(
            choice_list(s, poll_id)[choose|i: int|
                0 <= i < choice_list(s, poll_id).len() && #[trigger] leads_all(s, poll_id, i)],
        )
    } else {
        None
    }
}

/// Transition of `create_poll`.
pub open spec fn create_poll_tr(
    s: StateView,
    caller: AccountId,
    poll_id: PollId,
    description: Seq<char>,
) -> (StateView, Result<(), Error>) {
    if s.paused {
        (s, Err(Error::ContractIsPaused))
    } else if s.polls.contains_key(poll_id) {
        (s, Err(Error::PollWithIdAlreadyExists))
    } else {
        let poll = PollView {
            description,
            status: PollStatus::NotStarted,
            owner: caller,
            winner: None,
        };
        let ev = EventView::PollCreated { poll_id, description, owner: caller };
        (
            StateView { polls: s.polls.insert(poll_id, poll), events: s.events.push(ev), ..s },
            Ok(()),
        )
    }
}

/// Transition of `add_choice`.
pub open spec fn add_choice_tr(
    s: StateView,
    caller: AccountId,
    poll_id: PollId,
    choice_id: ChoiceId,
    description: Seq<char>,
) -> (StateView, Result<(), Error>) {
    if s.paused {
        (s, Err(Error::ContractIsPaused))
    } else if !s.polls.contains_key(poll_id) {
        (s, Err(Error::PollWithIdDoesNotExist))
    } else if caller != s.polls[poll_id].owner {
        (s, Err(Error::OnlyOwnerCanAddChoice))
    } else if s.polls[poll_id].status is Started {
        (s, Err(Error::PollHasStarted))
    } else if s.polls[poll_id].status is Ended {
        (s, Err(Error::PollHasEnded))
    } else if s.choices.contains_key((poll_id, choice_id)) {
        (s, Err(Error::ChoiceWithIdAlreadyExists))
    } else {
        let ev = EventView::ChoiceAdded { poll_id, choice_id, description };
        (
            StateView {
                choices: s.choices.insert((poll_id, choice_id), description),
                choice_index: s.choice_index.insert(
                    poll_id,
                    choice_list(s, poll_id).push(choice_id),
                ),
                events: s.events.push(ev),
                ..s
            },
            Ok(()),
        )
    }
}

/// Transition of `start_poll`.
pub open spec fn start_poll_tr(s: StateView, caller: AccountId, poll_id: PollId) -> (
    StateView,
    Result<(), Error>,
) {
    if s.paused {
        (s, Err(Error::ContractIsPaused))
    } else if !s.polls.contains_key(poll_id) {
        (s, Err(Error::PollWithIdDoesNotExist))
    } else if caller != s.polls[poll_id].owner {
        (s, Err(Error::OnlyOwnerCanStartPoll))
    } else if s.polls[poll_id].status is Started {
        (s, Err(Error::PollHasStarted))
    } else if s.polls[poll_id].status is Ended {
        (s, Err(Error::PollHasEnded))
    } else if !has_choices(s, poll_id) {
        (s, Err(Error::CannotStartPollWithNoChoices))
    } else {
        let poll = PollView { status: PollStatus::Started, ..s.polls[poll_id] };
        let ev = EventView::PollStarted { poll_id };
        (
            StateView { polls: s.polls.insert(poll_id, poll), events: s.events.push(ev), ..s },
            Ok(()),
        )
    }
}

/// Transition of `end_poll`: the winner is computed from the tallies at
/// the moment the poll ends and recorded in the poll.
pub open spec fn end_poll_tr(s: StateView, caller: AccountId, poll_id: PollId) -> (
    StateView,
    Result<(), Error>,
) {
    if s.paused {
        (s, Err(Error::ContractIsPaused))
    } else if !s.polls.contains_key(poll_id) {
        (s, Err(Error::PollWithIdDoesNotExist))
    } else if caller != s.polls[poll_id].owner {
        (s, Err(Error::OnlyOwnerCanEndPoll))
    } else if s.polls[poll_id].status is Ended {
        (s, Err(Error::PollHasEnded))
    } else if s.polls[poll_id].status is NotStarted {
        (s, Err(Error::PollHasNotStarted))
    } else {
        let winner = winner_of(s, poll_id);
        let poll = PollView { status: PollStatus::Ended, winner, ..s.polls[poll_id] };
        let ev = EventView::PollEnded { poll_id, winner };
        (
            StateView { polls: s.polls.insert(poll_id, poll), events: s.events.push(ev), ..s },
            Ok(()),
        )
    }
}

/// Transition of `vote`.
///
/// The increment is written with a truncating cast so that the function is
/// total; in a reachable state the tally equals the number of ballots,
/// which the vote ledger bounds below the cap, so the cast never truncates.
pub open spec fn vote_tr(s: StateView, caller: AccountId, poll_id: PollId, choice_id: ChoiceId)
    -> (StateView, Result<(), Error>) {
    if s.paused {
        (s, Err(Error::ContractIsPaused))
    } else if !s.polls.contains_key(poll_id) {
        (s, Err(Error::PollWithIdDoesNotExist))
    } else if s.polls[poll_id].status is NotStarted {
        (s, Err(Error::PollHasNotStarted))
    } else if s.polls[poll_id].status is Ended {
        (s, Err(Error::PollHasEnded))
    } else if !s.choices.contains_key((poll_id, choice_id)) {
        (s, Err(Error::ChoiceWithIdDoesNotExist))
    } else if has_voted(s, poll_id, caller) {
        (s, Err(Error::CallerAlreadyVotedOnPoll))
    } else {
        let ballot = Ballot { poll_id, voter: caller, choice_id };
        (
            StateView {
                tallies: s.tallies.insert(
                    (poll_id, choice_id),
                    (tally_of(s, poll_id, choice_id) + 1) as u64,
                ),
                ballots: s.ballots.push(ballot),
                ..s
            },
            Ok(()),
        )
    }
}

/// Transition of `pause`.
pub open spec fn pause_tr(s: StateView, caller: AccountId) -> (StateView, Result<(), Error>) {
    if caller != s.admin {
        (s, Err(Error::CallerIsNotAdmin))
    } else {
        (StateView { paused: true, ..s }, Ok(()))
    }
}

/// Transition of `unpause`.
pub open spec fn unpause_tr(s: StateView, caller: AccountId) -> (StateView, Result<(), Error>) {
    if caller != s.admin {
        (s, Err(Error::CallerIsNotAdmin))
    } else {
        (StateView { paused: false, ..s }, Ok(()))
    }
}

/// Transition of `change_admin`.
pub open spec fn change_admin_tr(s: StateView, caller: AccountId, new_admin: AccountId) -> (
    StateView,
    Result<(), Error>,
) {
    if caller != s.admin {
        (s, Err(Error::CallerIsNotAdmin))
    } else {
        (StateView { admin: new_admin, ..s }, Ok(()))
    }
}

/// Result of `set_code`: the code hash to hand to the host's upgrade
/// mechanism, or the authorization error.
pub open spec fn set_code_auth(s: StateView, caller: AccountId, code_hash: [u8; 32]) -> Result<
    [u8; 32],
    Error,
> {
    if caller != s.admin {
        Err(Error::CallerIsNotAdmin)
    } else {
        Ok(code_hash)
    }
}

/// What `get_choices` returns: for each choice of the poll in registry
/// order, its id and its description. Empty for an absent poll.
pub open spec fn choices_of(s: StateView, poll_id: PollId) -> Seq<(ChoiceId, Seq<char>)> {
    choice_list(s, poll_id).map(|i: int, c: ChoiceId| (c, s.choices[(poll_id, c)]))
}

/// What `get_report` returns: the poll's fields and, in registry order,
/// each choice with its current tally.
pub open spec fn report_of(s: StateView, poll_id: PollId) -> Result<PollReportView, Error> {
    if !s.polls.contains_key(poll_id) {
        Err(Error::PollWithIdDoesNotExist)
    } else {
        Ok(
            PollReportView {
                id: poll_id,
                description: s.polls[poll_id].description,
                status: s.polls[poll_id].status,
                owner: s.polls[poll_id].owner,
                choices: choice_list(s, poll_id).map(
                    |i: int, c: ChoiceId|
                        ChoiceReportView {
                            id: c,
                            description: s.choices[(poll_id, c)],
                            vote_count: tally_of(s, poll_id, c),
                        },
                ),
                winner: s.polls[poll_id].winner,
            },
        )
    }
}

} // verus!
