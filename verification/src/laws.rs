//! The library's global guarantees, stated and proved as theorems over
//! the transition functions and the contract invariant.

use vstd::prelude::*;
use crate::account::AccountId;
use crate::contract::VotingContract;
use crate::errors::Error;
use crate::inv::{one_ballot_per_voter, state_inv};
use crate::model::{
    add_choice_tr, choices_of, count_votes, create_poll_tr, end_poll_tr, has_choices, has_voted,
    pause_tr, report_of, start_poll_tr, tally_of, unpause_tr, vote_tr, StateView,
};
use crate::poll::{ChoiceId, PollId};
use crate::report::PollReportView;

verus! {

/// Creating a poll and then creating another with the same id always
/// fails with `PollWithIdAlreadyExists`, leaves the state untouched, and
/// the poll keeps the first call's description and owner.
pub proof fn lemma_create_poll_twice(
    s: StateView,
    caller1: AccountId,
    caller2: AccountId,
    poll_id: PollId,
    d1: Seq<char>,
    d2: Seq<char>,
)
    requires
        create_poll_tr(s, caller1, poll_id, d1).1 is Ok,
    ensures
        ({
            let s1 = create_poll_tr(s, caller1, poll_id, d1).0;
            let (s2, r2) = create_poll_tr(s1, caller2, poll_id, d2);
            &&& r2 == Err::<(), Error>(Error::PollWithIdAlreadyExists)
            &&& s2 == s1
            &&& s1.polls[poll_id].description == d1
            &&& s1.polls[poll_id].owner == caller1
        }),
{
}

/// A poll with zero choices can never be started: `start_poll` leaves the
/// state untouched, and when every other precondition is met it fails
/// precisely with `CannotStartPollWithNoChoices`.
pub proof fn lemma_start_poll_needs_choices(s: StateView, caller: AccountId, poll_id: PollId)
    requires
        !has_choices(s, poll_id),
    ensures
        !(start_poll_tr(s, caller, poll_id).1 is Ok),
        start_poll_tr(s, caller, poll_id).0 == s,
        (!s.paused && s.polls.contains_key(poll_id) && caller == s.polls[poll_id].owner
            && s.polls[poll_id].status is NotStarted) ==> start_poll_tr(s, caller, poll_id).1
            == Err::<(), Error>(Error::CannotStartPollWithNoChoices),
{
}

/// Once a choice has been added, the owner can start the poll — and
/// exactly once: the second `start_poll` fails with `PollHasStarted` and
/// changes nothing.
pub proof fn lemma_start_poll_exactly_once(
    s: StateView,
    caller: AccountId,
    poll_id: PollId,
    choice_id: ChoiceId,
    d: Seq<char>,
)
    requires
        add_choice_tr(s, caller, poll_id, choice_id, d).1 is Ok,
    ensures
        ({
            let s1 = add_choice_tr(s, caller, poll_id, choice_id, d).0;
            let (s2, r2) = start_poll_tr(s1, caller, poll_id);
            &&& r2 is Ok
            &&& start_poll_tr(s2, caller, poll_id).1 == Err::<(), Error>(Error::PollHasStarted)
            &&& start_poll_tr(s2, caller, poll_id).0 == s2
        }),
{
    let s1 = add_choice_tr(s, caller, poll_id, choice_id, d).0;
    assert(s1.choice_index.contains_key(poll_id));
    assert(s1.choice_index[poll_id].len() >= 1);
}

/// A principal casts at most one vote per poll: after an accepted vote,
/// a second `vote` by the same caller on the same poll — for any existing
/// choice — fails with `CallerAlreadyVotedOnPoll` and leaves the state,
/// tallies included, untouched.
pub proof fn lemma_one_vote_per_principal(
    s: StateView,
    caller: AccountId,
    poll_id: PollId,
    c1: ChoiceId,
    c2: ChoiceId,
)
    requires
        vote_tr(s, caller, poll_id, c1).1 is Ok,
        s.choices.contains_key((poll_id, c2)),
    ensures
        ({
            let s1 = vote_tr(s, caller, poll_id, c1).0;
            let (s2, r2) = vote_tr(s1, caller, poll_id, c2);
            &&& r2 == Err::<(), Error>(Error::CallerAlreadyVotedOnPoll)
            &&& s2 == s1
        }),
{
    let s1 = vote_tr(s, caller, poll_id, c1).0;
    assert(s1.ballots[s.ballots.len() as int].poll_id == poll_id);
    assert(has_voted(s1, poll_id, caller));
}

/// Tally correctness: in every reachable state, the tally recorded for a
/// choice equals the number of accepted ballots cast for it, and no
/// principal has more than one accepted ballot per poll — so every tally
/// counts distinct voters. `get_report` reports these tallies verbatim.
pub proof fn lemma_tallies_count_distinct_voters(c: &VotingContract)
    requires
        c.wf(),
    ensures
        forall|p: PollId, ch: ChoiceId| #![trigger tally_of(c@, p, ch)]
            tally_of(c@, p, ch) == count_votes(c@.ballots, p, ch),
        one_ballot_per_voter(c@.ballots),
{
    c.lemma_wf_state_inv();
}

/// While paused, every mutating poll, choice and vote operation fails
/// with `ContractIsPaused` and changes nothing.
pub proof fn lemma_pause_blocks_mutators(
    s: StateView,
    caller: AccountId,
    poll_id: PollId,
    choice_id: ChoiceId,
    d: Seq<char>,
)
    requires
        s.paused,
    ensures
        create_poll_tr(s, caller, poll_id, d) == (s, Err::<(), Error>(Error::ContractIsPaused)),
        add_choice_tr(s, caller, poll_id, choice_id, d) == (
            s,
            Err::<(), Error>(Error::ContractIsPaused),
        ),
        start_poll_tr(s, caller, poll_id) == (s, Err::<(), Error>(Error::ContractIsPaused)),
        end_poll_tr(s, caller, poll_id) == (s, Err::<(), Error>(Error::ContractIsPaused)),
        vote_tr(s, caller, poll_id, choice_id) == (s, Err::<(), Error>(Error::ContractIsPaused)),
{
}

/// Pausing changes no poll, choice or tally data: both reads return the
/// same answers as before, and a subsequent `unpause` by the admin
/// restores the state but for the pause flag itself.
pub proof fn lemma_pause_preserves_reads(s: StateView, caller: AccountId, poll_id: PollId)
    requires
        caller == s.admin,
    ensures
        ({
            let s1 = pause_tr(s, caller).0;
            &&& pause_tr(s, caller).1 is Ok
            &&& choices_of(s1, poll_id) == choices_of(s, poll_id)
            &&& report_of(s1, poll_id) == report_of(s, poll_id)
            &&& unpause_tr(s1, caller).1 is Ok
            &&& unpause_tr(s1, caller).0 == (StateView { paused: false, ..s })
        }),
{
    let s1 = pause_tr(s, caller).0;
    assert(choices_of(s1, poll_id) =~= choices_of(s, poll_id));
    if report_of(s1, poll_id) is Ok {
        assert((report_of(s1, poll_id) ->Ok_0).choices =~= (report_of(s, poll_id)->Ok_0).choices);
        assert(report_of(s1, poll_id)->Ok_0 =~= report_of(s, poll_id)->Ok_0);
    }
}

/// Reads never fail on a missing poll the same way: `get_report` on a
/// never-created poll id fails with `PollWithIdDoesNotExist`, while
/// `get_choices` on the same id returns the empty sequence.
pub proof fn lemma_reads_on_absent_poll(s: StateView, poll_id: PollId)
    requires
        state_inv(s),
        !s.polls.contains_key(poll_id),
    ensures
        report_of(s, poll_id) == Err::<PollReportView, Error>(Error::PollWithIdDoesNotExist),
        choices_of(s, poll_id) == Seq::<(ChoiceId, Seq<char>)>::empty(),
{
    assert(!s.choice_index.contains_key(poll_id));
    assert(choices_of(s, poll_id) =~= Seq::<(ChoiceId, Seq<char>)>::empty());
}

} // verus!
