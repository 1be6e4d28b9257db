//! The invariant that every reachable contract state satisfies, and its
//! preservation by every transition.

use vstd::prelude::*;
use crate::account::AccountId;
use crate::model::{
    add_choice_tr, change_admin_tr, count_votes, create_poll_tr, end_poll_tr, list_lookup,
    pause_tr, start_poll_tr, tally_lookup, unpause_tr, vote_tr, voted, Ballot, StateView,
};
use crate::poll::{ChoiceId, PollId, PollView};

verus! {

/// A tally is recorded only for a choice that exists.
pub open spec fn tallies_in_choices(
    tallies: Map<(PollId, ChoiceId), u64>,
    choices: Map<(PollId, ChoiceId), Seq<char>>,
) -> bool {
    forall|k: (PollId, ChoiceId)| #[trigger] tallies.contains_key(k) ==> choices.contains_key(k)
}

/// Every tally equals the number of ballots cast for its choice.
pub open spec fn tallies_count_ballots(
    tallies: Map<(PollId, ChoiceId), u64>,
    ballots: Seq<Ballot>,
) -> bool {
    forall|p: PollId, c: ChoiceId|
        #![trigger tally_lookup(tallies, p, c)]
        #![trigger count_votes(ballots, p, c)]
        tally_lookup(tallies, p, c) == count_votes(ballots, p, c)
}

/// No principal appears twice among the ballots of one poll.
pub open spec fn one_ballot_per_voter(ballots: Seq<Ballot>) -> bool {
    forall|i: int, j: int|
        #![trigger ballots[i], ballots[j]]
        0 <= i < j < ballots.len() && ballots[i].poll_id == ballots[j].poll_id
            ==> ballots[i].voter != ballots[j].voter
}

/// Every ballot was cast for a choice that exists.
pub open spec fn ballots_in_choices(
    ballots: Seq<Ballot>,
    choices: Map<(PollId, ChoiceId), Seq<char>>,
) -> bool {
    forall|i: int|
        0 <= i < ballots.len() ==> choices.contains_key(
            ((#[trigger] ballots[i]).poll_id, ballots[i].choice_id),
        )
}

/// No choice id appears twice in one poll's choice list.
pub open spec fn distinct_ids(ids: Seq<ChoiceId>) -> bool {
    forall|i: int, j: int| #![trigger ids[i], ids[j]] 0 <= i < j < ids.len() ==> ids[i] != ids[j]
}

/// Every recorded choice list is non-empty, has no duplicate ids, and
/// belongs to a poll that exists.
pub open spec fn index_ok(index: Map<PollId, Seq<ChoiceId>>, polls: Map<PollId, PollView>) -> bool {
    forall|p: PollId| #[trigger]
        index.contains_key(p) ==> index[p].len() >= 1 && distinct_ids(index[p])
            && polls.contains_key(p)
}

/// A choice exists exactly when its id stands in its poll's choice list.
pub open spec fn choices_match_index(
    choices: Map<(PollId, ChoiceId), Seq<char>>,
    index: Map<PollId, Seq<ChoiceId>>,
) -> bool {
    forall|p: PollId, c: ChoiceId|
        #![trigger choices.contains_key((p, c))]
        #![trigger list_lookup(index, p).contains(c)]
        choices.contains_key((p, c)) <==> list_lookup(index, p).contains(c)
}

/// A poll past `NotStarted` has a recorded choice list, and a winner is
/// recorded only once the poll has ended.
pub open spec fn polls_ok(polls: Map<PollId, PollView>, index: Map<PollId, Seq<ChoiceId>>) -> bool {
    forall|p: PollId| #[trigger]
        polls.contains_key(p) ==> ((!(polls[p].status is NotStarted) ==> index.contains_key(p)) && (
        polls[p].winner is Some ==> polls[p].status is Ended))
}

/// The invariant of every reachable contract state.
pub open spec fn state_inv(s: StateView) -> bool {
    &&& tallies_in_choices(s.tallies, s.choices)
    &&& tallies_count_ballots(s.tallies, s.ballots)
    &&& one_ballot_per_voter(s.ballots)
    &&& ballots_in_choices(s.ballots, s.choices)
    &&& index_ok(s.choice_index, s.polls)
    &&& choices_match_index(s.choices, s.choice_index)
    &&& polls_ok(s.polls, s.choice_index)
}

/// A sequence gained by `push` contains exactly the old elements and the
/// pushed one.
pub proof fn lemma_push_contains(ids: Seq<ChoiceId>, x: ChoiceId, y: ChoiceId)
    ensures
        ids.push(x).contains(y) <==> (ids.contains(y) || x == y),
{
    if ids.contains(y) {
        let i = choose|i: int| 0 <= i < ids.len() && ids[i] == y;
        assert(ids.push(x)[i] == y);
    }
    if x == y {
        assert(ids.push(x)[ids.len() as int] == y);
    }
    if ids.push(x).contains(y) {
        let i = choose|i: int| 0 <= i < ids.push(x).len() && ids.push(x)[i] == y;
        if i < ids.len() {
            assert(ids[i] == y);
        }
    }
}

/// There are never more ballots for one choice than ballots overall.
pub proof fn lemma_count_votes_le_len(ballots: Seq<Ballot>, poll_id: PollId, choice_id: ChoiceId)
    ensures
        count_votes(ballots, poll_id, choice_id) <= ballots.len(),
    decreases ballots.len(),
{
    if ballots.len() > 0 {
        lemma_count_votes_le_len(ballots.drop_last(), poll_id, choice_id);
    }
}

/// Casting one more ballot raises exactly the count of its own choice.
pub proof fn lemma_count_votes_push(
    ballots: Seq<Ballot>,
    b: Ballot,
    poll_id: PollId,
    choice_id: ChoiceId,
)
    ensures
        count_votes(ballots.push(b), poll_id, choice_id) == count_votes(ballots, poll_id, choice_id)
            + (if b.poll_id == poll_id && b.choice_id == choice_id {
            1int
        } else {
            0int
        }),
{
    assert(ballots.push(b).drop_last() =~= ballots);
    assert(ballots.push(b).last() == b);
}

/// `create_poll` preserves the state invariant.
pub proof fn lemma_create_poll_inv(
    s: StateView,
    caller: AccountId,
    poll_id: PollId,
    description: Seq<char>,
)
    requires
        state_inv(s),
    ensures
        state_inv(create_poll_tr(s, caller, poll_id, description).0),
{
    let s2 = create_poll_tr(s, caller, poll_id, description).0;
    if !s.paused && !s.polls.contains_key(poll_id) {
        assert forall|p: PollId| #[trigger] s2.polls.contains_key(p) implies ((!(s2.polls[p].status
            is NotStarted) ==> s2.choice_index.contains_key(p)) && (s2.polls[p].winner is Some
            ==> s2.polls[p].status is Ended)) by {
            if p != poll_id {
                assert(s.polls.contains_key(p));
            }
        }
        assert forall|p: PollId| #[trigger] s2.choice_index.contains_key(p) implies s2.choice_index[p].len()
            >= 1 && distinct_ids(s2.choice_index[p]) && s2.polls.contains_key(p) by {
            assert(s.choice_index.contains_key(p));
        }
    }
}

/// `add_choice` preserves the state invariant.
pub proof fn lemma_add_choice_inv(
    s: StateView,
    caller: AccountId,
    poll_id: PollId,
    choice_id: ChoiceId,
    description: Seq<char>,
)
    requires
        state_inv(s),
    ensures
        state_inv(add_choice_tr(s, caller, poll_id, choice_id, description).0),
{
    let (s2, r) = add_choice_tr(s, caller, poll_id, choice_id, description);
    if r is Ok {
        let old_list = list_lookup(s.choice_index, poll_id);
        let new_list = old_list.push(choice_id);
        assert(!old_list.contains(choice_id));

        assert forall|k: (PollId, ChoiceId)| #[trigger] s2.tallies.contains_key(k)
            implies s2.choices.contains_key(k) by {
            assert(s.choices.contains_key(k));
        }
        assert forall|i: int| 0 <= i < s2.ballots.len() implies s2.choices.contains_key(
            ((#[trigger] s2.ballots[i]).poll_id, s2.ballots[i].choice_id),
        ) by {
            assert(s.choices.contains_key((s.ballots[i].poll_id, s.ballots[i].choice_id)));
        }
        assert forall|p: PollId| #[trigger] s2.choice_index.contains_key(p)
            implies s2.choice_index[p].len() >= 1 && distinct_ids(s2.choice_index[p])
            && s2.polls.contains_key(p) by {
            if p == poll_id {
                assert(distinct_ids(new_list)) by {
                    assert forall|i: int, j: int|
                        0 <= i < j < new_list.len() implies #[trigger] new_list[i]
                        != #[trigger] new_list[j] by {
                        if j == old_list.len() {
                            assert(old_list.contains(new_list[i])) by {
                                assert(old_list[i] == new_list[i]);
                            }
                        }
                    }
                }
            } else {
                assert(s.choice_index.contains_key(p));
            }
        }
        assert forall|p: PollId, c: ChoiceId|
            s2.choices.contains_key((p, c)) <==> #[trigger] list_lookup(s2.choice_index, p)
                .contains(c) by {
            if p == poll_id {
                lemma_push_contains(old_list, choice_id, c);
                assert(list_lookup(s2.choice_index, p) == new_list);
            } else {
                assert(list_lookup(s2.choice_index, p) == list_lookup(s.choice_index, p));
                assert(s.choices.contains_key((p, c)) <==> list_lookup(s.choice_index, p).contains(
                    c,
                ));
            }
        }
        assert forall|p: PollId| #[trigger] s2.polls.contains_key(p) implies ((!(s2.polls[p].status
            is NotStarted) ==> s2.choice_index.contains_key(p)) && (s2.polls[p].winner is Some
            ==> s2.polls[p].status is Ended)) by {
            assert(s.polls.contains_key(p));
        }
    }
}

/// `start_poll` preserves the state invariant.
pub proof fn lemma_start_poll_inv(s: StateView, caller: AccountId, poll_id: PollId)
    requires
        state_inv(s),
    ensures
        state_inv(start_poll_tr(s, caller, poll_id).0),
{
    let (s2, r) = start_poll_tr(s, caller, poll_id);
    if r is Ok {
        assert forall|p: PollId| #[trigger] s2.polls.contains_key(p) implies ((!(s2.polls[p].status
            is NotStarted) ==> s2.choice_index.contains_key(p)) && (s2.polls[p].winner is Some
            ==> s2.polls[p].status is Ended)) by {
            if p == poll_id {
                assert(s.choice_index.contains_key(poll_id));
            } else {
                assert(s.polls.contains_key(p));
            }
        }
        assert forall|p: PollId| #[trigger] s2.choice_index.contains_key(p)
            implies s2.choice_index[p].len() >= 1 && distinct_ids(s2.choice_index[p])
            && s2.polls.contains_key(p) by {
            assert(s.choice_index.contains_key(p));
        }
    }
}

/// `end_poll` preserves the state invariant.
pub proof fn lemma_end_poll_inv(s: StateView, caller: AccountId, poll_id: PollId)
    requires
        state_inv(s),
    ensures
        state_inv(end_poll_tr(s, caller, poll_id).0),
{
    let (s2, r) = end_poll_tr(s, caller, poll_id);
    if r is Ok {
        assert forall|p: PollId| #[trigger] s2.polls.contains_key(p) implies ((!(s2.polls[p].status
            is NotStarted) ==> s2.choice_index.contains_key(p)) && (s2.polls[p].winner is Some
            ==> s2.polls[p].status is Ended)) by {
            assert(s.polls.contains_key(p));
        }
        assert forall|p: PollId| #[trigger] s2.choice_index.contains_key(p)
            implies s2.choice_index[p].len() >= 1 && distinct_ids(s2.choice_index[p])
            && s2.polls.contains_key(p) by {
            assert(s.choice_index.contains_key(p));
        }
    }
}

/// `vote` preserves the state invariant, provided there is room for one
/// more ballot.
pub proof fn lemma_vote_inv(s: StateView, caller: AccountId, poll_id: PollId, choice_id: ChoiceId)
    requires
        state_inv(s),
        s.ballots.len() < u64::MAX,
    ensures
        state_inv(vote_tr(s, caller, poll_id, choice_id).0),
{
    let (s2, r) = vote_tr(s, caller, poll_id, choice_id);
    if r is Ok {
        let b = Ballot { poll_id, voter: caller, choice_id };
        assert forall|p: PollId, c: ChoiceId| #[trigger] tally_lookup(s2.tallies, p, c)
            == count_votes(s2.ballots, p, c) by {
            lemma_count_votes_push(s.ballots, b, p, c);
            assert(tally_lookup(s.tallies, p, c) == count_votes(s.ballots, p, c));
            lemma_count_votes_le_len(s.ballots, p, c);
        }
        assert forall|i: int, j: int|
            0 <= i < j < s2.ballots.len() && (#[trigger] s2.ballots[i]).poll_id
                == (#[trigger] s2.ballots[j]).poll_id implies s2.ballots[i].voter
            != s2.ballots[j].voter by {
            if j == s.ballots.len() {
                assert(!voted(s.ballots, poll_id, caller));
                assert(s.ballots[i] == s2.ballots[i]);
            } else {
                assert(s.ballots[i] == s2.ballots[i] && s.ballots[j] == s2.ballots[j]);
            }
        }
        assert forall|i: int| 0 <= i < s2.ballots.len() implies s2.choices.contains_key(
            ((#[trigger] s2.ballots[i]).poll_id, s2.ballots[i].choice_id),
        ) by {
            if i < s.ballots.len() {
                assert(s.choices.contains_key((s.ballots[i].poll_id, s.ballots[i].choice_id)));
            }
        }
        assert forall|k: (PollId, ChoiceId)| #[trigger] s2.tallies.contains_key(k)
            implies s2.choices.contains_key(k) by {
            if k != (poll_id, choice_id) {
                assert(s.tallies.contains_key(k));
            }
        }
    }
}

/// `pause` preserves the state invariant.
pub proof fn lemma_pause_inv(s: StateView, caller: AccountId)
    requires
        state_inv(s),
    ensures
        state_inv(pause_tr(s, caller).0),
{
}

/// `unpause` preserves the state invariant.
pub proof fn lemma_unpause_inv(s: StateView, caller: AccountId)
    requires
        state_inv(s),
    ensures
        state_inv(unpause_tr(s, caller).0),
{
}

/// `change_admin` preserves the state invariant.
pub proof fn lemma_change_admin_inv(s: StateView, caller: AccountId, new_admin: AccountId)
    requires
        state_inv(s),
    ensures
        state_inv(change_admin_tr(s, caller, new_admin).0),
{
}

} // verus!
