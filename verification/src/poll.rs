//! Polls and their choices.

use vstd::prelude::*;
use crate::account::AccountId;

verus! {

/// Identifies a poll; unique across all polls ever created.
pub type PollId = u64;

/// Identifies a choice within one poll; not unique across polls.
pub type ChoiceId = u8;

/// Lifecycle status of a poll.
///
/// The status only ever advances, without skipping:
/// `NotStarted` to `Started` to `Ended`.
#[derive(Clone, Copy, PartialEq, Eq, Structural, Debug)]
pub enum PollStatus {
    /// The poll has not started yet; choices may still be added.
    NotStarted,
    /// The poll is open for votes.
    Started,
    /// The poll has ended; its winner, if any, is recorded.
    Ended,
}

/// A poll that can be voted on.
#[derive(Debug, PartialEq, Eq)]
pub struct Poll {
    /// Description of the poll.
    pub description: String,
    /// Lifecycle status of the poll.
    pub status: PollStatus,
    /// The principal that created the poll.
    pub owner: AccountId,
    /// The winning choice; present only once the poll has ended without a
    /// tie for the highest tally.
    pub winner: Option<ChoiceId>,
}

/// Mathematical image of a [`Poll`].
pub ghost struct PollView {
    pub description: Seq<char>,
    pub status: PollStatus,
    pub owner: AccountId,
    pub winner: Option<ChoiceId>,
}

impl View for Poll {
    type V = PollView;

    open spec fn view(&self) -> PollView {
        PollView {
            description: self.description@,
            status: self.status,
            owner: self.owner,
            winner: self.winner,
        }
    }
}

impl Clone for Poll {
    fn clone(&self) -> (r: Self)
        ensures
            r@ == self@,
    {
        Poll {
            description: self.description.clone(),
            status: self.status,
            owner: self.owner,
            winner: self.winner,
        }
    }
}

/// One selectable option belonging to a poll.
#[derive(Debug, PartialEq, Eq)]
pub struct Choice {
    /// Description of the choice.
    pub description: String,
}

impl View for Choice {
    type V = Seq<char>;

    open spec fn view(&self) -> Seq<char> {
        self.description@
    }
}

impl Clone for Choice {
    fn clone(&self) -> (r: Self)
        ensures
            r@ == self@,
    {
        Choice { description: self.description.clone() }
    }
}

} // verus!
