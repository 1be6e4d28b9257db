//! Read-only snapshots of a poll, its choices and their tallies.

use vstd::prelude::*;
use crate::account::AccountId;
use crate::errors::Error;
use crate::poll::{ChoiceId, PollId, PollStatus};

verus! {

/// One choice of a poll as it appears in a report.
#[derive(Debug, PartialEq, Eq, Clone)]
pub struct ChoiceReport {
    /// Id of the choice.
    pub id: ChoiceId,
    /// Description of the choice.
    pub description: String,
    /// Number of votes cast for the choice.
    pub vote_count: u64,
}

/// Mathematical image of a [`ChoiceReport`].
#[verifier::ext_equal]
pub ghost struct ChoiceReportView {
    pub id: ChoiceId,
    pub description: Seq<char>,
    pub vote_count: u64,
}

impl View for ChoiceReport {
    type V = ChoiceReportView;

    open spec fn view(&self) -> ChoiceReportView {
        ChoiceReportView {
            id: self.id,
            description: self.description@,
            vote_count: self.vote_count,
        }
    }
}

/// A snapshot of one poll: its fields and, in registry order, each of its
/// choices with the current tally.
#[derive(Debug, PartialEq, Eq)]
pub struct PollReport {
    /// Id of the poll.
    pub id: PollId,
    /// Description of the poll.
    pub description: String,
    /// Lifecycle status of the poll.
    pub status: PollStatus,
    /// The principal that created the poll.
    pub owner: AccountId,
    /// The poll's choices, in the order they were added.
    pub choices: Vec<ChoiceReport>,
    /// Id of the winning choice (present only if the poll has ended
    /// without a tie).
    pub winner: Option<ChoiceId>,
}

/// Mathematical image of a [`PollReport`].
#[verifier::ext_equal]
pub ghost struct PollReportView {
    pub id: PollId,
    pub description: Seq<char>,
    pub status: PollStatus,
    pub owner: AccountId,
    pub choices: Seq<ChoiceReportView>,
    pub winner: Option<ChoiceId>,
}

impl View for PollReport {
    type V = PollReportView;

    open spec fn view(&self) -> PollReportView {
        PollReportView {
            id: self.id,
            description: self.description@,
            status: self.status,
            owner: self.owner,
            choices: self.choices@.map_values(|c: ChoiceReport| c@),
            winner: self.winner,
        }
    }
}

/// The view of a report result: the report's view on success, the error
/// unchanged on failure.
pub open spec fn report_result(r: Result<PollReport, Error>) -> Result<PollReportView, Error> {
    match r {
        Ok(rep) => Ok(rep@),
        Err(e) => Err(e),
    }
}

} // verus!
