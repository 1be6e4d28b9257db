//! Events raised on state changes.
//!
//! The state machine does not emit events as an invisible side effect:
//! every mutating operation appends the events it raises to the event log
//! kept in the contract state, and the surrounding host drains that log and
//! delivers the events to its notification bus. Votes raise no event;
//! tallies stay private until reported.

use vstd::prelude::*;
use crate::account::AccountId;
use crate::poll::{ChoiceId, PollId};

verus! {

/// Raised when a poll is created.
#[derive(Debug, PartialEq, Eq, Clone)]
pub struct PollCreated {
    /// Id of the poll.
    pub poll_id: PollId,
    /// Description of the poll.
    pub description: String,
    /// The principal that created the poll.
    pub owner: AccountId,
}

/// Raised when a choice is added to a poll.
#[derive(Debug, PartialEq, Eq, Clone)]
pub struct ChoiceAdded {
    /// Id of the poll.
    pub poll_id: PollId,
    /// Id of the choice.
    pub choice_id: ChoiceId,
    /// Description of the choice.
    pub description: String,
}

/// Raised when a poll is started.
#[derive(Debug, PartialEq, Eq, Clone)]
pub struct PollStarted {
    /// Id of the poll.
    pub poll_id: PollId,
}

/// Raised when a poll is ended.
#[derive(Debug, PartialEq, Eq, Clone)]
pub struct PollEnded {
    /// Id of the poll.
    pub poll_id: PollId,
    /// Id of the winning choice (absent in case of a tie).
    pub winner: Option<ChoiceId>,
}

/// One entry of the event log.
#[derive(Debug, PartialEq, Eq, Clone)]
pub enum Event {
    /// A poll was created.
    PollCreated(PollCreated),
    /// A choice was added to a poll.
    ChoiceAdded(ChoiceAdded),
    /// A poll was started.
    PollStarted(PollStarted),
    /// A poll was ended.
    PollEnded(PollEnded),
}

/// Mathematical image of an [`Event`].
pub ghost enum EventView {
    PollCreated { poll_id: PollId, description: Seq<char>, owner: AccountId },
    ChoiceAdded { poll_id: PollId, choice_id: ChoiceId, description: Seq<char> },
    PollStarted { poll_id: PollId },
    PollEnded { poll_id: PollId, winner: Option<ChoiceId> },
}

impl View for Event {
    type V = EventView;

    open spec fn view(&self) -> EventView {
        match self {
            Event::PollCreated(e) => EventView::PollCreated {
                poll_id: e.poll_id,
                description: e.description@,
                owner: e.owner,
            },
            Event::ChoiceAdded(e) => EventView::ChoiceAdded {
                poll_id: e.poll_id,
                choice_id: e.choice_id,
                description: e.description@,
            },
            Event::PollStarted(e) => EventView::PollStarted { poll_id: e.poll_id },
            Event::PollEnded(e) => EventView::PollEnded { poll_id: e.poll_id, winner: e.winner },
        }
    }
}

} // verus!
