//! Errors raised by the voting operations.

use vstd::prelude::*;

verus! {

/// Every way an operation can fail.
///
/// The owner-mismatch variants are distinct per operation so that a caller
/// can tell from the error alone which operation was refused.
#[derive(Debug, PartialEq, Eq, Clone)]
pub enum Error {
    /// A poll with the given id already exists.
    PollWithIdAlreadyExists,
    /// No poll with the given id exists.
    PollWithIdDoesNotExist,
    /// The poll has not started yet.
    PollHasNotStarted,
    /// The poll has ended.
    PollHasEnded,
    /// The poll has already started.
    PollHasStarted,
    /// Only the owner of the poll may add a choice.
    OnlyOwnerCanAddChoice,
    /// Only the owner of the poll may start it.
    OnlyOwnerCanStartPoll,
    /// A poll with no choices cannot be started.
    CannotStartPollWithNoChoices,
    /// Only the owner of the poll may end it.
    OnlyOwnerCanEndPoll,
    /// The poll already has a choice with the given id.
    ChoiceWithIdAlreadyExists,
    /// The poll has no choice with the given id.
    ChoiceWithIdDoesNotExist,
    /// The caller has already voted on this poll.
    CallerAlreadyVotedOnPoll,
    /// The contract is paused; all mutating operations are rejected.
    ContractIsPaused,
    /// The caller is not the admin.
    CallerIsNotAdmin,
    /// The host failed to install the new code; carries its diagnostic.
    FailedToSetCodeHash(String),
}

} // verus!
