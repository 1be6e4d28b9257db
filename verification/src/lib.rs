//! A verified poll-and-vote state machine.
//!
//! The library models the lifecycle of polls, their choices and the votes
//! cast on them, one call at a time: every operation takes the invoking
//! principal explicitly, mutates an in-memory state record, and appends the
//! events it raises to an event log that the surrounding host may drain.
//! Each operation carries a contract that pins its result and the new state
//! down to a mathematical transition function, and the laws module states
//! the global guarantees (no duplicate polls, one vote per principal and
//! poll, tallies that count ballots exactly) as proved theorems.

pub mod account;
pub mod contract;
pub mod errors;
pub mod events;
pub mod inv;
pub mod laws;
pub mod model;
pub mod pair_table;
pub mod poll;
pub mod report;
pub mod table;
