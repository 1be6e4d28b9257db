//! The contract's behavior, operation by operation.

use voting_contract::account::AccountId;
use voting_contract::contract::VotingContract;
use voting_contract::errors::Error;
use voting_contract::events::{ChoiceAdded, Event, PollCreated, PollEnded, PollStarted};
use voting_contract::poll::PollStatus;

fn alice() -> AccountId {
    AccountId::new(0, 1)
}

fn bob() -> AccountId {
    AccountId::new(0, 2)
}

fn eve() -> AccountId {
    AccountId::new(0, 5)
}

fn django() -> AccountId {
    AccountId::new(0, 4)
}

fn frank() -> AccountId {
    AccountId::new(0, 6)
}

fn assert_poll_created_event(
    event: &Event,
    expected_poll_id: u64,
    expected_description: &str,
    expected_owner: AccountId,
) {
    assert_eq!(
        *event,
        Event::PollCreated(PollCreated {
            poll_id: expected_poll_id,
            description: expected_description.to_string(),
            owner: expected_owner,
        })
    );
}

fn assert_add_choice_event(
    event: &Event,
    expected_poll_id: u64,
    expected_choice_id: u8,
    expected_description: &str,
) {
    assert_eq!(
        *event,
        Event::ChoiceAdded(ChoiceAdded {
            poll_id: expected_poll_id,
            choice_id: expected_choice_id,
            description: expected_description.to_string(),
        })
    );
}

fn assert_start_poll_event(event: &Event, expected_poll_id: u64) {
    assert_eq!(*event, Event::PollStarted(PollStarted { poll_id: expected_poll_id }));
}

fn assert_end_poll_event(event: &Event, expected_poll_id: u64, expected_winner: Option<u8>) {
    assert_eq!(
        *event,
        Event::PollEnded(PollEnded { poll_id: expected_poll_id, winner: expected_winner })
    );
}

#[test]
fn test_contract_admin() {
    let voting_contract = VotingContract::default(alice());

    assert_eq!(voting_contract.admin(), alice());
}

#[test]
fn test_contract_pause_success() {
    let mut voting_contract = VotingContract::default(alice());
    assert_eq!(voting_contract.is_paused(), false);
    assert!(voting_contract.pause(alice()).is_ok());
    assert_eq!(voting_contract.is_paused(), true);
}

#[test]
fn test_contract_pause_failure_not_admin() {
    let mut voting_contract = VotingContract::default(alice());

    assert_eq!(voting_contract.pause(bob()), Err(Error::CallerIsNotAdmin));
    assert_eq!(voting_contract.is_paused(), false);
}

#[test]
fn test_contract_unpause_success() {
    let mut voting_contract = VotingContract::default(alice());

    assert!(voting_contract.pause(alice()).is_ok());

    assert!(voting_contract.unpause(alice()).is_ok());
    assert_eq!(voting_contract.is_paused(), false);
}

#[test]
fn test_contract_unpause_failure_not_admin() {
    let mut voting_contract = VotingContract::default(alice());

    assert!(voting_contract.pause(alice()).is_ok());

    assert_eq!(voting_contract.unpause(bob()), Err(Error::CallerIsNotAdmin));
    assert_eq!(voting_contract.is_paused(), true);
}

#[test]
fn test_create_poll_success() {
    let mut voting_contract = VotingContract::default(alice());

    assert_eq!(voting_contract.create_poll(alice(), 1, "test".to_string()), Ok(()));

    let report = voting_contract.get_report(1).unwrap();
    assert_eq!(report.description, "test".to_string());
    assert_eq!(report.status, PollStatus::NotStarted);
    assert_eq!(report.owner, alice());

    let emitted_events = voting_contract.event_log();
    assert_poll_created_event(&emitted_events[0], 1, "test", alice());
}

#[test]
fn test_create_poll_failure_contract_paused() {
    let mut voting_contract = VotingContract::default(alice());

    assert!(voting_contract.pause(alice()).is_ok());

    assert_eq!(
        voting_contract.create_poll(alice(), 1, "test".to_string()),
        Err(Error::ContractIsPaused)
    );
}

#[test]
fn test_create_poll_failure() {
    let mut voting_contract = VotingContract::default(alice());
    assert_eq!(voting_contract.create_poll(alice(), 1, "test".to_string()), Ok(()));
    assert_eq!(
        voting_contract.create_poll(alice(), 1, "test1".to_string()),
        Err(Error::PollWithIdAlreadyExists)
    );
}

#[test]
fn test_add_choice_success() {
    let mut voting_contract = VotingContract::default(alice());
    assert_eq!(voting_contract.create_poll(alice(), 1, "test".to_string()), Ok(()));
    assert_eq!(voting_contract.add_choice(alice(), 1, 1, "test".to_string()), Ok(()));

    let choices = voting_contract.get_choices(1);
    assert_eq!(choices.len(), 1);
    assert_eq!(choices[0].1.description, "test".to_string());

    assert_eq!(voting_contract.add_choice(alice(), 1, 2, "test1".to_string()), Ok(()));

    let choices = voting_contract.get_choices(1);
    assert_eq!(choices.len(), 2);
    assert_eq!(choices[1].1.description, "test1".to_string());

    let emitted_events = voting_contract.event_log();
    assert_add_choice_event(&emitted_events[1], 1, 1, "test");
    assert_add_choice_event(&emitted_events[2], 1, 2, "test1");
}

#[test]
fn test_add_choice_failure_contract_paused() {
    let mut voting_contract = VotingContract::default(alice());
    assert_eq!(voting_contract.create_poll(alice(), 1, "test".to_string()), Ok(()));

    assert!(voting_contract.pause(alice()).is_ok());

    assert_eq!(
        voting_contract.add_choice(alice(), 1, 1, "test".to_string()),
        Err(Error::ContractIsPaused)
    );
}

#[test]
fn test_add_choice_failure_duplicate_id() {
    let mut voting_contract = VotingContract::default(alice());
    assert_eq!(voting_contract.create_poll(alice(), 1, "test".to_string()), Ok(()));
    assert_eq!(voting_contract.add_choice(alice(), 1, 1, "test".to_string()), Ok(()));
    assert_eq!(
        voting_contract.add_choice(alice(), 1, 1, "test1".to_string()),
        Err(Error::ChoiceWithIdAlreadyExists)
    );
}

#[test]
fn test_add_choice_failure_poll_does_not_exist() {
    let mut voting_contract = VotingContract::default(alice());
    assert_eq!(
        voting_contract.add_choice(alice(), 1, 1, "test".to_string()),
        Err(Error::PollWithIdDoesNotExist)
    );
}

#[test]
fn test_add_choice_failure_poll_has_started() {
    let mut voting_contract = VotingContract::default(alice());
    assert_eq!(voting_contract.create_poll(alice(), 1, "test".to_string()), Ok(()));
    assert_eq!(voting_contract.add_choice(alice(), 1, 1, "test".to_string()), Ok(()));
    assert_eq!(voting_contract.start_poll(alice(), 1), Ok(()));
    assert_eq!(
        voting_contract.add_choice(alice(), 1, 2, "test2".to_string()),
        Err(Error::PollHasStarted)
    );
}

#[test]
fn test_add_choice_failure_poll_has_ended() {
    let mut voting_contract = VotingContract::default(alice());
    assert_eq!(voting_contract.create_poll(alice(), 1, "test".to_string()), Ok(()));
    assert_eq!(voting_contract.add_choice(alice(), 1, 1, "test".to_string()), Ok(()));
    assert_eq!(voting_contract.start_poll(alice(), 1), Ok(()));
    assert_eq!(voting_contract.end_poll(alice(), 1), Ok(()));
    assert_eq!(
        voting_contract.add_choice(alice(), 1, 2, "test2".to_string()),
        Err(Error::PollHasEnded)
    );
}

#[test]
fn test_add_choice_failure_caller_is_not_owner() {
    let mut voting_contract = VotingContract::default(alice());

    assert_eq!(voting_contract.create_poll(alice(), 1, "test".to_string()), Ok(()));

    assert_eq!(
        voting_contract.add_choice(bob(), 1, 1, "test".to_string()),
        Err(Error::OnlyOwnerCanAddChoice)
    );
}

#[test]
fn test_start_poll_success() {
    let mut voting_contract = VotingContract::default(alice());
    assert_eq!(voting_contract.create_poll(alice(), 1, "test".to_string()), Ok(()));
    assert_eq!(voting_contract.add_choice(alice(), 1, 1, "test".to_string()), Ok(()));
    assert_eq!(voting_contract.start_poll(alice(), 1), Ok(()));

    let report = voting_contract.get_report(1).unwrap();
    assert_eq!(report.status, PollStatus::Started);

    let emitted_events = voting_contract.event_log();
    assert_start_poll_event(&emitted_events[2], 1);
}

#[test]
fn test_start_poll_failure_contract_paused() {
    let mut voting_contract = VotingContract::default(alice());
    assert_eq!(voting_contract.create_poll(alice(), 1, "test".to_string()), Ok(()));

    assert!(voting_contract.pause(alice()).is_ok());

    assert_eq!(voting_contract.start_poll(alice(), 1), Err(Error::ContractIsPaused));
}

#[test]
fn test_start_poll_failure_poll_does_not_exist() {
    let mut voting_contract = VotingContract::default(alice());
    assert_eq!(voting_contract.start_poll(alice(), 1), Err(Error::PollWithIdDoesNotExist));
}

#[test]
fn test_start_poll_failure_poll_has_started() {
    let mut voting_contract = VotingContract::default(alice());
    assert_eq!(voting_contract.create_poll(alice(), 1, "test".to_string()), Ok(()));
    assert_eq!(voting_contract.add_choice(alice(), 1, 1, "test".to_string()), Ok(()));
    assert_eq!(voting_contract.start_poll(alice(), 1), Ok(()));
    assert_eq!(voting_contract.start_poll(alice(), 1), Err(Error::PollHasStarted));
}

#[test]
fn test_start_poll_failure_poll_has_ended() {
    let mut voting_contract = VotingContract::default(alice());
    assert_eq!(voting_contract.create_poll(alice(), 1, "test".to_string()), Ok(()));
    assert_eq!(voting_contract.add_choice(alice(), 1, 1, "test".to_string()), Ok(()));
    assert_eq!(voting_contract.start_poll(alice(), 1), Ok(()));
    assert_eq!(voting_contract.end_poll(alice(), 1), Ok(()));
    assert_eq!(voting_contract.start_poll(alice(), 1), Err(Error::PollHasEnded));
}

#[test]
fn test_start_poll_failure_caller_is_not_owner() {
    let mut voting_contract = VotingContract::default(alice());

    assert_eq!(voting_contract.create_poll(alice(), 1, "test".to_string()), Ok(()));

    assert_eq!(voting_contract.start_poll(bob(), 1), Err(Error::OnlyOwnerCanStartPoll));
}

#[test]
fn test_end_poll_success() {
    let mut voting_contract = VotingContract::default(alice());
    assert_eq!(voting_contract.create_poll(alice(), 1, "test".to_string()), Ok(()));
    assert_eq!(voting_contract.add_choice(alice(), 1, 1, "test1".to_string()), Ok(()));
    assert_eq!(voting_contract.add_choice(alice(), 1, 2, "test2".to_string()), Ok(()));
    assert_eq!(voting_contract.start_poll(alice(), 1), Ok(()));
    assert_eq!(voting_contract.end_poll(alice(), 1), Ok(()));

    let report = voting_contract.get_report(1).unwrap();
    assert_eq!(report.status, PollStatus::Ended);

    let emitted_events = voting_contract.event_log();
    assert_end_poll_event(&emitted_events[4], 1, None);
}

#[test]
fn test_end_poll_failure_contract_paused() {
    let mut voting_contract = VotingContract::default(alice());
    assert_eq!(voting_contract.create_poll(alice(), 1, "test".to_string()), Ok(()));
    assert_eq!(voting_contract.add_choice(alice(), 1, 1, "test".to_string()), Ok(()));
    assert_eq!(voting_contract.start_poll(alice(), 1), Ok(()));

    assert!(voting_contract.pause(alice()).is_ok());

    assert_eq!(voting_contract.end_poll(alice(), 1), Err(Error::ContractIsPaused));
}

#[test]
fn test_end_poll_failure_poll_does_not_exist() {
    let mut voting_contract = VotingContract::default(alice());
    assert_eq!(voting_contract.end_poll(alice(), 1), Err(Error::PollWithIdDoesNotExist));
}

#[test]
fn test_end_poll_failure_poll_has_ended() {
    let mut voting_contract = VotingContract::default(alice());
    assert_eq!(voting_contract.create_poll(alice(), 1, "test".to_string()), Ok(()));
    assert_eq!(voting_contract.add_choice(alice(), 1, 1, "test".to_string()), Ok(()));
    assert_eq!(voting_contract.start_poll(alice(), 1), Ok(()));
    assert_eq!(voting_contract.end_poll(alice(), 1), Ok(()));
    assert_eq!(voting_contract.end_poll(alice(), 1), Err(Error::PollHasEnded));
}

#[test]
fn test_end_poll_failure_poll_has_not_started() {
    let mut voting_contract = VotingContract::default(alice());
    assert_eq!(voting_contract.create_poll(alice(), 1, "test".to_string()), Ok(()));
    assert_eq!(voting_contract.end_poll(alice(), 1), Err(Error::PollHasNotStarted));
}

#[test]
fn test_end_poll_failure_caller_is_not_owner() {
    let mut voting_contract = VotingContract::default(alice());

    assert_eq!(voting_contract.create_poll(alice(), 1, "test".to_string()), Ok(()));
    assert_eq!(voting_contract.add_choice(alice(), 1, 1, "test".to_string()), Ok(()));
    assert_eq!(voting_contract.start_poll(alice(), 1), Ok(()));

    assert_eq!(voting_contract.end_poll(bob(), 1), Err(Error::OnlyOwnerCanEndPoll));
}

#[test]
fn test_vote_success() {
    let mut voting_contract = VotingContract::default(alice());
    assert_eq!(voting_contract.create_poll(alice(), 1, "test".to_string()), Ok(()));
    assert_eq!(voting_contract.add_choice(alice(), 1, 1, "test1".to_string()), Ok(()));
    assert_eq!(voting_contract.start_poll(alice(), 1), Ok(()));
    assert_eq!(voting_contract.vote(alice(), 1, 1), Ok(()));

    assert_eq!(voting_contract.get_tally(1, 1), 1);
    assert!(voting_contract.has_voted(1, alice()));
}

#[test]
fn test_vote_failure_contract_paused() {
    let mut voting_contract = VotingContract::default(alice());
    assert_eq!(voting_contract.create_poll(alice(), 1, "test".to_string()), Ok(()));
    assert_eq!(voting_contract.add_choice(alice(), 1, 1, "test1".to_string()), Ok(()));
    assert_eq!(voting_contract.start_poll(alice(), 1), Ok(()));

    assert!(voting_contract.pause(alice()).is_ok());

    assert_eq!(voting_contract.vote(alice(), 1, 1), Err(Error::ContractIsPaused));
}

#[test]
fn test_vote_failure_poll_does_not_exist() {
    let mut voting_contract = VotingContract::default(alice());
    assert_eq!(voting_contract.vote(alice(), 1, 1), Err(Error::PollWithIdDoesNotExist));
}

#[test]
fn test_vote_failure_poll_has_ended() {
    let mut voting_contract = VotingContract::default(alice());
    assert_eq!(voting_contract.create_poll(alice(), 1, "test".to_string()), Ok(()));
    assert_eq!(voting_contract.add_choice(alice(), 1, 1, "test1".to_string()), Ok(()));
    assert_eq!(voting_contract.start_poll(alice(), 1), Ok(()));
    assert_eq!(voting_contract.end_poll(alice(), 1), Ok(()));
    assert_eq!(voting_contract.vote(alice(), 1, 1), Err(Error::PollHasEnded));
}

#[test]
fn test_vote_failure_poll_has_not_started() {
    let mut voting_contract = VotingContract::default(alice());
    assert_eq!(voting_contract.create_poll(alice(), 1, "test".to_string()), Ok(()));
    assert_eq!(voting_contract.add_choice(alice(), 1, 1, "test1".to_string()), Ok(()));
    assert_eq!(voting_contract.vote(alice(), 1, 1), Err(Error::PollHasNotStarted));
}

#[test]
fn test_vote_failure_choice_does_not_exist() {
    let mut voting_contract = VotingContract::default(alice());
    assert_eq!(voting_contract.create_poll(alice(), 1, "test".to_string()), Ok(()));
    assert_eq!(voting_contract.add_choice(alice(), 1, 1, "test1".to_string()), Ok(()));
    assert_eq!(voting_contract.start_poll(alice(), 1), Ok(()));
    assert_eq!(voting_contract.vote(alice(), 1, 2), Err(Error::ChoiceWithIdDoesNotExist));
}

#[test]
fn test_vote_failure_caller_has_already_voted() {
    let mut voting_contract = VotingContract::default(alice());
    assert_eq!(voting_contract.create_poll(alice(), 1, "test".to_string()), Ok(()));
    assert_eq!(voting_contract.add_choice(alice(), 1, 1, "test1".to_string()), Ok(()));
    assert_eq!(voting_contract.start_poll(alice(), 1), Ok(()));
    assert_eq!(voting_contract.vote(alice(), 1, 1), Ok(()));
    assert_eq!(voting_contract.vote(alice(), 1, 1), Err(Error::CallerAlreadyVotedOnPoll));
}

#[test]
fn test_get_report_poll_has_not_started() {
    let mut voting_contract = VotingContract::default(alice());
    assert_eq!(voting_contract.create_poll(alice(), 1, "test".to_string()), Ok(()));
    assert_eq!(voting_contract.add_choice(alice(), 1, 1, "test1".to_string()), Ok(()));

    let report = voting_contract.get_report(1).unwrap();

    assert_eq!(report.id, 1);
    assert_eq!(report.description, "test".to_string());
    assert_eq!(report.status, PollStatus::NotStarted);

    assert_eq!(report.choices.len(), 1);

    assert_eq!(report.choices[0].id, 1);
    assert_eq!(report.choices[0].description, "test1".to_string());
    assert_eq!(report.choices[0].vote_count, 0);

    assert_eq!(report.winner, None);
}

#[test]
fn test_get_report_poll_has_started() {
    let mut voting_contract = VotingContract::default(alice());
    assert_eq!(voting_contract.create_poll(alice(), 1, "test".to_string()), Ok(()));
    assert_eq!(voting_contract.add_choice(alice(), 1, 1, "test1".to_string()), Ok(()));

    assert_eq!(voting_contract.start_poll(alice(), 1), Ok(()));

    let report = voting_contract.get_report(1).unwrap();

    assert_eq!(report.id, 1);
    assert_eq!(report.description, "test".to_string());
    assert_eq!(report.status, PollStatus::Started);

    assert_eq!(report.choices.len(), 1);

    assert_eq!(report.choices[0].id, 1);
    assert_eq!(report.choices[0].description, "test1".to_string());
    assert_eq!(report.choices[0].vote_count, 0);

    assert_eq!(report.winner, None);
}

#[test]
fn test_get_report_poll_has_started_with_votes() {
    let mut voting_contract = VotingContract::default(alice());
    assert_eq!(voting_contract.create_poll(alice(), 1, "test".to_string()), Ok(()));
    assert_eq!(voting_contract.add_choice(alice(), 1, 1, "test1".to_string()), Ok(()));
    assert_eq!(voting_contract.add_choice(alice(), 1, 2, "test2".to_string()), Ok(()));

    assert_eq!(voting_contract.start_poll(alice(), 1), Ok(()));
    assert_eq!(voting_contract.vote(alice(), 1, 1), Ok(()));

    let report = voting_contract.get_report(1).unwrap();

    assert_eq!(report.id, 1);
    assert_eq!(report.description, "test".to_string());
    assert_eq!(report.status, PollStatus::Started);

    assert_eq!(report.choices.len(), 2);

    assert_eq!(report.choices[0].id, 1);
    assert_eq!(report.choices[0].description, "test1".to_string());
    assert_eq!(report.choices[0].vote_count, 1);

    assert_eq!(report.choices[1].id, 2);
    assert_eq!(report.choices[1].description, "test2".to_string());
    assert_eq!(report.choices[1].vote_count, 0);

    assert_eq!(report.winner, None);
}

#[test]
fn test_get_report_poll_has_ended_with_votes() {
    let mut voting_contract = VotingContract::default(alice());
    assert_eq!(voting_contract.create_poll(alice(), 1, "test".to_string()), Ok(()));
    assert_eq!(voting_contract.add_choice(alice(), 1, 1, "test1".to_string()), Ok(()));
    assert_eq!(voting_contract.add_choice(alice(), 1, 2, "test2".to_string()), Ok(()));

    assert_eq!(voting_contract.start_poll(alice(), 1), Ok(()));
    assert_eq!(voting_contract.vote(alice(), 1, 2), Ok(()));
    assert_eq!(voting_contract.end_poll(alice(), 1), Ok(()));

    let report = voting_contract.get_report(1).unwrap();

    assert_eq!(report.id, 1);
    assert_eq!(report.description, "test".to_string());
    assert_eq!(report.status, PollStatus::Ended);

    assert_eq!(report.choices.len(), 2);

    assert_eq!(report.choices[0].id, 1);
    assert_eq!(report.choices[0].description, "test1".to_string());
    assert_eq!(report.choices[0].vote_count, 0);

    assert_eq!(report.choices[1].id, 2);
    assert_eq!(report.choices[1].description, "test2".to_string());
    assert_eq!(report.choices[1].vote_count, 1);

    // Choice 2 holds the strictly highest tally, so it wins.
    assert_eq!(report.winner, Some(2));
}

#[test]
fn test_get_choices() {
    let mut voting_contract = VotingContract::default(alice());
    assert_eq!(voting_contract.create_poll(alice(), 1, "test".to_string()), Ok(()));
    assert_eq!(voting_contract.add_choice(alice(), 1, 1, "test1".to_string()), Ok(()));
    assert_eq!(voting_contract.add_choice(alice(), 1, 2, "test2".to_string()), Ok(()));
    assert_eq!(voting_contract.add_choice(alice(), 1, 3, "test3".to_string()), Ok(()));

    let choices = voting_contract.get_choices(1);
    assert_eq!(choices.len(), 3);
    assert_eq!(choices[0].0, 1);
    assert_eq!(choices[1].0, 2);
    assert_eq!(choices[2].0, 3);

    assert_eq!(choices[0].1.description, "test1".to_string());
    assert_eq!(choices[1].1.description, "test2".to_string());
    assert_eq!(choices[2].1.description, "test3".to_string());
}

#[test]
fn test_full_flow() {
    let mut voting_contract = VotingContract::default(alice());

    assert_eq!(voting_contract.create_poll(alice(), 1, "test".to_string()), Ok(()));
    assert_eq!(voting_contract.add_choice(alice(), 1, 1, "test1".to_string()), Ok(()));
    assert_eq!(voting_contract.add_choice(alice(), 1, 2, "test2".to_string()), Ok(()));
    assert_eq!(voting_contract.add_choice(alice(), 1, 3, "test3".to_string()), Ok(()));

    assert_eq!(voting_contract.start_poll(alice(), 1), Ok(()));

    assert_eq!(voting_contract.vote(bob(), 1, 1), Ok(()));
    assert_eq!(voting_contract.vote(eve(), 1, 2), Ok(()));
    assert_eq!(voting_contract.vote(alice(), 1, 3), Ok(()));
    assert_eq!(voting_contract.vote(django(), 1, 2), Ok(()));
    assert_eq!(voting_contract.vote(frank(), 1, 2), Ok(()));

    assert_eq!(voting_contract.end_poll(alice(), 1), Ok(()));

    let emitted_events = voting_contract.event_log();
    assert_poll_created_event(&emitted_events[0], 1, "test", alice());
    assert_add_choice_event(&emitted_events[1], 1, 1, "test1");
    assert_add_choice_event(&emitted_events[2], 1, 2, "test2");
    assert_add_choice_event(&emitted_events[3], 1, 3, "test3");
    assert_start_poll_event(&emitted_events[4], 1);
    // Choice 2 holds the strictly highest tally (3 votes), so it wins.
    assert_end_poll_event(&emitted_events[5], 1, Some(2));

    let report = voting_contract.get_report(1).unwrap();

    assert_eq!(report.id, 1);
    assert_eq!(report.description, "test".to_string());
    assert_eq!(report.status, PollStatus::Ended);
    assert_eq!(report.winner, Some(2));
    assert_eq!(report.owner, alice());

    assert_eq!(report.choices.len(), 3);

    assert_eq!(report.choices[0].id, 1);
    assert_eq!(report.choices[0].description, "test1".to_string());
    assert_eq!(report.choices[0].vote_count, 1);

    assert_eq!(report.choices[1].id, 2);
    assert_eq!(report.choices[1].description, "test2".to_string());
    assert_eq!(report.choices[1].vote_count, 3);

    assert_eq!(report.choices[2].id, 3);
    assert_eq!(report.choices[2].description, "test3".to_string());
    assert_eq!(report.choices[2].vote_count, 1);
}

#[test]
fn test_full_flow_with_tie() {
    let mut voting_contract = VotingContract::default(alice());

    assert_eq!(voting_contract.create_poll(alice(), 1, "test".to_string()), Ok(()));
    assert_eq!(voting_contract.add_choice(alice(), 1, 1, "test1".to_string()), Ok(()));
    assert_eq!(voting_contract.add_choice(alice(), 1, 2, "test2".to_string()), Ok(()));
    assert_eq!(voting_contract.add_choice(alice(), 1, 3, "test3".to_string()), Ok(()));

    assert_eq!(voting_contract.start_poll(alice(), 1), Ok(()));

    assert_eq!(voting_contract.vote(bob(), 1, 1), Ok(()));
    assert_eq!(voting_contract.vote(eve(), 1, 2), Ok(()));
    assert_eq!(voting_contract.vote(alice(), 1, 3), Ok(()));
    assert_eq!(voting_contract.vote(django(), 1, 2), Ok(()));
    assert_eq!(voting_contract.vote(frank(), 1, 3), Ok(()));

    assert_eq!(voting_contract.end_poll(alice(), 1), Ok(()));

    let emitted_events = voting_contract.event_log();
    assert_poll_created_event(&emitted_events[0], 1, "test", alice());
    assert_add_choice_event(&emitted_events[1], 1, 1, "test1");
    assert_add_choice_event(&emitted_events[2], 1, 2, "test2");
    assert_add_choice_event(&emitted_events[3], 1, 3, "test3");
    assert_start_poll_event(&emitted_events[4], 1);
    // Choices 2 and 3 tie for the highest tally, so there is no winner.
    assert_end_poll_event(&emitted_events[5], 1, None);

    let report = voting_contract.get_report(1).unwrap();

    assert_eq!(report.id, 1);
    assert_eq!(report.description, "test".to_string());
    assert_eq!(report.status, PollStatus::Ended);
    assert_eq!(report.winner, None);
    assert_eq!(report.owner, alice());

    assert_eq!(report.choices.len(), 3);

    assert_eq!(report.choices[0].id, 1);
    assert_eq!(report.choices[0].description, "test1".to_string());
    assert_eq!(report.choices[0].vote_count, 1);

    assert_eq!(report.choices[1].id, 2);
    assert_eq!(report.choices[1].description, "test2".to_string());
    assert_eq!(report.choices[1].vote_count, 2);

    assert_eq!(report.choices[2].id, 3);
    assert_eq!(report.choices[2].description, "test3".to_string());
    assert_eq!(report.choices[2].vote_count, 2);
}
