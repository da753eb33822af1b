use versioned_store::entities::{
    validate_create_agent_profile, validate_create_ballot, validate_create_link_agent_profile_updates,
    validate_create_link_ballot_updates, validate_create_link_vote_item_updates,
    validate_create_vote_item, validate_delete_agent_profile, validate_delete_ballot,
    validate_delete_link_agent_profile_updates, validate_delete_link_ballot_updates,
    validate_delete_link_vote_item_updates, validate_delete_vote_item, validate_update_agent_profile,
    validate_update_ballot, validate_update_link, validate_update_vote_item, AgentProfile, Ballot,
    VoteItem,
};
use versioned_store::store::{create, pick_latest, pick_oldest};
use versioned_store::substrate::RecordStore;
use versioned_store::types::{Address, Payload, StoreError, ValidationOutcome};

fn profile() -> AgentProfile {
    AgentProfile {
        name: "ada".to_string(),
        email: "ada@example.org".to_string(),
        password: "SECRET-REDACTED".to_string(),
        region: "north".to_string(),
    }
}

fn ballot() -> Ballot {
    Ballot {
        title: "q1".to_string(),
        description: "first question".to_string(),
        created_by: 7,
        created_at: 100,
    }
}

fn vote_item() -> VoteItem {
    VoteItem { ballot_name: "q1".to_string(), vote_weight: 2 }
}

#[test]
fn duplicate_is_faithful() {
    let p = profile();
    assert_eq!(p.duplicate(), p);
    let b = ballot();
    assert_eq!(b.duplicate(), b);
    let v = vote_item();
    assert_eq!(v.duplicate(), v);
}

#[test]
fn entity_validation_hooks_accept_everything() {
    assert_eq!(validate_create_agent_profile(&profile()), ValidationOutcome::Valid);
    assert_eq!(validate_update_agent_profile(&profile(), &profile()), ValidationOutcome::Valid);
    assert_eq!(validate_delete_agent_profile(&profile()), ValidationOutcome::Valid);
    assert_eq!(validate_create_ballot(&ballot()), ValidationOutcome::Valid);
    assert_eq!(validate_update_ballot(&ballot(), &ballot()), ValidationOutcome::Valid);
    assert_eq!(validate_delete_ballot(&ballot()), ValidationOutcome::Valid);
    assert_eq!(validate_create_vote_item(&vote_item()), ValidationOutcome::Valid);
    assert_eq!(validate_update_vote_item(&vote_item(), &vote_item()), ValidationOutcome::Valid);
    assert_eq!(validate_delete_vote_item(&vote_item()), ValidationOutcome::Valid);
}

#[test]
fn update_link_validation_needs_both_records() {
    let mut records = RecordStore::<Ballot>::new();
    let base = create(&mut records, ballot(), 7, 100).unwrap();
    let target = create(&mut records, ballot(), 7, 200).unwrap();
    assert_eq!(
        validate_update_link(&records, base.address, target.address),
        Ok(ValidationOutcome::Valid)
    );
    assert_eq!(
        validate_update_link(&records, base.address, Address(9)),
        Err(StoreError::NotFound)
    );
    assert_eq!(
        validate_update_link(&records, Address(9), target.address),
        Err(StoreError::NotFound)
    );
}

#[test]
fn per_entity_link_validation_mirrors_the_generic_rule() {
    let mut profiles = RecordStore::<AgentProfile>::new();
    let p0 = create(&mut profiles, profile(), 1, 10).unwrap();
    let p1 = create(&mut profiles, profile(), 1, 20).unwrap();
    assert_eq!(
        validate_create_link_agent_profile_updates(&profiles, p0.address, p1.address),
        Ok(ValidationOutcome::Valid)
    );
    assert_eq!(
        validate_create_link_agent_profile_updates(&profiles, p0.address, Address(5)),
        Err(StoreError::NotFound)
    );

    let mut ballots = RecordStore::<Ballot>::new();
    let b0 = create(&mut ballots, ballot(), 1, 10).unwrap();
    assert_eq!(
        validate_create_link_ballot_updates(&ballots, b0.address, b0.address),
        Ok(ValidationOutcome::Valid)
    );
    assert_eq!(
        validate_create_link_ballot_updates(&ballots, Address(3), b0.address),
        Err(StoreError::NotFound)
    );

    let mut items = RecordStore::<VoteItem>::new();
    let v0 = create(&mut items, vote_item(), 1, 10).unwrap();
    assert_eq!(
        validate_create_link_vote_item_updates(&items, v0.address, v0.address),
        Ok(ValidationOutcome::Valid)
    );
    assert_eq!(
        validate_create_link_vote_item_updates(&items, v0.address, Address(3)),
        Err(StoreError::NotFound)
    );
}

#[test]
fn update_links_can_never_be_deleted() {
    match validate_delete_link_agent_profile_updates() {
        ValidationOutcome::Invalid(reason) => {
            assert_eq!(reason, "AgentProfileUpdates links cannot be deleted");
        }
        ValidationOutcome::Valid => panic!("deleting a profile-updates link must be invalid"),
    }
    match validate_delete_link_ballot_updates() {
        ValidationOutcome::Invalid(reason) => {
            assert_eq!(reason, "BallotUpdates links cannot be deleted");
        }
        ValidationOutcome::Valid => panic!("deleting a ballot-updates link must be invalid"),
    }
    match validate_delete_link_vote_item_updates() {
        ValidationOutcome::Invalid(reason) => {
            assert_eq!(reason, "VoteItemUpdates links cannot be deleted");
        }
        ValidationOutcome::Valid => panic!("deleting a vote-item-updates link must be invalid"),
    }
}

#[test]
fn pick_latest_takes_maximum_and_last_tie() {
    assert_eq!(pick_latest(&vec![]), None);
    assert_eq!(pick_latest(&vec![5]), Some(0));
    assert_eq!(pick_latest(&vec![100, 200, 150]), Some(1));
    assert_eq!(pick_latest(&vec![5, 7, 7]), Some(2));
    assert_eq!(pick_latest(&vec![7, 7, 5]), Some(1));
    assert_eq!(pick_latest(&vec![-5, -9, -7]), Some(0));
}

#[test]
fn pick_oldest_takes_minimum_and_first_tie() {
    assert_eq!(pick_oldest(&vec![]), None);
    assert_eq!(pick_oldest(&vec![5]), Some(0));
    assert_eq!(pick_oldest(&vec![300, 250, 400]), Some(1));
    assert_eq!(pick_oldest(&vec![3, 1, 1]), Some(1));
    assert_eq!(pick_oldest(&vec![1, 1, 3]), Some(0));
    assert_eq!(pick_oldest(&vec![-5, -9, -7]), Some(1));
}
