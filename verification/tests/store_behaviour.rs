use versioned_store::entities::{Ballot, VoteItem};
use versioned_store::store::{
    create, delete, get_all_revisions, get_all_tombstones, get_latest, get_oldest_tombstone,
    get_original, update,
};
use versioned_store::substrate::{LinkIndex, RecordStore};
use versioned_store::types::{Address, StoreError, TombstoneId};

fn vote_item(name: &str, weight: u8) -> VoteItem {
    VoteItem { ballot_name: name.to_string(), vote_weight: weight }
}

fn ballot(title: &str, author: u64, at: i64) -> Ballot {
    Ballot {
        title: title.to_string(),
        description: String::new(),
        created_by: author,
        created_at: at,
    }
}

#[test]
fn create_then_get_original_round_trip() {
    let mut records = RecordStore::<VoteItem>::new();
    let created = create(&mut records, vote_item("budget", 3), 7, 100).unwrap();
    assert_eq!(created.address, Address(0));
    assert_eq!(created.author, 7);
    assert_eq!(created.timestamp, 100);
    assert_eq!(created.predecessor, None);
    let fetched = get_original(&records, created.address).unwrap();
    assert_eq!(fetched, created);
    assert_eq!(fetched.payload, vote_item("budget", 3));
}

#[test]
fn latest_of_fresh_entity_is_original() {
    let mut records = RecordStore::<VoteItem>::new();
    let links = LinkIndex::new();
    let created = create(&mut records, vote_item("budget", 3), 7, 100).unwrap();
    let latest = get_latest(&records, &links, created.address);
    let original = get_original(&records, created.address);
    assert_eq!(latest, original);
    assert_eq!(latest.unwrap().payload, vote_item("budget", 3));
}

#[test]
fn update_advances_latest() {
    let mut records = RecordStore::<VoteItem>::new();
    let mut links = LinkIndex::new();
    let orig = create(&mut records, vote_item("budget", 3), 7, 100).unwrap();
    let revised = update(
        &mut records,
        &mut links,
        orig.address,
        orig.address,
        vote_item("budget", 5),
        8,
        200,
    )
    .unwrap();
    assert_eq!(revised.address, Address(1));
    assert_eq!(revised.predecessor, Some(orig.address));
    let latest = get_latest(&records, &links, orig.address).unwrap();
    assert_eq!(latest, revised);
    // the original record is still there, immutable
    assert_eq!(get_original(&records, orig.address).unwrap(), orig);
}

#[test]
fn revision_history_is_complete() {
    let mut records = RecordStore::<VoteItem>::new();
    let mut links = LinkIndex::new();
    let orig = create(&mut records, vote_item("budget", 1), 7, 100).unwrap();
    let second = update(
        &mut records,
        &mut links,
        orig.address,
        orig.address,
        vote_item("budget", 2),
        8,
        200,
    )
    .unwrap();
    let third = update(
        &mut records,
        &mut links,
        orig.address,
        second.address,
        vote_item("budget", 3),
        9,
        150,
    )
    .unwrap();
    let history = get_all_revisions(&records, &links, orig.address);
    assert_eq!(history.len(), 3);
    assert_eq!(history[0], get_original(&records, orig.address).unwrap());
    assert_eq!(history[1], second);
    assert_eq!(history[2], third);
}

#[test]
fn history_of_unknown_entity_is_empty() {
    let records = RecordStore::<VoteItem>::new();
    let links = LinkIndex::new();
    let history = get_all_revisions(&records, &links, Address(42));
    assert!(history.is_empty());
}

#[test]
fn tombstones_accumulate_per_author() {
    let mut records = RecordStore::<VoteItem>::new();
    let orig = create(&mut records, vote_item("budget", 1), 7, 100).unwrap();
    assert_eq!(delete(&mut records, orig.address, 1, 300), Ok(TombstoneId(0)));
    assert_eq!(delete(&mut records, orig.address, 2, 250), Ok(TombstoneId(1)));
    assert_eq!(delete(&mut records, orig.address, 3, 400), Ok(TombstoneId(2)));
    let stones = get_all_tombstones(&records, orig.address).unwrap();
    assert_eq!(stones.len(), 3);
    let oldest = get_oldest_tombstone(&records, orig.address).unwrap();
    assert_eq!(oldest.author, 2);
    assert_eq!(oldest.timestamp, 250);
    assert_eq!(oldest.target, orig.address);
}

#[test]
fn oldest_tombstone_tie_breaks_on_first_recorded() {
    let mut records = RecordStore::<VoteItem>::new();
    let orig = create(&mut records, vote_item("budget", 1), 7, 100).unwrap();
    delete(&mut records, orig.address, 5, 250).unwrap();
    delete(&mut records, orig.address, 6, 250).unwrap();
    let oldest = get_oldest_tombstone(&records, orig.address).unwrap();
    assert_eq!(oldest.author, 5);
}

#[test]
fn unknown_entity_vs_never_deleted() {
    let mut records = RecordStore::<VoteItem>::new();
    let orig = create(&mut records, vote_item("budget", 1), 7, 100).unwrap();
    assert_eq!(get_all_tombstones(&records, Address(99)), None);
    let stones = get_all_tombstones(&records, orig.address).unwrap();
    assert!(stones.is_empty());
    assert_eq!(get_oldest_tombstone(&records, Address(99)), None);
    assert_eq!(get_oldest_tombstone(&records, orig.address), None);
}

#[test]
fn out_of_order_update_arrival_still_resolves_newest() {
    // the ballot is created at t=100; one peer updates at t=200, another at
    // t=150; whichever order the two links arrive in, t=200 wins
    let mut records = RecordStore::<Ballot>::new();
    let mut links = LinkIndex::new();
    let orig = create(&mut records, ballot("q1", 7, 100), 7, 100).unwrap();
    let newest = update(
        &mut records,
        &mut links,
        orig.address,
        orig.address,
        ballot("q1 revised", 8, 200),
        8,
        200,
    )
    .unwrap();
    let stale = update(
        &mut records,
        &mut links,
        orig.address,
        orig.address,
        ballot("q1 delayed", 9, 150),
        9,
        150,
    )
    .unwrap();
    assert_eq!(newest.address, Address(1));
    assert_eq!(stale.address, Address(2));
    assert_eq!(get_latest(&records, &links, orig.address).unwrap(), newest);

    // reversed arrival order: the delayed link lands first
    let mut records2 = RecordStore::<Ballot>::new();
    let mut links2 = LinkIndex::new();
    let orig2 = create(&mut records2, ballot("q1", 7, 100), 7, 100).unwrap();
    update(
        &mut records2,
        &mut links2,
        orig2.address,
        orig2.address,
        ballot("q1 delayed", 9, 150),
        9,
        150,
    )
    .unwrap();
    let newest2 = update(
        &mut records2,
        &mut links2,
        orig2.address,
        orig2.address,
        ballot("q1 revised", 8, 200),
        8,
        200,
    )
    .unwrap();
    assert_eq!(get_latest(&records2, &links2, orig2.address).unwrap(), newest2);
}

#[test]
fn equal_timestamp_tie_breaks_on_last_link_scanned() {
    let mut records = RecordStore::<VoteItem>::new();
    let mut links = LinkIndex::new();
    let orig = create(&mut records, vote_item("budget", 1), 7, 100).unwrap();
    update(
        &mut records,
        &mut links,
        orig.address,
        orig.address,
        vote_item("budget", 2),
        8,
        200,
    )
    .unwrap();
    let second = update(
        &mut records,
        &mut links,
        orig.address,
        orig.address,
        vote_item("budget", 3),
        9,
        200,
    )
    .unwrap();
    // colliding wall clocks: the link encountered last in the scan wins
    assert_eq!(get_latest(&records, &links, orig.address).unwrap(), second);
}

#[test]
fn deletion_never_hides_latest_or_history() {
    let mut records = RecordStore::<VoteItem>::new();
    let mut links = LinkIndex::new();
    let orig = create(&mut records, vote_item("budget", 1), 7, 100).unwrap();
    let revised = update(
        &mut records,
        &mut links,
        orig.address,
        orig.address,
        vote_item("budget", 2),
        8,
        200,
    )
    .unwrap();
    delete(&mut records, revised.address, 9, 300).unwrap();
    // tombstones are orthogonal: latest and history still resolve
    assert_eq!(get_latest(&records, &links, orig.address).unwrap(), revised);
    assert_eq!(get_all_revisions(&records, &links, orig.address).len(), 2);
    assert_eq!(get_all_tombstones(&records, revised.address).unwrap().len(), 1);
}

#[test]
fn rejected_record_write_leaves_store_unchanged() {
    let mut records = RecordStore::<VoteItem>::new();
    create(&mut records, vote_item("budget", 1), 7, 100).unwrap();
    records.set_accepting(false);
    let result = create(&mut records, vote_item("budget", 2), 7, 200);
    assert_eq!(result.unwrap_err(), StoreError::StorageWriteError);
    assert_eq!(get_original(&records, Address(1)), None);
    records.set_accepting(true);
    let retried = create(&mut records, vote_item("budget", 2), 7, 200).unwrap();
    assert_eq!(retried.address, Address(1));
}

#[test]
fn rejected_link_write_is_reported_distinctly() {
    let mut records = RecordStore::<VoteItem>::new();
    let mut links = LinkIndex::new();
    let orig = create(&mut records, vote_item("budget", 1), 7, 100).unwrap();
    links.set_accepting(false);
    let result = update(
        &mut records,
        &mut links,
        orig.address,
        orig.address,
        vote_item("budget", 2),
        8,
        200,
    );
    assert_eq!(result.unwrap_err(), StoreError::LinkWriteError);
    // the record write preceded the link failure: the new record is
    // persisted, but not reachable as a revision of the entity
    assert!(get_original(&records, Address(1)).is_some());
    assert_eq!(get_latest(&records, &links, orig.address).unwrap(), orig);
    assert_eq!(get_all_revisions(&records, &links, orig.address).len(), 1);
}

#[test]
fn rejected_tombstone_write_is_reported() {
    let mut records = RecordStore::<VoteItem>::new();
    let orig = create(&mut records, vote_item("budget", 1), 7, 100).unwrap();
    records.set_accepting(false);
    let result = delete(&mut records, orig.address, 7, 200);
    assert_eq!(result.unwrap_err(), StoreError::StorageWriteError);
    records.set_accepting(true);
    assert_eq!(get_all_tombstones(&records, orig.address).unwrap().len(), 0);
}

#[test]
fn operations_on_unknown_addresses_report_not_found() {
    let mut records = RecordStore::<VoteItem>::new();
    let mut links = LinkIndex::new();
    let orig = create(&mut records, vote_item("budget", 1), 7, 100).unwrap();
    assert_eq!(delete(&mut records, Address(9), 7, 200).unwrap_err(), StoreError::NotFound);
    let bad_base = update(
        &mut records,
        &mut links,
        orig.address,
        Address(9),
        vote_item("budget", 2),
        8,
        200,
    );
    assert_eq!(bad_base.unwrap_err(), StoreError::NotFound);
    let bad_orig = update(
        &mut records,
        &mut links,
        Address(9),
        orig.address,
        vote_item("budget", 2),
        8,
        200,
    );
    assert_eq!(bad_orig.unwrap_err(), StoreError::NotFound);
    assert_eq!(get_original(&records, Address(9)), None);
    assert_eq!(get_latest(&records, &links, Address(9)), None);
}

#[test]
fn entities_are_isolated_by_original_address() {
    let mut records = RecordStore::<VoteItem>::new();
    let mut links = LinkIndex::new();
    let first = create(&mut records, vote_item("budget", 1), 7, 100).unwrap();
    let second = create(&mut records, vote_item("roads", 1), 7, 110).unwrap();
    update(
        &mut records,
        &mut links,
        first.address,
        first.address,
        vote_item("budget", 2),
        8,
        200,
    )
    .unwrap();
    assert_eq!(get_latest(&records, &links, second.address).unwrap(), second);
    assert_eq!(get_all_revisions(&records, &links, second.address).len(), 1);
    assert_eq!(get_all_revisions(&records, &links, first.address).len(), 2);
}
