//! The versioned record store: logical-entity semantics built on the record
//! store and the link index.
//!
//! An entity is born when its first record is created; that record's address
//! is its permanent identifier. Updating appends a new record plus an update
//! link from the original address; the latest revision is resolved as the
//! link with the maximal timestamp (last encountered wins on a tie, a
//! deliberate weak-consistency property). Deleting only accumulates
//! tombstones; history and latest-value remain queryable forever.

use vstd::prelude::*;

use crate::model::{
    created_record, fetch_spec, fetched_records, latest_pick, latest_spec,
    lemma_fetched_records_known, lemma_latest_pick_props, lemma_link_timestamps,
    lemma_links_of_props, lemma_oldest_pick_props, lemma_tombstone_timestamps, link_timestamps,
    links_bounded, links_of, made_link, oldest_pick, revisions_spec, tombstone_timestamps,
    tombstones_of, updated_record,
};
use crate::substrate::{LinkIndex, RecordStore};
use crate::types::{Address, Payload, Record, StoreError, Tombstone, TombstoneId};

verus! {

/// Index of the winner under latest-wins resolution: the maximal timestamp,
/// and on an exact tie the occurrence scanned last.
pub fn pick_latest(timestamps: &Vec<i64>) -> (result: Option<usize>)
    ensures
        timestamps@.len() == 0 ==> result is None,
        timestamps@.len() > 0 ==> (result matches Some(best) && best == latest_pick(timestamps@)),
{
    if timestamps.len() == 0 {
        return None;
    }
    let mut best: usize = 0;
    let mut i: usize = 1;
    while i < timestamps.len()
        invariant
            1 <= i <= timestamps@.len(),
            best < i,
            best == latest_pick(timestamps@.take(i as int)),
        decreases timestamps@.len() - i,
    {
        proof {
            assert(timestamps@.take(i as int + 1).drop_last() =~= timestamps@.take(i as int));
            assert(timestamps@.take(i as int + 1).last() == timestamps@[i as int]);
        }
        if timestamps[i] >= timestamps[best] {
            best = i;
        }
        i = i + 1;
    }
    proof {
        assert(timestamps@.take(timestamps@.len() as int) =~= timestamps@);
    }
    Some(best)
}

/// Index of the winner when the oldest entry is wanted: the minimal
/// timestamp, and on an exact tie the occurrence scanned first.
pub fn pick_oldest(timestamps: &Vec<i64>) -> (result: Option<usize>)
    ensures
        timestamps@.len() == 0 ==> result is None,
        timestamps@.len() > 0 ==> (result matches Some(best) && best == oldest_pick(timestamps@)),
{
    if timestamps.len() == 0 {
        return None;
    }
    let mut best: usize = 0;
    let mut i: usize = 1;
    while i < timestamps.len()
        invariant
            1 <= i <= timestamps@.len(),
            best < i,
            best == oldest_pick(timestamps@.take(i as int)),
        decreases timestamps@.len() - i,
    {
        proof {
            assert(timestamps@.take(i as int + 1).drop_last() =~= timestamps@.take(i as int));
            assert(timestamps@.take(i as int + 1).last() == timestamps@[i as int]);
        }
        if timestamps[i] < timestamps[best] {
            best = i;
        }
        i = i + 1;
    }
    proof {
        assert(timestamps@.take(timestamps@.len() as int) =~= timestamps@);
    }
    Some(best)
}

/// Creates a new entity: persists the payload as an immutable record and
/// returns the record read back from the store. The record's address is the
/// entity's original address for its entire lifetime.
pub fn create<P: Payload>(
    record_store: &mut RecordStore<P>,
    payload: P,
    author: u64,
    timestamp: i64,
) -> (result: Result<Record<P>, StoreError>)
    requires
        old(record_store).wf(),
    ensures
        final(record_store).wf(),
        final(record_store).accepting() == old(record_store).accepting(),
        final(record_store).tombstones() == old(record_store).tombstones(),
        old(record_store).accepting() ==> {
            &&& result == Ok::<Record<P>, StoreError>(
                created_record(old(record_store).records().len() as int, payload, author, timestamp),
            )
            &&& final(record_store).records() == old(record_store).records().push(
                created_record(old(record_store).records().len() as int, payload, author, timestamp),
            )
        },
        !old(record_store).accepting() ==> result == Err::<Record<P>, StoreError>(
            StoreError::StorageWriteError,
        ) && *final(record_store) == *old(record_store),
{
    let address = match record_store.store_record(payload, author, timestamp, None) {
        Ok(address) => address,
        Err(e) => {
            return Err(e);
        },
    };
    match record_store.fetch_record(address) {
        Some(rec) => Ok(rec),
        None => Err(StoreError::ReadBackMissing),
    }
}

/// Fetches the record at the entity's original address. `None` means the
/// substrate has no knowledge of the address — a legitimate outcome, not a
/// fault.
pub fn get_original<P: Payload>(record_store: &RecordStore<P>, original_address: Address) -> (result:
    Option<Record<P>>)
    ensures
        result == fetch_spec(record_store.records(), original_address),
{
    record_store.fetch_record(original_address)
}

/// Resolves the entity's latest revision: the original record when no update
/// link exists, otherwise the record targeted by the maximal-timestamp link
/// (last encountered wins on an exact tie). Tombstones are never consulted:
/// a deleted entity still resolves a latest record.
pub fn get_latest<P: Payload>(
    record_store: &RecordStore<P>,
    link_index: &LinkIndex,
    original_address: Address,
) -> (result: Option<Record<P>>)
    ensures
        result == latest_spec(record_store.records(), link_index.links(), original_address),
        links_bounded(link_index.links(), record_store.records().len() as int) && links_of(
            link_index.links(),
            original_address,
        ).len() > 0 ==> result is Some,
{
    let links = link_index.fetch_links(original_address);
    if links.len() == 0 {
        return record_store.fetch_record(original_address);
    }
    let mut timestamps: Vec<i64> = Vec::new();
    let mut i: usize = 0;
    while i < links.len()
        invariant
            i <= links@.len(),
            timestamps@ == link_timestamps(links@.take(i as int)),
        decreases links@.len() - i,
    {
        proof {
            assert(links@.take(i as int + 1).drop_last() =~= links@.take(i as int));
            assert(links@.take(i as int + 1).last() == links@[i as int]);
        }
        timestamps.push(links[i].timestamp);
        i = i + 1;
    }
    proof {
        assert(links@.take(links@.len() as int) =~= links@);
        lemma_link_timestamps(links@);
        lemma_latest_pick_props(timestamps@);
    }
    let best = match pick_latest(&timestamps) {
        Some(best) => best,
        None => {
            return None;
        },
    };
    let result = record_store.fetch_record(links[best].target);
    proof {
        if links_bounded(link_index.links(), record_store.records().len() as int) {
            lemma_links_of_props(
                link_index.links(),
                original_address,
                record_store.records().len() as int,
            );
        }
    }
    result
}

/// Reconstructs the entity's full revision history: the original record
/// first, then every record an update link targets, in the order the link
/// index returns them (no chronological sort), fetched in one batched
/// multi-get. Empty when the original record itself is unknown.
pub fn get_all_revisions<P: Payload>(
    record_store: &RecordStore<P>,
    link_index: &LinkIndex,
    original_address: Address,
) -> (result: Vec<Record<P>>)
    ensures
        result@ == revisions_spec(record_store.records(), link_index.links(), original_address),
        fetch_spec(record_store.records(), original_address) is Some && links_bounded(
            link_index.links(),
            record_store.records().len() as int,
        ) ==> result@.len() == links_of(link_index.links(), original_address).len() + 1,
{
    proof {
        if fetch_spec(record_store.records(), original_address) is Some && links_bounded(
            link_index.links(),
            record_store.records().len() as int,
        ) {
            lemma_links_of_props(
                link_index.links(),
                original_address,
                record_store.records().len() as int,
            );
            lemma_fetched_records_known(
                record_store.records(),
                links_of(link_index.links(), original_address),
            );
        }
    }
    let original = match record_store.fetch_record(original_address) {
        Some(rec) => rec,
        None => {
            return Vec::new();
        },
    };
    let links = link_index.fetch_links(original_address);
    let mut targets: Vec<Address> = Vec::new();
    let mut i: usize = 0;
    while i < links.len()
        invariant
            i <= links@.len(),
            targets@.len() == i,
            forall|j: int| 0 <= j < i ==> #[trigger] targets@[j] == links@[j].target,
        decreases links@.len() - i,
    {
        targets.push(links[i].target);
        i = i + 1;
    }
    let fetched = record_store.fetch_records_batch(&targets);
    let ghost all_fetched = fetched@;
    let ghost original_rec = original;
    let mut result: Vec<Record<P>> = Vec::new();
    result.push(original);
    let mut rest: Vec<Option<Record<P>>> = fetched;
    let mut consumed: usize = 0;
    while rest.len() > 0
        invariant
            consumed + rest@.len() == links@.len(),
            rest@ == all_fetched.skip(consumed as int),
            all_fetched.len() == links@.len(),
            forall|j: int|
                0 <= j < links@.len() ==> #[trigger] all_fetched[j] == fetch_spec(
                    record_store.records(),
                    links@[j].target,
                ),
            result@ == seq![original_rec] + fetched_records(
                record_store.records(),
                links@.take(consumed as int),
            ),
        decreases rest@.len(),
    {
        proof {
            assert(links@.take(consumed as int + 1).drop_last() =~= links@.take(consumed as int));
            assert(links@.take(consumed as int + 1).last() == links@[consumed as int]);
            assert(rest@[0] == all_fetched[consumed as int]);
            assert(all_fetched.skip(consumed as int).skip(1) =~= all_fetched.skip(
                consumed as int + 1,
            ));
        }
        let head: Option<Record<P>> = rest.remove(0);
        match head {
            Some(rec) => {
                result.push(rec);
            },
            None => {},
        }
        proof {
            assert(links@.len() == links.len());
        }
        consumed = consumed + 1;
    }
    proof {
        assert(links@.take(links@.len() as int) =~= links@);
    }
    result
}

/// Updates an entity: persists the new payload as a new immutable record,
/// then links it from the original address. `base_revision_address` is the
/// revision the caller believes current; it is advisory only — no
/// compare-and-swap is performed, and concurrent updates from a stale base
/// are accepted unconditionally. Both addresses must name known records,
/// which keeps every link pointing at an existing record.
///
/// A rejected record write leaves everything unchanged; a rejected link
/// write is reported distinctly, with the new record already persisted —
/// the only partial effect an operation can leave.
pub fn update<P: Payload>(
    record_store: &mut RecordStore<P>,
    link_index: &mut LinkIndex,
    original_address: Address,
    base_revision_address: Address,
    payload: P,
    author: u64,
    timestamp: i64,
) -> (result: Result<Record<P>, StoreError>)
    requires
        old(record_store).wf(),
    ensures
        final(record_store).wf(),
        final(record_store).accepting() == old(record_store).accepting(),
        final(record_store).tombstones() == old(record_store).tombstones(),
        final(link_index).accepting() == old(link_index).accepting(),
        (original_address.0 >= old(record_store).records().len() || base_revision_address.0 >= old(
            record_store,
        ).records().len()) ==> result == Err::<Record<P>, StoreError>(StoreError::NotFound)
            && *final(record_store) == *old(record_store) && *final(link_index) == *old(link_index),
        original_address.0 < old(record_store).records().len() && base_revision_address.0 < old(
            record_store,
        ).records().len() ==> {
            &&& !old(record_store).accepting() ==> result == Err::<Record<P>, StoreError>(
                StoreError::StorageWriteError,
            ) && *final(record_store) == *old(record_store) && *final(link_index) == *old(
                link_index,
            )
            &&& old(record_store).accepting() ==> final(record_store).records() == old(
                record_store,
            ).records().push(
                updated_record(
                    old(record_store).records().len() as int,
                    payload,
                    author,
                    timestamp,
                    base_revision_address,
                ),
            )
            &&& old(record_store).accepting() && !old(link_index).accepting() ==> result == Err::<
                Record<P>,
                StoreError,
            >(StoreError::LinkWriteError) && *final(link_index) == *old(link_index)
            &&& old(record_store).accepting() && old(link_index).accepting() ==> {
                &&& result == Ok::<Record<P>, StoreError>(
                    updated_record(
                        old(record_store).records().len() as int,
                        payload,
                        author,
                        timestamp,
                        base_revision_address,
                    ),
                )
                &&& final(link_index).links() == old(link_index).links().push(
                    made_link(
                        original_address,
                        Address(old(record_store).records().len() as u64),
                        author,
                        timestamp,
                    ),
                )
            }
        },
{
    if !record_store.knows(original_address) || !record_store.knows(base_revision_address) {
        return Err(StoreError::NotFound);
    }
    let new_address = match record_store.store_record(
        payload,
        author,
        timestamp,
        Some(base_revision_address),
    ) {
        Ok(address) => address,
        Err(e) => {
            return Err(e);
        },
    };
    match link_index.store_link(original_address, new_address, author, timestamp) {
        Ok(_) => {},
        Err(e) => {
            return Err(e);
        },
    }
    match record_store.fetch_record(new_address) {
        Some(rec) => Ok(rec),
        None => Err(StoreError::ReadBackMissing),
    }
}

/// Records a tombstone against a revision address. No check is made that the
/// address is the latest revision or not yet tombstoned: duplicate and
/// stale-target tombstones simply accumulate. Only an address the store has
/// never heard of is refused.
pub fn delete<P: Payload>(
    record_store: &mut RecordStore<P>,
    revision_address: Address,
    author: u64,
    timestamp: i64,
) -> (result: Result<TombstoneId, StoreError>)
    requires
        old(record_store).wf(),
    ensures
        final(record_store).wf(),
        final(record_store).accepting() == old(record_store).accepting(),
        final(record_store).records() == old(record_store).records(),
        revision_address.0 >= old(record_store).records().len() ==> result == Err::<
            TombstoneId,
            StoreError,
        >(StoreError::NotFound) && *final(record_store) == *old(record_store),
        revision_address.0 < old(record_store).records().len() && !old(record_store).accepting()
            ==> result == Err::<TombstoneId, StoreError>(StoreError::StorageWriteError)
            && *final(record_store) == *old(record_store),
        revision_address.0 < old(record_store).records().len() && old(record_store).accepting()
            ==> {
            &&& result == Ok::<TombstoneId, StoreError>(
                TombstoneId(old(record_store).tombstones().len() as u64),
            )
            &&& final(record_store).tombstones() == old(record_store).tombstones().push(
                crate::model::made_tombstone(revision_address, author, timestamp),
            )
        },
{
    record_store.store_tombstone(revision_address, author, timestamp)
}

/// Every tombstone recorded against the address, in the order the store
/// holds them, or `None` if the address itself is unknown — so a caller can
/// distinguish an unknown entity from a known entity nobody has deleted,
/// which yields an empty sequence.
pub fn get_all_tombstones<P: Payload>(
    record_store: &RecordStore<P>,
    revision_address: Address,
) -> (result: Option<Vec<Tombstone>>)
    ensures
        revision_address.0 < record_store.records().len() ==> (result matches Some(v) && v@
            == tombstones_of(record_store.tombstones(), revision_address)),
        revision_address.0 >= record_store.records().len() ==> result is None,
{
    record_store.fetch_tombstones(revision_address)
}

/// The tombstone with the minimal timestamp among all recorded against the
/// address — the first deletion attempt by wall clock; the occurrence
/// scanned first wins an exact tie. `None` when the address is unknown or
/// has no tombstones.
pub fn get_oldest_tombstone<P: Payload>(
    record_store: &RecordStore<P>,
    revision_address: Address,
) -> (result: Option<Tombstone>)
    ensures
        ({
            let stones = tombstones_of(record_store.tombstones(), revision_address);
            if revision_address.0 < record_store.records().len() && stones.len() > 0 {
                result == Some(stones[oldest_pick(tombstone_timestamps(stones))])
            } else {
                result is None
            }
        }),
{
    let stones = match record_store.fetch_tombstones(revision_address) {
        Some(stones) => stones,
        None => {
            return None;
        },
    };
    if stones.len() == 0 {
        return None;
    }
    let mut timestamps: Vec<i64> = Vec::new();
    let mut i: usize = 0;
    while i < stones.len()
        invariant
            i <= stones@.len(),
            timestamps@ == tombstone_timestamps(stones@.take(i as int)),
        decreases stones@.len() - i,
    {
        proof {
            assert(stones@.take(i as int + 1).drop_last() =~= stones@.take(i as int));
            assert(stones@.take(i as int + 1).last() == stones@[i as int]);
        }
        timestamps.push(stones[i].timestamp);
        i = i + 1;
    }
    proof {
        assert(stones@.take(stones@.len() as int) =~= stones@);
        lemma_tombstone_timestamps(stones@);
        lemma_oldest_pick_props(timestamps@);
    }
    match pick_oldest(&timestamps) {
        Some(best) => Some(stones[best]),
        None => None,
    }
}

} // verus!
