//! The laws of the versioned record store, stated over the model and proved
//! once for all inputs: creation round-trips, latest-resolution before and
//! after updates, completeness of the revision history, accumulation of
//! tombstones, and the distinction between an unknown entity and a known,
//! never-deleted one.

use vstd::prelude::*;

use crate::model::{
    created_record, fetch_spec, fetched_records, latest_spec, lemma_fetched_records_push_record,
    lemma_latest_pick_push_newest, lemma_link_timestamps, lemma_links_of_fresh,
    lemma_links_of_props, lemma_links_of_push, lemma_oldest_pick_props,
    lemma_tombstone_timestamps, lemma_tombstones_of_fresh, lemma_tombstones_of_push,
    link_timestamps, links_bounded, links_of, made_link, made_tombstone, oldest_pick,
    revisions_spec, tombstone_timestamps, tombstones_bounded, tombstones_of, updated_record,
};
use crate::types::{Address, Record, Tombstone, UpdateLink};

verus! {

/// One update applied to an entity: the payload written, the author and
/// timestamp the substrate records, and the revision the writer believed
/// current.
pub struct UpdateOp<P> {
    pub base: Address,
    pub payload: P,
    pub author: u64,
    pub timestamp: i64,
}

/// One delete applied to a revision address: the author and timestamp the
/// substrate records.
pub struct DeleteOp {
    pub author: u64,
    pub timestamp: i64,
}

/// The store contents after a sequence of updates of the entity rooted at
/// `orig`, applied in order: each appends its record and its update link.
pub open spec fn apply_updates<P>(
    records: Seq<Record<P>>,
    links: Seq<UpdateLink>,
    orig: Address,
    ops: Seq<UpdateOp<P>>,
) -> (Seq<Record<P>>, Seq<UpdateLink>)
    decreases ops.len(),
{
    if ops.len() == 0 {
        (records, links)
    } else {
        let prior = apply_updates(records, links, orig, ops.drop_last());
        let op = ops.last();
        (
            prior.0.push(
                updated_record(prior.0.len() as int, op.payload, op.author, op.timestamp, op.base),
            ),
            prior.1.push(made_link(orig, Address(prior.0.len() as u64), op.author, op.timestamp)),
        )
    }
}

/// The records a sequence of updates creates, when the store held `n`
/// records before the first of them.
pub open spec fn update_records<P>(n: int, ops: Seq<UpdateOp<P>>) -> Seq<Record<P>>
    decreases ops.len(),
{
    if ops.len() == 0 {
        Seq::empty()
    } else {
        update_records(n, ops.drop_last()).push(
            updated_record(
                n + ops.len() - 1,
                ops.last().payload,
                ops.last().author,
                ops.last().timestamp,
                ops.last().base,
            ),
        )
    }
}

/// The tombstone list after a sequence of deletes of `target`, applied in
/// order.
pub open spec fn apply_deletes(
    stones: Seq<Tombstone>,
    target: Address,
    ops: Seq<DeleteOp>,
) -> Seq<Tombstone>
    decreases ops.len(),
{
    if ops.len() == 0 {
        stones
    } else {
        apply_deletes(stones, target, ops.drop_last()).push(
            made_tombstone(target, ops.last().author, ops.last().timestamp),
        )
    }
}

/// The tombstones a sequence of deletes of `target` records.
pub open spec fn made_tombstones(target: Address, ops: Seq<DeleteOp>) -> Seq<Tombstone>
    decreases ops.len(),
{
    if ops.len() == 0 {
        Seq::empty()
    } else {
        made_tombstones(target, ops.drop_last()).push(
            made_tombstone(target, ops.last().author, ops.last().timestamp),
        )
    }
}

/// Create/read round trip: whatever the payload, reading the original
/// address of a record just created yields exactly that record.
pub proof fn lemma_create_read_round_trip<P>(
    records: Seq<Record<P>>,
    payload: P,
    author: u64,
    timestamp: i64,
)
    requires
        records.len() <= u64::MAX,
    ensures
        ({
            let rec = created_record(records.len() as int, payload, author, timestamp);
            fetch_spec(records.push(rec), rec.address) == Some(rec)
        }),
{
}

/// No-update latest: before any update, the latest revision of a just
/// created entity is the original record itself — resolving latest and
/// reading the original agree.
pub proof fn lemma_fresh_entity_latest<P>(
    records: Seq<Record<P>>,
    links: Seq<UpdateLink>,
    payload: P,
    author: u64,
    timestamp: i64,
)
    requires
        records.len() <= u64::MAX,
        links_bounded(links, records.len() as int),
    ensures
        ({
            let rec = created_record(records.len() as int, payload, author, timestamp);
            let grown = records.push(rec);
            latest_spec(grown, links, rec.address) == fetch_spec(grown, rec.address)
                && latest_spec(grown, links, rec.address) == Some(rec)
        }),
{
    lemma_links_of_fresh(links, Address(records.len() as u64), records.len() as int);
}

/// Update advances latest: an update whose timestamp is strictly greater
/// than that of every existing update link on the original address makes
/// the new record the latest revision — whatever the advisory base, and
/// however many concurrent links already exist.
pub proof fn lemma_update_advances_latest<P>(
    records: Seq<Record<P>>,
    links: Seq<UpdateLink>,
    orig: Address,
    base: Address,
    payload: P,
    author: u64,
    timestamp: i64,
)
    requires
        records.len() <= u64::MAX,
        forall|i: int|
            0 <= i < links_of(links, orig).len() ==> (#[trigger] links_of(links, orig)[i]).timestamp
                < timestamp,
    ensures
        ({
            let rec = updated_record(records.len() as int, payload, author, timestamp, base);
            let link = made_link(orig, rec.address, author, timestamp);
            latest_spec(records.push(rec), links.push(link), orig) == Some(rec)
        }),
{
    let n = records.len() as int;
    let rec = updated_record(n, payload, author, timestamp, base);
    let link = made_link(orig, rec.address, author, timestamp);
    lemma_links_of_push(links, link, orig);
    let before = links_of(links, orig);
    let after = links_of(links.push(link), orig);
    assert(after == before.push(link));
    lemma_link_timestamps(before);
    lemma_link_timestamps(after);
    assert(link_timestamps(after) =~= link_timestamps(before).push(timestamp));
    assert forall|i: int| 0 <= i < link_timestamps(before).len() implies #[trigger] link_timestamps(
        before,
    )[i] < timestamp by {
        assert(link_timestamps(before)[i] == before[i].timestamp);
    }
    lemma_latest_pick_push_newest(link_timestamps(before), timestamp);
    assert(after[before.len() as int] == link);
    assert(fetch_spec(records.push(rec), link.target) == Some(rec));
}

/// History completeness: applying any sequence of updates to an entity
/// extends its revision history by exactly the records those updates
/// create, in order, and leaves every earlier record in place. In
/// particular, after `N` updates of an entity whose history held the
/// original alone, the history has `N + 1` entries: the original first,
/// then the created revisions.
pub proof fn lemma_history_completeness<P>(
    records: Seq<Record<P>>,
    links: Seq<UpdateLink>,
    orig: Address,
    ops: Seq<UpdateOp<P>>,
)
    requires
        records.len() + ops.len() <= u64::MAX,
        links_bounded(links, records.len() as int),
        orig.0 < records.len(),
    ensures
        ({
            let grown = apply_updates(records, links, orig, ops);
            &&& grown.0.len() == records.len() + ops.len()
            &&& forall|i: int| 0 <= i < records.len() ==> #[trigger] grown.0[i] == records[i]
            &&& links_bounded(grown.1, grown.0.len() as int)
            &&& revisions_spec(grown.0, grown.1, orig) == revisions_spec(records, links, orig)
                + update_records(records.len() as int, ops)
        }),
    decreases ops.len(),
{
    let grown = apply_updates(records, links, orig, ops);
    if ops.len() == 0 {
        assert(revisions_spec(records, links, orig) + update_records(records.len() as int, ops)
            =~= revisions_spec(records, links, orig));
    } else {
        let op = ops.last();
        lemma_history_completeness(records, links, orig, ops.drop_last());
        let prior = apply_updates(records, links, orig, ops.drop_last());
        let rec = updated_record(prior.0.len() as int, op.payload, op.author, op.timestamp, op.base);
        let link = made_link(orig, Address(prior.0.len() as u64), op.author, op.timestamp);
        assert(grown.0 == prior.0.push(rec));
        assert(grown.1 == prior.1.push(link));
        // the freshly created record is addressed by its position
        assert(rec.address.0 == prior.0.len());
        // every earlier record is untouched
        assert forall|i: int| 0 <= i < records.len() implies #[trigger] grown.0[i] == records[i] by {
            assert(prior.0[i] == records[i]);
        }
        // the new link ends at known records, so the link set stays bounded
        assert forall|i: int| 0 <= i < grown.1.len() implies (#[trigger] grown.1[i]).base.0
            < grown.0.len() && grown.1[i].target.0 < grown.0.len() by {
            if i < prior.1.len() {
                assert(prior.1[i].base.0 < prior.0.len() && prior.1[i].target.0 < prior.0.len());
            }
        }
        // the original record resolves the same before and after
        assert(fetch_spec(prior.0, orig) == Some(prior.0[orig.0 as int]));
        assert(fetch_spec(grown.0, orig) == fetch_spec(prior.0, orig));
        // filtering links by the original distributes over the appended link
        lemma_links_of_push(prior.1, link, orig);
        let before = links_of(prior.1, orig);
        lemma_links_of_props(prior.1, orig, prior.0.len() as int);
        // fetching the old links' targets ignores the appended record
        lemma_fetched_records_push_record(prior.0, before, rec);
        // the appended link fetches exactly the appended record
        assert(before.push(link).drop_last() =~= before);
        assert(fetch_spec(grown.0, link.target) == Some(rec));
        assert(fetched_records(grown.0, before.push(link)) == fetched_records(
            prior.0,
            before,
        ).push(rec));
        // assemble both sides of the history equation
        let r0 = prior.0[orig.0 as int];
        assert(revisions_spec(grown.0, grown.1, orig) == seq![r0] + fetched_records(
            prior.0,
            before,
        ).push(rec));
        assert(update_records(records.len() as int, ops) == update_records(
            records.len() as int,
            ops.drop_last(),
        ).push(rec));
        assert(seq![r0] + fetched_records(prior.0, before).push(rec) =~= (seq![r0]
            + fetched_records(prior.0, before)).push(rec));
        assert(revisions_spec(records, links, orig) + update_records(records.len() as int, ops)
            =~= (revisions_spec(records, links, orig) + update_records(
            records.len() as int,
            ops.drop_last(),
        )).push(rec));
    }
}

/// Tombstone accumulation: deleting a revision address `k` times, from any
/// mix of authors and timestamps, leaves exactly `k` more tombstones
/// against that address — and exactly the tombstones those deletes made,
/// in order. Tombstones against other addresses are untouched.
pub proof fn lemma_tombstone_accumulation(
    stones: Seq<Tombstone>,
    target: Address,
    other: Address,
    ops: Seq<DeleteOp>,
)
    ensures
        tombstones_of(apply_deletes(stones, target, ops), target) == tombstones_of(stones, target)
            + made_tombstones(target, ops),
        tombstones_of(apply_deletes(stones, target, ops), target).len() == tombstones_of(
            stones,
            target,
        ).len() + ops.len(),
        other != target ==> tombstones_of(apply_deletes(stones, target, ops), other)
            == tombstones_of(stones, other),
    decreases ops.len(),
{
    if ops.len() == 0 {
        assert(tombstones_of(stones, target) + made_tombstones(target, ops) =~= tombstones_of(
            stones,
            target,
        ));
    } else {
        lemma_tombstone_accumulation(stones, target, other, ops.drop_last());
        let prior = apply_deletes(stones, target, ops.drop_last());
        let stone = made_tombstone(target, ops.last().author, ops.last().timestamp);
        lemma_tombstones_of_push(prior, stone, target);
        assert(tombstones_of(stones, target) + made_tombstones(target, ops) =~= (tombstones_of(
            stones,
            target,
        ) + made_tombstones(target, ops.drop_last())).push(stone));
        if other != target {
            lemma_tombstones_of_push(prior, stone, other);
        }
    }
}

/// The oldest tombstone is minimal: among all tombstones recorded against
/// an address, the one the oldest-pick selects carries a timestamp no
/// greater than any other, and is the first one recorded with it.
pub proof fn lemma_oldest_tombstone_minimal(stones: Seq<Tombstone>, target: Address)
    requires
        tombstones_of(stones, target).len() > 0,
    ensures
        ({
            let mine = tombstones_of(stones, target);
            let chosen = mine[oldest_pick(tombstone_timestamps(mine))];
            &&& forall|i: int|
                0 <= i < mine.len() ==> chosen.timestamp <= (#[trigger] mine[i]).timestamp
            &&& forall|i: int|
                0 <= i < oldest_pick(tombstone_timestamps(mine)) ==> (#[trigger] mine[i]).timestamp
                    > chosen.timestamp
        }),
{
    let mine = tombstones_of(stones, target);
    let ts = tombstone_timestamps(mine);
    lemma_tombstone_timestamps(mine);
    lemma_oldest_pick_props(ts);
    let p = oldest_pick(ts);
    let chosen = mine[p];
    assert(ts[p] == chosen.timestamp);
    assert forall|i: int| 0 <= i < mine.len() implies chosen.timestamp <= (#[trigger] mine[i]).timestamp by {
        assert(ts[i] == mine[i].timestamp);
        assert(ts[i] >= ts[p]);
    }
    assert forall|i: int| 0 <= i < p implies (#[trigger] mine[i]).timestamp > chosen.timestamp by {
        assert(ts[i] == mine[i].timestamp);
        assert(ts[i] > ts[p]);
    }
}

/// Unknown-entity distinction, seen from the model: an address beyond every
/// record the store has written resolves to no record — and a just-created
/// entity, while perfectly known, has no tombstones at all. Together with
/// the tombstone query's contract this separates "unknown entity" from
/// "known entity nobody has deleted".
pub proof fn lemma_fresh_entity_has_no_tombstones<P>(
    records: Seq<Record<P>>,
    stones: Seq<Tombstone>,
    payload: P,
    author: u64,
    timestamp: i64,
)
    requires
        records.len() <= u64::MAX,
        tombstones_bounded(stones, records.len() as int),
    ensures
        ({
            let rec = created_record(records.len() as int, payload, author, timestamp);
            tombstones_of(stones, rec.address) == Seq::<Tombstone>::empty()
        }),
        fetch_spec(records, created_record(records.len() as int, payload, author, timestamp).address)
            is None,
{
    lemma_tombstones_of_fresh(stones, Address(records.len() as u64), records.len() as int);
}

} // verus!
