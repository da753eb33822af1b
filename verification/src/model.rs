//! The mathematical model of the store: pure functions over sequences of
//! records, update links and tombstones, in terms of which every executable
//! operation is specified.

use vstd::prelude::*;

use crate::types::{Address, Record, Tombstone, UpdateLink};

verus! {

/// What a point lookup of `addr` in the record store returns: the record
/// written at that address, or `None` if the substrate has no knowledge of
/// the address.
pub open spec fn fetch_spec<P>(records: Seq<Record<P>>, addr: Address) -> Option<Record<P>> {
    if addr.0 < records.len() {
        Some(records[addr.0 as int])
    } else {
        None
    }
}

/// All update links whose base is `base`, in the order the link index holds
/// them (insertion order).
pub open spec fn links_of(links: Seq<UpdateLink>, base: Address) -> Seq<UpdateLink>
    decreases links.len(),
{
    if links.len() == 0 {
        Seq::empty()
    } else if links.last().base == base {
        links_of(links.drop_last(), base).push(links.last())
    } else {
        links_of(links.drop_last(), base)
    }
}

/// All tombstones recorded against `target`, in the order the record store
/// holds them (insertion order).
pub open spec fn tombstones_of(stones: Seq<Tombstone>, target: Address) -> Seq<Tombstone>
    decreases stones.len(),
{
    if stones.len() == 0 {
        Seq::empty()
    } else if stones.last().target == target {
        tombstones_of(stones.drop_last(), target).push(stones.last())
    } else {
        tombstones_of(stones.drop_last(), target)
    }
}

/// The timestamps of a sequence of links, in order.
pub open spec fn link_timestamps(links: Seq<UpdateLink>) -> Seq<i64>
    decreases links.len(),
{
    if links.len() == 0 {
        Seq::empty()
    } else {
        link_timestamps(links.drop_last()).push(links.last().timestamp)
    }
}

/// The timestamps of a sequence of tombstones, in order.
pub open spec fn tombstone_timestamps(stones: Seq<Tombstone>) -> Seq<i64>
    decreases stones.len(),
{
    if stones.len() == 0 {
        Seq::empty()
    } else {
        tombstone_timestamps(stones.drop_last()).push(stones.last().timestamp)
    }
}

/// Index of the winning timestamp under latest-wins resolution: the maximal
/// value, and on a tie the occurrence encountered last in the scan. Callers
/// apply it only to non-empty sequences.
pub open spec fn latest_pick(ts: Seq<i64>) -> int
    decreases ts.len(),
{
    if ts.len() <= 1 {
        0
    } else {
        let r = latest_pick(ts.drop_last());
        if ts.last() >= ts[r] {
            ts.len() - 1
        } else {
            r
        }
    }
}

/// Index of the winning timestamp when the oldest entry is wanted: the
/// minimal value, and on a tie the occurrence encountered first in the scan.
/// Callers apply it only to non-empty sequences.
pub open spec fn oldest_pick(ts: Seq<i64>) -> int
    decreases ts.len(),
{
    if ts.len() <= 1 {
        0
    } else {
        let r = oldest_pick(ts.drop_last());
        if ts.last() < ts[r] {
            ts.len() - 1
        } else {
            r
        }
    }
}

/// Latest-revision resolution for the entity rooted at `orig`: if no update
/// link exists the entity was never updated and its latest revision is the
/// original record itself; otherwise the link with the maximal timestamp
/// (ties resolved last-encountered-wins) names the latest revision.
/// Tombstones are never consulted.
pub open spec fn latest_spec<P>(
    records: Seq<Record<P>>,
    links: Seq<UpdateLink>,
    orig: Address,
) -> Option<Record<P>> {
    let ls = links_of(links, orig);
    if ls.len() == 0 {
        fetch_spec(records, orig)
    } else {
        fetch_spec(records, ls[latest_pick(link_timestamps(ls))].target)
    }
}

/// The records targeted by a sequence of links, in link order, skipping
/// targets the record store does not know.
pub open spec fn fetched_records<P>(records: Seq<Record<P>>, links: Seq<UpdateLink>) -> Seq<
    Record<P>,
>
    decreases links.len(),
{
    if links.len() == 0 {
        Seq::empty()
    } else {
        let prefix = fetched_records(records, links.drop_last());
        match fetch_spec(records, links.last().target) {
            Some(r) => prefix.push(r),
            None => prefix,
        }
    }
}

/// Full revision history of the entity rooted at `orig`: the original record
/// first, then every record targeted by an update link from `orig`, in the
/// order the link index returns them. Empty if the original record itself is
/// unknown.
pub open spec fn revisions_spec<P>(
    records: Seq<Record<P>>,
    links: Seq<UpdateLink>,
    orig: Address,
) -> Seq<Record<P>> {
    match fetch_spec(records, orig) {
        Some(r0) => seq![r0] + fetched_records(records, links_of(links, orig)),
        None => Seq::empty(),
    }
}

/// Each stored record carries the address it is stored under.
pub open spec fn addresses_consistent<P>(records: Seq<Record<P>>) -> bool {
    forall|i: int|
        0 <= i < records.len() ==> (#[trigger] records[i]).address == Address(i as u64)
}

/// Every link's base and target name a record the store of size `n` knows.
pub open spec fn links_bounded(links: Seq<UpdateLink>, n: int) -> bool {
    forall|i: int|
        0 <= i < links.len() ==> (#[trigger] links[i]).base.0 < n && links[i].target.0 < n
}

/// Every tombstone's target names a record the store of size `n` knows.
pub open spec fn tombstones_bounded(stones: Seq<Tombstone>, n: int) -> bool {
    forall|i: int| 0 <= i < stones.len() ==> (#[trigger] stones[i]).target.0 < n
}

/// The record a write against a store of `n` records produces.
pub open spec fn stored_record<P>(
    n: int,
    payload: P,
    author: u64,
    timestamp: i64,
    predecessor: Option<Address>,
) -> Record<P> {
    Record { address: Address(n as u64), payload, author, timestamp, predecessor }
}

/// The record a create against a store of `n` records produces.
pub open spec fn created_record<P>(n: int, payload: P, author: u64, timestamp: i64) -> Record<P> {
    stored_record(n, payload, author, timestamp, None)
}

/// The record an update against a store of `n` records produces: the same
/// shape as a created record, plus the advisory predecessor.
pub open spec fn updated_record<P>(
    n: int,
    payload: P,
    author: u64,
    timestamp: i64,
    base: Address,
) -> Record<P> {
    stored_record(n, payload, author, timestamp, Some(base))
}

/// The link an update of the entity rooted at `orig` adds, when the new
/// record's address is `target`.
pub open spec fn made_link(orig: Address, target: Address, author: u64, timestamp: i64) -> UpdateLink {
    UpdateLink { base: orig, target, author, timestamp }
}

/// The tombstone a delete against `target` records.
pub open spec fn made_tombstone(target: Address, author: u64, timestamp: i64) -> Tombstone {
    Tombstone { target, author, timestamp }
}

/// The latest pick lies in range, carries the maximal timestamp, and is the
/// last occurrence of that maximum.
pub proof fn lemma_latest_pick_props(ts: Seq<i64>)
    requires
        ts.len() > 0,
    ensures
        0 <= latest_pick(ts) < ts.len(),
        forall|i: int| 0 <= i < ts.len() ==> #[trigger] ts[i] <= ts[latest_pick(ts)],
        forall|i: int| latest_pick(ts) < i < ts.len() ==> #[trigger] ts[i] < ts[latest_pick(ts)],
    decreases ts.len(),
{
    if ts.len() > 1 {
        let prefix = ts.drop_last();
        let r = latest_pick(prefix);
        lemma_latest_pick_props(prefix);
        let p = latest_pick(ts);
        assert forall|i: int| 0 <= i < ts.len() implies #[trigger] ts[i] <= ts[p] by {
            if i < ts.len() - 1 {
                assert(prefix[i] == ts[i]);
                assert(prefix[r] == ts[r]);
                assert(prefix[i] <= prefix[r]);
            }
        }
        assert forall|i: int| p < i < ts.len() implies #[trigger] ts[i] < ts[p] by {
            assert(prefix[r] == ts[r]);
            if i < ts.len() - 1 {
                assert(prefix[i] == ts[i]);
                assert(prefix[i] < prefix[r]);
            }
        }
    }
}

/// The oldest pick lies in range, carries the minimal timestamp, and is the
/// first occurrence of that minimum.
pub proof fn lemma_oldest_pick_props(ts: Seq<i64>)
    requires
        ts.len() > 0,
    ensures
        0 <= oldest_pick(ts) < ts.len(),
        forall|i: int| 0 <= i < ts.len() ==> #[trigger] ts[i] >= ts[oldest_pick(ts)],
        forall|i: int| 0 <= i < oldest_pick(ts) ==> #[trigger] ts[i] > ts[oldest_pick(ts)],
    decreases ts.len(),
{
    if ts.len() > 1 {
        let prefix = ts.drop_last();
        let r = oldest_pick(prefix);
        lemma_oldest_pick_props(prefix);
        let p = oldest_pick(ts);
        assert forall|i: int| 0 <= i < ts.len() implies #[trigger] ts[i] >= ts[p] by {
            if i < ts.len() - 1 {
                assert(prefix[i] == ts[i]);
                assert(prefix[r] == ts[r]);
                assert(prefix[i] >= prefix[r]);
            }
        }
        assert forall|i: int| 0 <= i < p implies #[trigger] ts[i] > ts[p] by {
            assert(prefix[r] == ts[r]);
            assert(prefix[i] == ts[i]);
            if p == r {
                assert(prefix[i] > prefix[r]);
            }
        }
    }
}

/// Appending a strictly newer timestamp moves the latest pick to it.
pub proof fn lemma_latest_pick_push_newest(ts: Seq<i64>, t: i64)
    requires
        forall|i: int| 0 <= i < ts.len() ==> #[trigger] ts[i] < t,
    ensures
        latest_pick(ts.push(t)) == ts.len(),
{
    assert(ts.push(t).drop_last() =~= ts);
    if ts.len() > 0 {
        lemma_latest_pick_props(ts);
    }
}

/// Filtering links by base distributes over appending one link.
pub proof fn lemma_links_of_push(links: Seq<UpdateLink>, link: UpdateLink, base: Address)
    ensures
        link.base == base ==> links_of(links.push(link), base) == links_of(links, base).push(link),
        link.base != base ==> links_of(links.push(link), base) == links_of(links, base),
{
    assert(links.push(link).drop_last() =~= links);
}

/// Filtering tombstones by target distributes over appending one tombstone.
pub proof fn lemma_tombstones_of_push(stones: Seq<Tombstone>, stone: Tombstone, target: Address)
    ensures
        stone.target == target ==> tombstones_of(stones.push(stone), target) == tombstones_of(
            stones,
            target,
        ).push(stone),
        stone.target != target ==> tombstones_of(stones.push(stone), target) == tombstones_of(
            stones,
            target,
        ),
{
    assert(stones.push(stone).drop_last() =~= stones);
}

/// The links filtered out for a base all carry that base, are no more than
/// the links filtered from, and stay bounded.
pub proof fn lemma_links_of_props(links: Seq<UpdateLink>, base: Address, n: int)
    requires
        links_bounded(links, n),
    ensures
        links_bounded(links_of(links, base), n),
        links_of(links, base).len() <= links.len(),
        forall|i: int|
            0 <= i < links_of(links, base).len() ==> (#[trigger] links_of(links, base)[i]).base
                == base,
    decreases links.len(),
{
    if links.len() > 0 {
        assert forall|i: int| 0 <= i < links.drop_last().len() implies (#[trigger] links.drop_last()[i]).base.0
            < n && links.drop_last()[i].target.0 < n by {
            assert(links.drop_last()[i] == links[i]);
        }
        lemma_links_of_props(links.drop_last(), base, n);
        assert(links.last() == links[links.len() - 1]);
    }
}

/// No link can be based on an address the record store has never issued:
/// an entity that was just created has no update links yet.
pub proof fn lemma_links_of_fresh(links: Seq<UpdateLink>, base: Address, n: int)
    requires
        links_bounded(links, n),
        base.0 >= n,
    ensures
        links_of(links, base) == Seq::<UpdateLink>::empty(),
    decreases links.len(),
{
    if links.len() > 0 {
        assert forall|i: int| 0 <= i < links.drop_last().len() implies (#[trigger] links.drop_last()[i]).base.0
            < n && links.drop_last()[i].target.0 < n by {
            assert(links.drop_last()[i] == links[i]);
        }
        lemma_links_of_fresh(links.drop_last(), base, n);
        assert(links.last() == links[links.len() - 1]);
    }
}

/// No tombstone can target an address the record store has never issued: an
/// entity that was just created has no tombstones yet.
pub proof fn lemma_tombstones_of_fresh(stones: Seq<Tombstone>, target: Address, n: int)
    requires
        tombstones_bounded(stones, n),
        target.0 >= n,
    ensures
        tombstones_of(stones, target) == Seq::<Tombstone>::empty(),
    decreases stones.len(),
{
    if stones.len() > 0 {
        assert forall|i: int| 0 <= i < stones.drop_last().len() implies (#[trigger] stones.drop_last()[i]).target.0
            < n by {
            assert(stones.drop_last()[i] == stones[i]);
        }
        lemma_tombstones_of_fresh(stones.drop_last(), target, n);
        assert(stones.last() == stones[stones.len() - 1]);
    }
}

/// The timestamp sequence of links mirrors the links, index by index.
pub proof fn lemma_link_timestamps(links: Seq<UpdateLink>)
    ensures
        link_timestamps(links).len() == links.len(),
        forall|i: int|
            0 <= i < links.len() ==> #[trigger] link_timestamps(links)[i] == links[i].timestamp,
    decreases links.len(),
{
    if links.len() > 0 {
        lemma_link_timestamps(links.drop_last());
        assert(forall|i: int|
            0 <= i < links.len() - 1 ==> #[trigger] links.drop_last()[i] == links[i]);
        assert(links.last() == links[links.len() - 1]);
    }
}

/// The timestamp sequence of tombstones mirrors the tombstones, index by
/// index.
pub proof fn lemma_tombstone_timestamps(stones: Seq<Tombstone>)
    ensures
        tombstone_timestamps(stones).len() == stones.len(),
        forall|i: int|
            0 <= i < stones.len() ==> #[trigger] tombstone_timestamps(stones)[i]
                == stones[i].timestamp,
    decreases stones.len(),
{
    if stones.len() > 0 {
        lemma_tombstone_timestamps(stones.drop_last());
        assert(forall|i: int|
            0 <= i < stones.len() - 1 ==> #[trigger] stones.drop_last()[i] == stones[i]);
        assert(stones.last() == stones[stones.len() - 1]);
    }
}

/// When every link target is known, the fetched records are exactly the
/// targeted records, link by link.
pub proof fn lemma_fetched_records_known<P>(records: Seq<Record<P>>, links: Seq<UpdateLink>)
    requires
        forall|i: int| 0 <= i < links.len() ==> (#[trigger] links[i]).target.0 < records.len(),
    ensures
        fetched_records(records, links).len() == links.len(),
        forall|i: int|
            0 <= i < links.len() ==> #[trigger] fetched_records(records, links)[i]
                == records[links[i].target.0 as int],
    decreases links.len(),
{
    if links.len() > 0 {
        assert forall|i: int| 0 <= i < links.drop_last().len() implies (#[trigger] links.drop_last()[i]).target.0
            < records.len() by {
            assert(links.drop_last()[i] == links[i]);
        }
        lemma_fetched_records_known(records, links.drop_last());
        assert(links.last() == links[links.len() - 1]);
    }
}

/// Appending a record leaves the fetch results of already-known targets
/// unchanged.
pub proof fn lemma_fetched_records_push_record<P>(
    records: Seq<Record<P>>,
    links: Seq<UpdateLink>,
    rec: Record<P>,
)
    requires
        forall|i: int| 0 <= i < links.len() ==> (#[trigger] links[i]).target.0 < records.len(),
    ensures
        fetched_records(records.push(rec), links) == fetched_records(records, links),
    decreases links.len(),
{
    if links.len() > 0 {
        assert forall|i: int| 0 <= i < links.drop_last().len() implies (#[trigger] links.drop_last()[i]).target.0
            < records.len() by {
            assert(links.drop_last()[i] == links[i]);
        }
        lemma_fetched_records_push_record(records, links.drop_last(), rec);
        assert(links.last() == links[links.len() - 1]);
    }
}

} // verus!
