//! In-memory models of the two collaborators the versioned record store is
//! built on: the content-addressed record store and the link index. Both are
//! append-only: no operation ever mutates or removes existing data.
//!
//! Each carries a flag saying whether it currently accepts writes, so that a
//! rejected write — the substrate failure the error taxonomy speaks of — can
//! be exercised; reads never fail.

use vstd::prelude::*;

use crate::model::{
    addresses_consistent, fetch_spec, links_of, made_link, made_tombstone, stored_record,
    tombstones_bounded, tombstones_of,
};
use crate::types::{Address, Payload, Record, StoreError, Tombstone, TombstoneId, UpdateLink};

verus! {

/// The content-addressed record store: immutable records under deterministic
/// addresses, plus the tombstones recorded against them.
pub struct RecordStore<P> {
    entries: Vec<Record<P>>,
    stones: Vec<Tombstone>,
    accepting_writes: bool,
}

/// The index of typed `original -> revision` edges.
pub struct LinkIndex {
    entries: Vec<UpdateLink>,
    accepting_writes: bool,
}

impl<P: Payload> RecordStore<P> {
    /// The records held, in write order; the record written n-th sits at
    /// address n.
    pub closed spec fn records(&self) -> Seq<Record<P>> {
        self.entries@
    }

    /// The tombstones held, in write order.
    pub closed spec fn tombstones(&self) -> Seq<Tombstone> {
        self.stones@
    }

    /// Whether the store currently accepts writes.
    pub closed spec fn accepting(&self) -> bool {
        self.accepting_writes
    }

    /// Well-formedness: each record carries the address it is stored under,
    /// every tombstone targets a known record, and the record count stays
    /// addressable.
    pub open spec fn wf(&self) -> bool {
        &&& addresses_consistent(self.records())
        &&& tombstones_bounded(self.tombstones(), self.records().len() as int)
        &&& self.records().len() <= usize::MAX as nat
    }

    pub fn new() -> (store: Self)
        ensures
            store.wf(),
            store.records() == Seq::<Record<P>>::empty(),
            store.tombstones() == Seq::<Tombstone>::empty(),
            store.accepting(),
    {
        RecordStore { entries: Vec::new(), stones: Vec::new(), accepting_writes: true }
    }

    /// Simulates the substrate becoming unavailable for writes (or available
    /// again). Reads are unaffected.
    pub fn set_accepting(&mut self, accepting: bool)
        ensures
            final(self).accepting() == accepting,
            final(self).records() == old(self).records(),
            final(self).tombstones() == old(self).tombstones(),
            final(self).wf() == old(self).wf(),
    {
        self.accepting_writes = accepting;
    }

    /// Persists a payload as a new immutable record and returns its address,
    /// or rejects the write if the store is not accepting any.
    pub fn store_record(
        &mut self,
        payload: P,
        author: u64,
        timestamp: i64,
        predecessor: Option<Address>,
    ) -> (result: Result<Address, StoreError>)
        requires
            old(self).wf(),
        ensures
            final(self).wf(),
            final(self).accepting() == old(self).accepting(),
            final(self).tombstones() == old(self).tombstones(),
            old(self).accepting() ==> {
                &&& result == Ok::<Address, StoreError>(
                    Address(old(self).records().len() as u64),
                )
                &&& final(self).records() == old(self).records().push(
                    stored_record(
                        old(self).records().len() as int,
                        payload,
                        author,
                        timestamp,
                        predecessor,
                    ),
                )
            },
            !old(self).accepting() ==> result == Err::<Address, StoreError>(
                StoreError::StorageWriteError,
            ) && *final(self) == *old(self),
    {
        if !self.accepting_writes {
            return Err(StoreError::StorageWriteError);
        }
        let n: usize = self.entries.len();
        let addr = Address(n as u64);
        let rec = Record { address: addr, payload, author, timestamp, predecessor };
        self.entries.push(rec);
        proof {
            assert forall|i: int| 0 <= i < self.entries@.len() implies (#[trigger] self.entries@[i]).address
                == Address(i as u64) by {
                if i < n as int {
                    assert(self.entries@[i] == old(self).records()[i]);
                }
            }
            assert forall|i: int| 0 <= i < self.stones@.len() implies (#[trigger] self.stones@[i]).target.0
                < self.entries@.len() as int by {}
            assert(self.entries@.len() == self.entries.len());
        }
        Ok(addr)
    }

    /// Whether the store knows the address, i.e. has a record under it.
    pub fn knows(&self, addr: Address) -> (known: bool)
        ensures
            known == (addr.0 < self.records().len()),
    {
        addr.0 < self.entries.len() as u64
    }

    /// Point lookup: the record at `addr`, or `None` if the store has no
    /// knowledge of that address — a legitimate outcome, not a fault.
    pub fn fetch_record(&self, addr: Address) -> (result: Option<Record<P>>)
        ensures
            result == fetch_spec(self.records(), addr),
    {
        let n: usize = self.entries.len();
        if addr.0 < n as u64 {
            let idx: usize = addr.0 as usize;
            let entry = &self.entries[idx];
            Some(
                Record {
                    address: entry.address,
                    payload: entry.payload.duplicate(),
                    author: entry.author,
                    timestamp: entry.timestamp,
                    predecessor: entry.predecessor,
                },
            )
        } else {
            None
        }
    }

    /// Batched point lookup, one result per requested address, in order.
    pub fn fetch_records_batch(&self, addrs: &Vec<Address>) -> (result: Vec<Option<Record<P>>>)
        ensures
            result@.len() == addrs@.len(),
            forall|i: int|
                0 <= i < addrs@.len() ==> result@[i] == fetch_spec(self.records(), addrs@[i]),
    {
        let mut out: Vec<Option<Record<P>>> = Vec::new();
        let mut i: usize = 0;
        while i < addrs.len()
            invariant
                i <= addrs@.len(),
                out@.len() == i,
                forall|j: int|
                    0 <= j < i ==> out@[j] == fetch_spec(self.records(), addrs@[j]),
            decreases addrs@.len() - i,
        {
            let a: Address = addrs[i];
            out.push(self.fetch_record(a));
            i = i + 1;
        }
        out
    }

    /// Records a tombstone against `target`. Duplicate or stale-target
    /// tombstones are permitted and simply accumulate; only a target the
    /// store has never heard of is refused.
    pub fn store_tombstone(&mut self, target: Address, author: u64, timestamp: i64) -> (result:
        Result<TombstoneId, StoreError>)
        requires
            old(self).wf(),
        ensures
            final(self).wf(),
            final(self).accepting() == old(self).accepting(),
            final(self).records() == old(self).records(),
            target.0 >= old(self).records().len() ==> result == Err::<TombstoneId, StoreError>(
                StoreError::NotFound,
            ) && *final(self) == *old(self),
            target.0 < old(self).records().len() && !old(self).accepting() ==> result == Err::<
                TombstoneId,
                StoreError,
            >(StoreError::StorageWriteError) && *final(self) == *old(self),
            target.0 < old(self).records().len() && old(self).accepting() ==> {
                &&& result == Ok::<TombstoneId, StoreError>(
                    TombstoneId(old(self).tombstones().len() as u64),
                )
                &&& final(self).tombstones() == old(self).tombstones().push(
                    made_tombstone(target, author, timestamp),
                )
            },
    {
        let n: usize = self.entries.len();
        if !(target.0 < n as u64) {
            return Err(StoreError::NotFound);
        }
        if !self.accepting_writes {
            return Err(StoreError::StorageWriteError);
        }
        let id = TombstoneId(self.stones.len() as u64);
        self.stones.push(Tombstone { target, author, timestamp });
        Ok(id)
    }

    /// Every tombstone recorded against `target`, in write order, or `None`
    /// if the address itself is unknown — distinguishing an unknown entity
    /// from a known entity with zero tombstones.
    pub fn fetch_tombstones(&self, target: Address) -> (result: Option<Vec<Tombstone>>)
        ensures
            target.0 < self.records().len() ==> (result matches Some(v) && v@ == tombstones_of(
                self.tombstones(),
                target,
            )),
            target.0 >= self.records().len() ==> result is None,
    {
        let n: usize = self.entries.len();
        if !(target.0 < n as u64) {
            return None;
        }
        let mut out: Vec<Tombstone> = Vec::new();
        let mut i: usize = 0;
        while i < self.stones.len()
            invariant
                i <= self.stones@.len(),
                out@ == tombstones_of(self.stones@.take(i as int), target),
            decreases self.stones@.len() - i,
        {
            let stone: Tombstone = self.stones[i];
            proof {
                assert(self.stones@.take(i as int + 1).drop_last() =~= self.stones@.take(i as int));
                assert(self.stones@.take(i as int + 1).last() == self.stones@[i as int]);
            }
            if stone.target == target {
                out.push(stone);
            }
            i = i + 1;
        }
        proof {
            assert(self.stones@.take(self.stones@.len() as int) =~= self.stones@);
        }
        Some(out)
    }
}

impl LinkIndex {
    /// The links held, in write order.
    pub closed spec fn links(&self) -> Seq<UpdateLink> {
        self.entries@
    }

    /// Whether the index currently accepts writes.
    pub closed spec fn accepting(&self) -> bool {
        self.accepting_writes
    }

    pub fn new() -> (index: Self)
        ensures
            index.links() == Seq::<UpdateLink>::empty(),
            index.accepting(),
    {
        LinkIndex { entries: Vec::new(), accepting_writes: true }
    }

    /// Simulates the link index becoming unavailable for writes (or
    /// available again). Reads are unaffected.
    pub fn set_accepting(&mut self, accepting: bool)
        ensures
            final(self).accepting() == accepting,
            final(self).links() == old(self).links(),
    {
        self.accepting_writes = accepting;
    }

    /// Appends an edge from `base` to `target`, or rejects the write if the
    /// index is not accepting any.
    pub fn store_link(&mut self, base: Address, target: Address, author: u64, timestamp: i64) -> (
        result: Result<(), StoreError>)
        ensures
            final(self).accepting() == old(self).accepting(),
            old(self).accepting() ==> result == Ok::<(), StoreError>(()) && final(self).links()
                == old(self).links().push(made_link(base, target, author, timestamp)),
            !old(self).accepting() ==> result == Err::<(), StoreError>(StoreError::LinkWriteError)
                && *final(self) == *old(self),
    {
        if !self.accepting_writes {
            return Err(StoreError::LinkWriteError);
        }
        self.entries.push(UpdateLink { base, target, author, timestamp });
        Ok(())
    }

    /// Every link whose base is `base`, in write order.
    pub fn fetch_links(&self, base: Address) -> (result: Vec<UpdateLink>)
        ensures
            result@ == links_of(self.links(), base),
    {
        let mut out: Vec<UpdateLink> = Vec::new();
        let mut i: usize = 0;
        while i < self.entries.len()
            invariant
                i <= self.entries@.len(),
                out@ == links_of(self.entries@.take(i as int), base),
            decreases self.entries@.len() - i,
        {
            let link: UpdateLink = self.entries[i];
            proof {
                assert(self.entries@.take(i as int + 1).drop_last() =~= self.entries@.take(
                    i as int,
                ));
                assert(self.entries@.take(i as int + 1).last() == self.entries@[i as int]);
            }
            if link.base == base {
                out.push(link);
            }
            i = i + 1;
        }
        proof {
            assert(self.entries@.take(self.entries@.len() as int) =~= self.entries@);
        }
        out
    }
}

} // verus!
