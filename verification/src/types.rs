//! Core data model: addresses, records, update links, tombstones, errors.

use vstd::prelude::*;

verus! {

/// Identifier of an immutable record. The substrate derives it from the
/// record's signed content; here it is modelled as an opaque numeric
/// identifier that is unique per write, which is all the store's logic
/// relies on.
#[derive(Clone, Copy, PartialEq, Eq, Structural, Debug)]
pub struct Address(pub u64);

/// Identifier of a tombstone held by the record store.
#[derive(Clone, Copy, PartialEq, Eq, Structural, Debug)]
pub struct TombstoneId(pub u64);

/// An immutable stored unit. Once created it is never mutated and never
/// physically removed; deletion is represented separately by tombstones.
#[derive(PartialEq, Debug)]
pub struct Record<P> {
    pub address: Address,
    pub payload: P,
    /// Author identity as supplied by the substrate, opaque to the store.
    pub author: u64,
    /// Wall-clock timestamp supplied by the substrate, in microseconds.
    pub timestamp: i64,
    /// The revision the writer believed current when updating; `None` for
    /// the first record of an entity. Advisory only: no compare-and-swap is
    /// performed against it.
    pub predecessor: Option<Address>,
}

/// A directed edge `original address -> revision address`, written whenever
/// an entity is updated. Several links may share a base: concurrent updates
/// by independent peers are expected, not an error.
#[derive(Clone, Copy, PartialEq, Eq, Structural, Debug)]
pub struct UpdateLink {
    pub base: Address,
    pub target: Address,
    pub author: u64,
    pub timestamp: i64,
}

/// A deletion marker recorded against a specific record address. Tombstones
/// are non-exclusive: independent peers may each tombstone the same entity,
/// and duplicates simply accumulate.
#[derive(Clone, Copy, PartialEq, Eq, Structural, Debug)]
pub struct Tombstone {
    pub target: Address,
    pub author: u64,
    pub timestamp: i64,
}

/// Failures of store operations.
///
/// `NotFound` reports an absent address where the operation requires
/// existence. The write errors report a substrate that rejected a write; they
/// are propagated unchanged and never retried. `ReadBackMissing` stands for a
/// write whose immediate read-back found nothing — a hard consistency fault;
/// the store proves it cannot arise here.
#[derive(Clone, Copy, PartialEq, Eq, Structural, Debug)]
pub enum StoreError {
    NotFound,
    StorageWriteError,
    LinkWriteError,
    ReadBackMissing,
}

/// Outcome of a validation hook.
#[derive(PartialEq, Debug)]
pub enum ValidationOutcome {
    Valid,
    Invalid(String),
}

/// A payload an entity kind stores. The store needs nothing of a payload but
/// the ability to hand out a faithful copy of a stored value.
pub trait Payload: Sized {
    fn duplicate(&self) -> (r: Self)
        ensures
            r == *self,
    ;
}

} // verus!
