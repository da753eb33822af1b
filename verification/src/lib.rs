//! A versioned record store: mutable logical entities built from immutable,
//! content-addressed records, update links and tombstones.
//!
//! An entity is identified forever by the address of its first record (the
//! original address). Updates append a new record plus an update link from the
//! original address; the current value is resolved as the link with the
//! maximal timestamp. Deletion is additive: tombstones accumulate and never
//! remove data.

pub mod entities;
pub mod laws;
pub mod model;
pub mod store;
pub mod substrate;
pub mod types;
