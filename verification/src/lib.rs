//! Transactional data layer for a small multiplayer game.
//!
//! The library owns account, character, appearance and session records and
//! exposes atomic operations that create and mutate that state on behalf of
//! callers identified by an opaque identity. A hosting runtime is expected to
//! drive these operations one at a time, supplying the caller's identity and a
//! timestamp, and to make each operation durable; the library itself holds the
//! records as plain in-memory collections and proves the cross-record
//! invariants: one account per identity, at most one active session per
//! identity, globally unique character names, strictly increasing character
//! identifiers, and strict ownership of mutable character state.

pub mod accounts;
pub mod characters;
pub mod errors;
pub mod game;
pub mod id_alloc;
pub mod laws;
pub mod records;
pub mod sessions;
