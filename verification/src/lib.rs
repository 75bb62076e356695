//! Coordination core for a dog-walking marketplace: walk requests move
//! through a lifecycle (waiting, accepted, started, finished, canceled)
//! while many walkers contend for the same request.  Every mutating verb
//! is a compare-and-swap: a predicate over the current state plus a
//! mutation, applied atomically by a persistence port, with a zero-match
//! outcome surfaced as a typed conflict.

pub mod clock;
pub mod entities;
pub mod error;
pub mod geo;
pub mod ids;
pub mod laws;
pub mod memory;
pub mod repository;
pub mod service;
