//! A reactive computation layer over a mutable entity-record store.
//!
//! Callers register computations ("reactions") that re-run only when the
//! pieces of state they observe have changed, at coarse granularity (any
//! record of a kind) or fine granularity (only records consulted last time).
//! All writes issued by a reaction are queued in a deferred-mutation log and
//! applied in one flush after the scheduler pass, so a pass behaves as one
//! atomic read phase followed by a batch write phase.

pub mod bodies;
pub mod commands;
pub mod laws;
pub mod params;
pub mod reaction;
pub mod stages;
pub mod store;
pub mod system;

use vstd::prelude::*;

verus! {

/// The errors a reaction evaluation can surface.
///
/// Lookups that miss are recoverable and reported as `NotFound`; initializing
/// a computation twice is a programmer error, rejected and reported as
/// `DoubleInit` (this library chooses reject-and-report over silent
/// re-initialization).
#[derive(Clone, Copy, Debug, PartialEq, Eq, Structural)]
pub enum Error {
    NotFound,
    DoubleInit,
}

/// The outcome of a capability read: the value found, or a recoverable miss.
///
/// A miss is the plain-value form of [`Error::NotFound`]; computation bodies
/// handle it explicitly, and it never aborts a pass. This library applies
/// that recoverable policy to every lookup, fine or coarse.
#[derive(Clone, Copy, Debug, PartialEq, Eq, Structural)]
pub enum Lookup {
    Found(i64),
    Missing,
}

impl View for Lookup {
    type V = Lookup;

    open spec fn view(&self) -> Lookup {
        *self
    }
}

} // verus!
