//! A content-addressed blackboard: an epoch-versioned shared workspace for
//! cooperating agents, designed so that prompts built from the blackboard
//! share a stable byte prefix and hit provider-side prompt caches.

use vstd::prelude::*;

pub mod adapters;
pub mod cache;
pub mod clock;
pub mod config;
pub mod digest;
pub mod entry;
pub mod hashed;
pub mod index;
pub mod lance;
pub mod laws;
pub mod original;
pub mod rag;
pub mod snapshot;
pub mod store;
pub mod text;
pub mod tools;
pub mod transports;

verus! {

/// Crate version, matching the tool-package lineage this library descends from.
pub const VERSION: &'static str = "1.9.3";

} // verus!
