//! A local persistence library for a single-user profile with a bounded,
//! newest-first activity log, stored as one JSON document.
//!
//! The library is pure: it decides what a fetch, replace or activity append
//! does to the stored document, while the host performs the actual file I/O.
use vstd::prelude::*;

pub mod codec;
mod ext;
pub mod profile;
pub mod store;

verus! {

/// Upper bound on the number of retained activities.
pub const MAX_ACTIVITIES: usize = 50;

} // verus!
