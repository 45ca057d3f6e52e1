//! Project-context analysis library.
//!
//! The library inspects a software project's directory listing, classifies its
//! ecosystem, matches the project against a catalog of reusable code patterns,
//! synthesizes a compact persisted project context, and keeps a UUID-keyed
//! archive of large one-off outputs.

use vstd::prelude::*;

pub mod detect;
pub mod jsontext;
pub mod error;
pub mod observations;
pub mod patterns;
pub mod rustscp;
pub mod strutil;
pub mod timeutil;
pub mod utils;
pub mod types;

verus! {

} // verus!
