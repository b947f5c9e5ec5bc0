//! Demand paging of a remote object into a read-only memory region: the
//! read-ahead and eviction heuristics, the handlers that decide what each
//! page fault reads, and the decisions of the fault-handling engine.
use vstd::prelude::*;

pub mod codes;
pub mod dummy;
pub mod engine;
pub mod heuristics;
pub mod pages;
pub mod s3;

pub use crate::dummy::MMapDummy;
pub use crate::heuristics::PageHeuristics;
pub use crate::s3::S3Failure;

verus! {

} // verus!
