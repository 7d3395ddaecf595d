//! Championship clinch analysis: whether a points leader can still be caught,
//! and, for the next event, at which finishing position each live rival drops
//! out of contention for every finishing position of the leader.
use vstd::prelude::*;

pub mod analysis;
pub mod clinch;
pub mod engine;
pub mod models;
pub mod points;
pub mod resolver;

verus! {

} // verus!
