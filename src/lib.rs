//! An in-memory replicated-log store for a consensus state machine, and the
//! decisions that set up a small cluster of simulated nodes around it.
use vstd::prelude::*;

pub mod cluster;
pub mod log_store;
pub mod types;

verus! {

} // verus!
