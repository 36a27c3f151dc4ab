//! Determinism harness for a tick-driven rigid-body simulation.
//!
//! The harness builds a reproducible scene of stacked boxes, suppresses
//! collision response between joint-connected bodies, counts simulation
//! ticks, and reduces the dynamic-body pose set into a single 32-bit
//! fingerprint each tick until a fixed step horizon is reached.

use vstd::prelude::*;

pub mod filter;
pub mod hash;
pub mod hasher;
pub mod pose;
pub mod scene;
pub mod step;

verus! {

/// Number of simulation ticks for which the fingerprint is recorded.
pub const STEP_COUNT: usize = 500;

} // verus!
