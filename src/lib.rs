//! Fan-out of one request to a fixed set of service instances, and the
//! merging of their answers into one result keyed by instance.
use vstd::prelude::*;

pub mod json;
pub mod proxy;
pub mod aggregator;

verus! {

} // verus!
