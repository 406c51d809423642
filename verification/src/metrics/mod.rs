//! Performance metrics of the write-ahead log: histograms, throughput, counters and
//! analysis categories.
pub mod aggregation;
pub mod analysis;
pub mod counters;
pub mod defaults;
pub mod reporting;

use vstd::prelude::*;

verus! {

/// Version of the metrics format.
pub const METRICS_VERSION: &'static str = "1.0.0";

} // verus!
