//! Default settings of metrics collection.
use vstd::prelude::*;

verus! {

/// Time window of throughput tracking, in seconds.
pub const DEFAULT_THROUGHPUT_WINDOW: usize = 60;

/// Number of latency histogram buckets.
pub const DEFAULT_LATENCY_BUCKETS: usize = 10;

/// Largest number of recent errors kept.
pub const DEFAULT_MAX_RECENT_ERRORS: usize = 1000;

/// Buffer utilization, in percent, above which the buffer counts as highly utilized.
pub const DEFAULT_BUFFER_UTILIZATION_THRESHOLD: u32 = 80;

/// Latency percentiles tracked.
pub const DEFAULT_LATENCY_PERCENTILES: [u32; 3] = [50, 95, 99];

} // verus!
