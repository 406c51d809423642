//! Operation counters of the write-ahead log.
use std::sync::atomic::AtomicU64;
use std::sync::atomic::AtomicUsize;
use vstd::prelude::*;

verus! {

/// Operations on one cluster of the clustered edge format.
#[derive(Debug, Clone, Copy, PartialEq, Eq, Structural)]
pub struct ClusterOperationCounters {
    /// Clusters created.
    pub creates: u64,
    /// Cluster reads.
    pub reads: u64,
    /// Cluster updates.
    pub updates: u64,
    /// Bytes processed.
    pub bytes_processed: u64,
    /// Average latency in microseconds.
    pub avg_latency_us: u64,
}

impl Default for ClusterOperationCounters {
    /// All counters zero.
    fn default() -> (c: Self)
        ensures
            c == (ClusterOperationCounters { creates: 0, reads: 0, updates: 0, bytes_processed: 0, avg_latency_us: 0 }),
    {
        ClusterOperationCounters { creates: 0, reads: 0, updates: 0, bytes_processed: 0, avg_latency_us: 0 }
    }
}

/// Counters shared between threads: records and bytes written and read, and operations
/// in progress.
#[derive(Debug)]
pub struct GlobalCounters {
    /// Records written.
    pub records_written: AtomicU64,
    /// Records read.
    pub records_read: AtomicU64,
    /// Bytes written.
    pub bytes_written: AtomicU64,
    /// Bytes read.
    pub bytes_read: AtomicU64,
    /// Operations in progress.
    pub active_operations: AtomicUsize,
}

impl Default for GlobalCounters {
    /// Every counter created at zero. The values of atomics are not modelled, so nothing is
    /// stated of them.
    fn default() -> (c: Self) {
        GlobalCounters {
            records_written: AtomicU64::new(0),
            records_read: AtomicU64::new(0),
            bytes_written: AtomicU64::new(0),
            bytes_read: AtomicU64::new(0),
            active_operations: AtomicUsize::new(0),
        }
    }
}

} // verus!
