//! Configuration of bulk ingest mode, in which log writes are batched for large loads.
use vstd::prelude::*;

verus! {

/// Configuration of bulk ingest mode.
#[derive(Debug)]
pub struct BulkIngestConfig {
    /// Largest batch in bytes.
    pub max_batch_size_bytes: usize,
    /// Buffer flush timeout in milliseconds.
    pub flush_timeout_ms: u64,
    /// Whether leaving bulk mode forces a checkpoint.
    pub force_checkpoint_on_exit: bool,
    /// Largest number of records in a batch before it is flushed.
    pub max_records_per_batch: usize,
}

impl Clone for BulkIngestConfig {
    fn clone(&self) -> (c: Self)
        ensures
            c == *self,
    {
        BulkIngestConfig { ..*self }
    }
}

impl Default for BulkIngestConfig {
    /// Batches of 10 MiB or 10000 records, flushed after 5 seconds, and a checkpoint on exit.
    fn default() -> (c: Self)
        ensures
            c.max_batch_size_bytes == 10 * 1024 * 1024,
            c.flush_timeout_ms == 5000,
            c.force_checkpoint_on_exit,
            c.max_records_per_batch == 10000,
    {
        BulkIngestConfig {
            max_batch_size_bytes: 10 * 1024 * 1024,
            flush_timeout_ms: 5000,
            force_checkpoint_on_exit: true,
            max_records_per_batch: 10000,
        }
    }
}

} // verus!
