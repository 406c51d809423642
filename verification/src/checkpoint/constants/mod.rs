//! Constants of the checkpoint subsystem: file format markers, size limits, timeouts and
//! defaults.
pub mod performance;
pub mod strategies;
pub mod v2;
pub mod validation;

use vstd::prelude::*;

verus! {

/// Magic bytes opening a checkpoint file: "CKPT".
pub const CHECKPOINT_MAGIC: [u8; 4] = [67, 75, 80, 84];

/// Checkpoint file format version.
pub const CHECKPOINT_VERSION: u32 = 1;

/// Magic bytes of a progress record: "PROG".
pub const PROGRESS_MAGIC: [u8; 4] = [80, 82, 79, 71];

/// Magic bytes of a completion record: "DONE".
pub const COMPLETION_MAGIC: [u8; 4] = [68, 79, 78, 69];

/// Smallest valid checkpoint file, in bytes.
pub const MIN_CHECKPOINT_SIZE: u64 = 1024;

/// Largest valid checkpoint file, in bytes (1GB).
pub const MAX_CHECKPOINT_SIZE: u64 = 1073741824;

/// Default number of records processed per batch.
pub const DEFAULT_BATCH_SIZE: usize = 1000;

/// Records between progress reports.
pub const PROGRESS_REPORT_INTERVAL: usize = 10000;

/// Most dirty blocks tracked per cluster.
pub const MAX_DIRTY_BLOCKS_PER_CLUSTER: usize = 10000;

/// Most dirty blocks tracked outside clusters.
pub const MAX_GLOBAL_DIRTY_BLOCKS: usize = 50000;

/// Most block access counts tracked.
pub const MAX_BLOCK_ACCESS_COUNTS: usize = 100000;

/// Default checkpoint timeout in milliseconds (5 minutes).
pub const DEFAULT_CHECKPOINT_TIMEOUT_MS: u64 = 300000;

/// Checkpoint coordination wait timeout in milliseconds.
pub const CHECKPOINT_WAIT_TIMEOUT_MS: u64 = 60000;

/// Most checkpoint retries.
pub const MAX_CHECKPOINT_RETRIES: u32 = 3;

/// Smallest dirty block size for checkpointing, in bytes.
pub const MIN_DIRTY_BLOCK_SIZE: u64 = 512;

/// Largest dirty block size for checkpointing, in bytes (64KB).
pub const MAX_DIRTY_BLOCK_SIZE: u64 = 65536;

/// Default checkpoint file buffer size (64KB).
pub const DEFAULT_CHECKPOINT_BUFFER_SIZE: usize = 65536;

/// Checkpoint header size in bytes (4 + 8 + 8 + 4 + 4).
pub const CHECKPOINT_HEADER_SIZE: usize = 28;

/// Progress record size in bytes (4 + 8 + 4).
pub const PROGRESS_RECORD_SIZE: usize = 16;

/// Completion record size in bytes (4 + 8 + 4).
pub const COMPLETION_RECORD_SIZE: usize = 16;

/// Space reserved for checkpoint metadata, in bytes.
pub const CHECKPOINT_METADATA_RESERVED: usize = 1024;

/// Default time-based checkpoint interval in seconds (5 minutes).
pub const DEFAULT_TIME_INTERVAL_SECONDS: u64 = 300;

/// Default transaction-count checkpoint threshold.
pub const DEFAULT_TRANSACTION_THRESHOLD: u64 = 1000;

/// Default size-based checkpoint threshold in bytes (16MB).
pub const DEFAULT_SIZE_THRESHOLD: u64 = 16777216;

/// Most entries kept in progress tracking.
pub const MAX_PROGRESS_ENTRIES: usize = 10000;

/// Resolution of dirty block timestamps in milliseconds.
pub const DIRTY_BLOCK_TIMESTAMP_RESOLUTION_MS: u64 = 1000;

/// Records between checkpoint file syncs.
pub const CHECKPOINT_SYNC_INTERVAL: usize = 100;

/// Most concurrent checkpoint operations.
pub const MAX_CONCURRENT_CHECKPOINTS: usize = 1;

/// Checkpoint lock timeout in milliseconds.
pub const CHECKPOINT_LOCK_TIMEOUT_MS: u64 = 30000;

/// Checkpoint state transition timeout in milliseconds.
pub const CHECKPOINT_STATE_TIMEOUT_MS: u64 = 60000;

/// Checkpoint validation timeout in milliseconds.
pub const CHECKPOINT_VALIDATION_TIMEOUT_MS: u64 = 10000;

/// Retries of a failed checkpoint I/O.
pub const CHECKPOINT_IO_RETRY_COUNT: u32 = 3;

/// Delay between checkpoint I/O retries in milliseconds.
pub const CHECKPOINT_IO_RETRY_DELAY_MS: u64 = 100;

} // verus!
