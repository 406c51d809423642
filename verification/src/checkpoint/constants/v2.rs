//! Constants of the V2 graph file format that checkpoints depend on.
use vstd::prelude::*;

verus! {

/// Most cluster operations per checkpoint batch.
pub const MAX_CLUSTER_OPERATIONS_PER_BATCH: usize = 500;

/// Most edge cluster operations per checkpoint batch.
pub const MAX_EDGE_CLUSTER_OPERATIONS_PER_BATCH: usize = 1000;

/// Most node record operations per checkpoint batch.
pub const MAX_NODE_RECORD_OPERATIONS_PER_BATCH: usize = 750;

/// Most string table operations per checkpoint batch.
pub const MAX_STRING_TABLE_OPERATIONS_PER_BATCH: usize = 250;

/// Most free space operations per checkpoint batch.
pub const MAX_FREE_SPACE_OPERATIONS_PER_BATCH: usize = 100;

/// Block size of the V2 graph file (4KB).
pub const V2_GRAPH_BLOCK_SIZE: u64 = 4096;

/// Cluster alignment of the V2 graph file (64KB).
pub const V2_CLUSTER_ALIGNMENT: u64 = 65536;

/// Most dirty blocks per checkpoint cycle.
pub const MAX_V2_DIRTY_BLOCKS_PER_CYCLE: u64 = 10000;

/// Size of the V2 checkpoint metadata in bytes.
pub const V2_CHECKPOINT_METADATA_SIZE: usize = 2048;

} // verus!
