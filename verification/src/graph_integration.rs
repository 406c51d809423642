//! Configuration and results of graph operations that go through the log.
use vstd::prelude::*;
use crate::native_error::NativeResult;

verus! {

/// Configuration of the integration of graph operations with the log.
#[derive(Debug)]
pub struct GraphWALIntegrationConfig {
    /// Whether checkpoints are taken automatically.
    pub auto_checkpoint: bool,
    /// Checkpoint interval in transactions.
    pub checkpoint_interval: u64,
    /// Whether records are grouped by cluster.
    pub cluster_affinity: bool,
    /// Whether records are compressed.
    pub enable_compression: bool,
    /// Largest group commit.
    pub max_batch_size: usize,
    /// Whether writes are synchronous.
    pub sync_writes: bool,
}

impl Clone for GraphWALIntegrationConfig {
    fn clone(&self) -> (c: Self)
        ensures
            c == *self,
    {
        GraphWALIntegrationConfig { ..*self }
    }
}

impl Default for GraphWALIntegrationConfig {
    /// Automatic checkpoints every 1000 transactions, cluster grouping, no compression,
    /// group commits of 50, synchronous writes.
    fn default() -> (c: Self)
        ensures
            c.auto_checkpoint,
            c.checkpoint_interval == 1000,
            c.cluster_affinity,
            !c.enable_compression,
            c.max_batch_size == 50,
            c.sync_writes,
    {
        GraphWALIntegrationConfig {
            auto_checkpoint: true,
            checkpoint_interval: 1000,
            cluster_affinity: true,
            enable_compression: false,
            max_batch_size: 50,
            sync_writes: true,
        }
    }
}

/// Measurements of one graph operation.
#[derive(Debug)]
pub struct OperationMetrics {
    /// Duration in microseconds.
    pub duration_us: u64,
    /// Log records written.
    pub wal_records_written: u64,
    /// Bytes written to the log.
    pub bytes_written: u64,
    /// Nodes affected.
    pub nodes_affected: u32,
    /// Clusters affected.
    pub clusters_affected: u32,
    /// Edges affected.
    pub edges_affected: u32,
}

impl Clone for OperationMetrics {
    fn clone(&self) -> (m: Self)
        ensures
            m == *self,
    {
        OperationMetrics { ..*self }
    }
}

impl Default for OperationMetrics {
    fn default() -> (m: Self)
        ensures
            m.duration_us == 0,
            m.wal_records_written == 0,
            m.bytes_written == 0,
            m.nodes_affected == 0,
            m.clusters_affected == 0,
            m.edges_affected == 0,
    {
        OperationMetrics {
            duration_us: 0,
            wal_records_written: 0,
            bytes_written: 0,
            nodes_affected: 0,
            clusters_affected: 0,
            edges_affected: 0,
        }
    }
}

/// Outcome of a graph operation that went through the log.
#[derive(Debug)]
pub struct GraphOperationResult {
    /// Whether it succeeded.
    pub success: bool,
    /// The log sequence number of the operation, when it has one.
    pub lsn: Option<u64>,
    /// The transaction, when it ran in one.
    pub tx_id: Option<u64>,
    /// Its measurements.
    pub metrics: OperationMetrics,
}

impl Clone for GraphOperationResult {
    fn clone(&self) -> (r: Self)
        ensures
            r == *self,
    {
        GraphOperationResult { success: self.success, lsn: self.lsn, tx_id: self.tx_id, metrics: self.metrics.clone() }
    }
}

/// Serialization of a node record for the log.
pub trait NodeRecordV2WALExt {
    /// The bytes of the record as the log stores them.
    fn to_bytes(&self) -> NativeResult<Vec<u8>>;

    /// The size of the serialized record.
    fn serialized_size(&self) -> usize;
}

} // verus!
