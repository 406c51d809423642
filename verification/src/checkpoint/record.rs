//! Application of log records to the graph file during a checkpoint.
use vstd::prelude::*;
use crate::checkpoint::errors::{made_by, CheckpointError, CheckpointErrorKind, CheckpointResult};

verus! {

/// Applies log records to the graph file at `graph_file_path`.
#[derive(Debug)]
pub struct V2GraphIntegrator {
    /// Path of the graph file.
    pub graph_file_path: String,
}

impl V2GraphIntegrator {
    /// Checks a cluster creation: the cluster must have a size, and its offset must lie on a
    /// 4096-byte block boundary.
    pub fn apply_cluster_create(&mut self, cluster_offset: u64, cluster_size: u32) -> (r: CheckpointResult<()>)
        ensures
            cluster_size == 0 ==> (r matches Err(e)
                && made_by(e, CheckpointErrorKind::Validation, "Cluster size cannot be zero"@)),
            cluster_size != 0 && cluster_offset % 4096 != 0 ==> (r matches Err(e)
                && made_by(e, CheckpointErrorKind::Validation, "Cluster offset must be aligned to block boundary"@)),
            cluster_size != 0 && cluster_offset % 4096 == 0 ==> r is Ok,
            final(self).graph_file_path@ == old(self).graph_file_path@,
    {
        if cluster_size == 0 {
            return Err(CheckpointError::validation("Cluster size cannot be zero"));
        }
        if cluster_offset % 4096 != 0 {
            return Err(CheckpointError::validation("Cluster offset must be aligned to block boundary"));
        }
        Ok(())
    }
}

} // verus!
