//! Incremental checkpointing of the V2 write-ahead log.
pub mod errors;
pub mod executor;
pub mod io;
pub mod manager;
pub mod record;
pub mod constants;
pub mod strategies;
pub mod tracking;
pub mod utils;
pub mod validation;

use vstd::prelude::*;
use crate::checkpoint::errors::{empty_context, standard_recovery, CheckpointError, CheckpointErrorKind, CheckpointResult};
use crate::checkpoint::manager::{created, V2WALCheckpointManager};
use crate::checkpoint::strategies::CheckpointStrategy;
use crate::config::{config_error, V2WALConfig};
use crate::duration::Duration;

verus! {

/// Builds and checks checkpoint components.
pub struct CheckpointFactory;

impl CheckpointFactory {
    /// A checkpoint manager for `config` with `strategy`.
    pub fn create_manager(config: V2WALConfig, strategy: CheckpointStrategy) -> (r: CheckpointResult<V2WALCheckpointManager>)
        ensures
            created(config, strategy, r),
    {
        V2WALCheckpointManager::create(config, strategy)
    }

    /// A checkpoint manager for `config` with the adaptive strategy of the given limits.
    pub fn create_adaptive_manager(
        config: V2WALConfig,
        min_interval: Duration,
        max_wal_size: u64,
        max_transactions: u64,
    ) -> (r: CheckpointResult<V2WALCheckpointManager>)
        ensures
            created(config, CheckpointStrategy::Adaptive { min_interval, max_wal_size, max_transactions }, r),
    {
        let strategy = CheckpointStrategy::Adaptive { min_interval, max_wal_size, max_transactions };
        Self::create_manager(config, strategy)
    }

    /// A checkpoint manager for `config` suited to V2 graph workloads: a checkpoint when the
    /// log reaches a quarter of its largest size.
    pub fn create_v2_optimized_manager(config: V2WALConfig) -> (r: CheckpointResult<V2WALCheckpointManager>)
        ensures
            created(config, CheckpointStrategy::SizeThreshold((config.max_wal_size / 4) as u64), r),
    {
        let strategy = CheckpointStrategy::SizeThreshold(config.max_wal_size / 4);
        Self::create_manager(config, strategy)
    }

    /// Accepts `config` when it is valid; else fails with its configuration error carried
    /// over as an error of unknown kind whose message names the parameter and the reason.
    pub fn validate_config(config: &V2WALConfig) -> (r: CheckpointResult<()>)
        ensures
            match config_error(*config) {
                None => r is Ok,
                Some((parameter, reason)) => r matches Err(e)
                    && e.kind == CheckpointErrorKind::Unknown
                    && e.message@ == "Invalid configuration for "@ + parameter + ": "@ + reason
                    && (e.source matches Some(s) && s@ == "NativeBackendError"@)
                    && empty_context(e.context)
                    && standard_recovery(e.recovery, CheckpointErrorKind::Unknown),
            },
    {
        match config.validate() {
            Ok(()) => Ok(()),
            Err(e) => Err(CheckpointError::from_native(e)),
        }
    }
}

} // verus!
