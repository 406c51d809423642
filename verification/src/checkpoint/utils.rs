//! Sizing, timing and file checks shared by the checkpoint components.
use vstd::prelude::*;
use crate::checkpoint::errors::{made_by, CheckpointError, CheckpointErrorKind, CheckpointResult};
use crate::checkpoint::strategies::CheckpointStrategy;
use crate::duration::Duration;

verus! {

/// The checkpoint size suited to a log of `wal_size` bytes: a quarter of it, but at least 1 MiB.
pub open spec fn optimal_checkpoint_size(wal_size: u64) -> u64 {
    if wal_size / 4 >= 1_048_576 {
        wal_size / 4
    } else {
        1_048_576u64
    }
}

/// A quarter of the log size, but at least 1 MiB.
pub fn calculate_optimal_checkpoint_size(wal_size: u64) -> (size: u64)
    ensures
        size == optimal_checkpoint_size(wal_size),
        size >= 1024 * 1024,
        size <= wal_size || size == 1024 * 1024,
{
    let quarter = wal_size / 4;
    if quarter >= 1024 * 1024 {
        quarter
    } else {
        1024 * 1024
    }
}

/// The expected checkpoint time for a log of `wal_size` bytes, in nanoseconds: 100 ms per
/// whole MiB, doubled for transaction counting, halved for time intervals and tripled
/// for the adaptive strategy.
pub open spec fn expected_duration(wal_size: u64, strategy: CheckpointStrategy) -> nat {
    let base = ((wal_size / 1_048_576u64) * 100 * 1_000_000) as nat;
    match strategy {
        CheckpointStrategy::SizeThreshold(_) => base,
        CheckpointStrategy::TransactionCount(_) => base * 2,
        CheckpointStrategy::TimeInterval(_) => base / 2,
        CheckpointStrategy::Adaptive { .. } => base * 3,
    }
}

/// Estimates how long a checkpoint of a log of `wal_size` bytes takes under `strategy`.
pub fn estimate_checkpoint_duration(wal_size: u64, strategy: &CheckpointStrategy) -> (d: Duration)
    ensures
        d@ == expected_duration(wal_size, *strategy),
{
    let mib = wal_size / (1024 * 1024);
    assert(mib * 100 <= 1_759_218_604_441_500) by (nonlinear_arith)
        requires mib == wal_size / 1_048_576u64, wal_size <= u64::MAX;
    let base = Duration::from_millis(mib * 100);
    assert(base@ * 3 <= crate::duration::max_duration_nanos());
    match strategy {
        CheckpointStrategy::SizeThreshold(_) => base,
        CheckpointStrategy::TransactionCount(_) => base.mul(2),
        CheckpointStrategy::TimeInterval(_) => base.div(2),
        CheckpointStrategy::Adaptive { .. } => base.mul(3),
    }
}

/// What checking a checkpoint file of the observed size gives: `None` when the file does
/// not exist, `Some(Err(reason))` when its size could not be read.
pub open spec fn checkpoint_file_outcome(observed: Option<Result<u64, String>>) -> Result<bool, (CheckpointErrorKind, Seq<char>)> {
    match observed {
        None => Ok(false),
        Some(Err(t)) => Err((CheckpointErrorKind::Io, "Failed to read checkpoint metadata: "@ + t@)),
        Some(Ok(len)) => if len == 0 {
            Err((CheckpointErrorKind::Validation, "Checkpoint file is empty"@))
        } else if len < 1024 {
            Err((CheckpointErrorKind::Validation, "Checkpoint file too small"@))
        } else if len > 1024 * 1024 * 1024 {
            Err((CheckpointErrorKind::Validation, "Checkpoint file too large"@))
        } else {
            Ok(true)
        },
    }
}

/// Judges a checkpoint file by its size in bytes: absent files are not valid, empty files
/// and files under 1 KiB or over 1 GiB are errors, others are valid.
pub fn checkpoint_file_verdict(observed: &Option<Result<u64, String>>) -> (r: CheckpointResult<bool>)
    ensures
        match checkpoint_file_outcome(*observed) {
            Ok(b) => r == Ok::<bool, CheckpointError>(b),
            Err((k, m)) => r matches Err(e) && made_by(e, k, m),
        },
{
    match observed {
        None => Ok(false),
        Some(Err(t)) => {
            let mut m = String::from_str("Failed to read checkpoint metadata: ");
            m.append(t.as_str());
            Err(CheckpointError::io(m.as_str()))
        },
        Some(Ok(len)) => {
            if *len == 0 {
                Err(CheckpointError::validation("Checkpoint file is empty"))
            } else if *len < 1024 {
                Err(CheckpointError::validation("Checkpoint file too small"))
            } else if *len > 1024 * 1024 * 1024 {
                Err(CheckpointError::validation("Checkpoint file too large"))
            } else {
                Ok(true)
            }
        },
    }
}

} // verus!
