//! Bounds of the checkpoint strategies.
use vstd::prelude::*;

verus! {

/// Shortest time interval of the time-based strategy, in seconds.
pub const MIN_TIME_INTERVAL_SECONDS: u64 = 10;

/// Longest time interval of the time-based strategy, in seconds (1 hour).
pub const MAX_TIME_INTERVAL_SECONDS: u64 = 3600;

/// Smallest size threshold of the size-based strategy, in bytes (1MB).
pub const MIN_SIZE_THRESHOLD: u64 = 1048576;

/// Largest size threshold of the size-based strategy, in bytes (1GB).
pub const MAX_SIZE_THRESHOLD: u64 = 1073741824;

/// Smallest transaction count of the transaction-based strategy.
pub const MIN_TRANSACTION_THRESHOLD: u64 = 1;

/// Largest transaction count of the transaction-based strategy.
pub const MAX_TRANSACTION_THRESHOLD: u64 = 1000000;

/// Shortest interval of the adaptive strategy, in seconds.
pub const ADAPTIVE_MIN_INTERVAL_SECONDS: u64 = 30;

/// Factor on the largest size threshold that bounds the adaptive strategy's log size.
pub const ADAPTIVE_MAX_WAL_SIZE_MULTIPLIER: u64 = 4;

/// Factor on the largest transaction threshold that bounds the adaptive strategy's count.
pub const ADAPTIVE_MAX_TX_MULTIPLIER: u64 = 2;

} // verus!
