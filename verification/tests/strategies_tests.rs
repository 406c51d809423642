use sqlitegraph_wal::checkpoint::errors::CheckpointErrorKind;
use sqlitegraph_wal::checkpoint::strategies::strategy_metrics;
use sqlitegraph_wal::checkpoint::constants::strategies::{
    ADAPTIVE_MIN_INTERVAL_SECONDS, MAX_SIZE_THRESHOLD, MAX_TIME_INTERVAL_SECONDS, MAX_TRANSACTION_THRESHOLD,
    MIN_SIZE_THRESHOLD, MIN_TIME_INTERVAL_SECONDS, MIN_TRANSACTION_THRESHOLD,
};
use sqlitegraph_wal::checkpoint::constants::{
    DEFAULT_SIZE_THRESHOLD, DEFAULT_TIME_INTERVAL_SECONDS, DEFAULT_TRANSACTION_THRESHOLD,
};
use sqlitegraph_wal::checkpoint::strategies::{
    CheckpointStrategy, CheckpointTrigger, StrategyMetrics, StrategyValidator,
};
use sqlitegraph_wal::duration::Duration;

#[test]
fn test_checkpoint_strategy_default() {
    let strategy = CheckpointStrategy::default();
    match strategy {
        CheckpointStrategy::Adaptive { min_interval, max_wal_size, max_transactions } => {
            assert_eq!(min_interval, Duration::from_secs(DEFAULT_TIME_INTERVAL_SECONDS));
            assert_eq!(max_wal_size, DEFAULT_SIZE_THRESHOLD);
            assert_eq!(max_transactions, DEFAULT_TRANSACTION_THRESHOLD);
        }
        _ => panic!("Default strategy should be Adaptive"),
    }
}

#[test]
fn test_strategy_validator_size_threshold() {
    let strategy = CheckpointStrategy::SizeThreshold(DEFAULT_SIZE_THRESHOLD);
    assert!(StrategyValidator::validate_strategy(&strategy).is_ok());

    let strategy = CheckpointStrategy::SizeThreshold(MIN_SIZE_THRESHOLD - 1);
    assert!(StrategyValidator::validate_strategy(&strategy).is_err());

    let strategy = CheckpointStrategy::SizeThreshold(MAX_SIZE_THRESHOLD + 1);
    assert!(StrategyValidator::validate_strategy(&strategy).is_err());
}

#[test]
fn test_strategy_validator_transaction_count() {
    let strategy = CheckpointStrategy::TransactionCount(DEFAULT_TRANSACTION_THRESHOLD);
    assert!(StrategyValidator::validate_strategy(&strategy).is_ok());

    let strategy = CheckpointStrategy::TransactionCount(MIN_TRANSACTION_THRESHOLD - 1);
    assert!(StrategyValidator::validate_strategy(&strategy).is_err());

    let strategy = CheckpointStrategy::TransactionCount(MAX_TRANSACTION_THRESHOLD + 1);
    assert!(StrategyValidator::validate_strategy(&strategy).is_err());
}

#[test]
fn test_strategy_validator_time_interval() {
    let strategy = CheckpointStrategy::TimeInterval(Duration::from_secs(DEFAULT_TIME_INTERVAL_SECONDS));
    assert!(StrategyValidator::validate_strategy(&strategy).is_ok());

    let strategy = CheckpointStrategy::TimeInterval(Duration::from_secs(MIN_TIME_INTERVAL_SECONDS - 1));
    assert!(StrategyValidator::validate_strategy(&strategy).is_err());

    let strategy = CheckpointStrategy::TimeInterval(Duration::from_secs(MAX_TIME_INTERVAL_SECONDS + 1));
    assert!(StrategyValidator::validate_strategy(&strategy).is_err());
}

#[test]
fn test_strategy_validator_adaptive() {
    let strategy = CheckpointStrategy::Adaptive {
        min_interval: Duration::from_secs(DEFAULT_TIME_INTERVAL_SECONDS),
        max_wal_size: DEFAULT_SIZE_THRESHOLD,
        max_transactions: DEFAULT_TRANSACTION_THRESHOLD,
    };
    assert!(StrategyValidator::validate_strategy(&strategy).is_ok());

    let strategy = CheckpointStrategy::Adaptive {
        min_interval: Duration::from_secs(ADAPTIVE_MIN_INTERVAL_SECONDS - 1),
        max_wal_size: DEFAULT_SIZE_THRESHOLD,
        max_transactions: DEFAULT_TRANSACTION_THRESHOLD,
    };
    assert!(StrategyValidator::validate_strategy(&strategy).is_err());
}

#[test]
fn test_strategy_metrics_urgent() {
    let metrics = StrategyMetrics {
        wal_size: DEFAULT_SIZE_THRESHOLD * 3,
        committed_lsn: 1000,
        checkpointed_lsn: 100,
        pending_transactions: DEFAULT_TRANSACTION_THRESHOLD * 3,
        time_since_last_checkpoint: Duration::from_secs(DEFAULT_TIME_INTERVAL_SECONDS * 3),
    };
    assert!(metrics.is_urgent());

    let non_urgent_metrics = StrategyMetrics {
        wal_size: DEFAULT_SIZE_THRESHOLD / 2,
        committed_lsn: 1000,
        checkpointed_lsn: 800,
        pending_transactions: DEFAULT_TRANSACTION_THRESHOLD / 2,
        time_since_last_checkpoint: Duration::from_secs(DEFAULT_TIME_INTERVAL_SECONDS / 2),
    };
    assert!(!non_urgent_metrics.is_urgent());
}

#[test]
fn test_strategy_metrics_recommendations() {
    let large_wal_metrics = StrategyMetrics {
        wal_size: DEFAULT_SIZE_THRESHOLD * 3,
        committed_lsn: 1000,
        checkpointed_lsn: 100,
        pending_transactions: 100,
        time_since_last_checkpoint: Duration::from_secs(60),
    };

    let strategy = CheckpointStrategy::SizeThreshold(DEFAULT_SIZE_THRESHOLD);
    let recommendation = large_wal_metrics.recommend_adjustment(&strategy);
    assert!(recommendation.is_some());
    assert!(recommendation.unwrap().contains("reducing size threshold"));
}

#[test]
fn test_checkpoint_trigger_creation() {
    let trigger = CheckpointTrigger {
        strategy_type: "TestStrategy".to_string(),
        reason: "Test trigger".to_string(),
        wal_size: 1024 * 1024,
        transaction_count: 100,
        time_since_last_checkpoint: Duration::from_secs(300),
        timestamp: std::time::SystemTime::now(),
    };

    assert_eq!(trigger.strategy_type, "TestStrategy");
    assert_eq!(trigger.reason, "Test trigger");
    assert_eq!(trigger.wal_size, 1024 * 1024);
    assert_eq!(trigger.transaction_count, 100);
    assert_eq!(trigger.time_since_last_checkpoint, Duration::from_secs(300));
}

#[test]
fn size_threshold_error_names_the_bound() {
    let e = StrategyValidator::validate_strategy(&CheckpointStrategy::SizeThreshold(MIN_SIZE_THRESHOLD - 1))
        .unwrap_err();
    assert!(e.message.contains("1048575"));
    assert!(e.message.contains("1048576"));
}

#[test]
fn strategy_metrics_gather_what_was_observed() {
    let m = strategy_metrics(&Ok(4096), &Ok(50), &Ok(Duration::from_secs(7)), 20).unwrap();
    assert_eq!(m.wal_size, 4096);
    assert_eq!(m.committed_lsn, 50);
    assert_eq!(m.checkpointed_lsn, 20);
    assert_eq!(m.pending_transactions, 30);
    assert_eq!(m.time_since_last_checkpoint, Duration::from_secs(7));
    let ahead = strategy_metrics(&Ok(1), &Ok(5), &Ok(Duration::from_secs(0)), 9).unwrap();
    assert_eq!(ahead.pending_transactions, 0);
    let e = strategy_metrics(&Err("gone".to_string()), &Err("x".to_string()), &Ok(Duration::from_secs(0)), 0).err().unwrap();
    assert_eq!(e.kind, CheckpointErrorKind::Io);
    assert_eq!(e.message, "Failed to get WAL file metadata: gone");
    let e = strategy_metrics(&Ok(1), &Err("bad header".to_string()), &Err("t".to_string()), 0).err().unwrap();
    assert_eq!(e.kind, CheckpointErrorKind::V2Integration);
    assert_eq!(e.message, "Failed to open WAL reader: bad header");
    let e = strategy_metrics(&Ok(1), &Ok(1), &Err("clock".to_string()), 0).err().unwrap();
    assert_eq!(e.kind, CheckpointErrorKind::State);
    assert_eq!(e.message, "Invalid checkpoint time: clock");
}
