use sqlitegraph_wal::checkpoint::constants::strategies::{
    MAX_SIZE_THRESHOLD, MAX_TIME_INTERVAL_SECONDS, MAX_TRANSACTION_THRESHOLD, MIN_SIZE_THRESHOLD,
    MIN_TIME_INTERVAL_SECONDS, MIN_TRANSACTION_THRESHOLD,
};
use sqlitegraph_wal::checkpoint::constants::v2;
use sqlitegraph_wal::checkpoint::constants::{
    MAX_CHECKPOINT_RETRIES, MAX_CONCURRENT_CHECKPOINTS,
    CHECKPOINT_HEADER_SIZE, CHECKPOINT_MAGIC, CHECKPOINT_VERSION, COMPLETION_MAGIC, COMPLETION_RECORD_SIZE,
    DEFAULT_BATCH_SIZE, MAX_CHECKPOINT_SIZE, MIN_CHECKPOINT_SIZE, PROGRESS_MAGIC, PROGRESS_RECORD_SIZE,
    PROGRESS_REPORT_INTERVAL,
};

#[test]
fn test_checkpoint_magic_constants() {
    assert_eq!(&CHECKPOINT_MAGIC, b"CKPT");
    assert_eq!(CHECKPOINT_VERSION, 1);
    assert_eq!(&PROGRESS_MAGIC, b"PROG");
    assert_eq!(&COMPLETION_MAGIC, b"DONE");
}

#[test]
fn test_size_constants() {
    assert_eq!(MIN_CHECKPOINT_SIZE, 1024);
    assert_eq!(MAX_CHECKPOINT_SIZE, 1024 * 1024 * 1024);
    assert!(DEFAULT_BATCH_SIZE > 0);
    assert!(PROGRESS_REPORT_INTERVAL > DEFAULT_BATCH_SIZE);
}

#[test]
fn test_v2_constants() {
    assert!(v2::MAX_CLUSTER_OPERATIONS_PER_BATCH > 0);
    assert!(v2::MAX_EDGE_CLUSTER_OPERATIONS_PER_BATCH > v2::MAX_CLUSTER_OPERATIONS_PER_BATCH);
    assert_eq!(v2::V2_GRAPH_BLOCK_SIZE, 4096);
    assert_eq!(v2::V2_CLUSTER_ALIGNMENT, 64 * 1024);
}

#[test]
fn test_strategy_constants() {
    assert!(MIN_TIME_INTERVAL_SECONDS < MAX_TIME_INTERVAL_SECONDS);
    assert!(MIN_SIZE_THRESHOLD < MAX_SIZE_THRESHOLD);
    assert!(MIN_TRANSACTION_THRESHOLD < MAX_TRANSACTION_THRESHOLD);
}

#[test]
fn test_header_size_calculation() {
    let expected_header_size = 4 + 8 + 8 + 4 + 4;
    assert_eq!(CHECKPOINT_HEADER_SIZE, expected_header_size);

    let expected_progress_size = 4 + 8 + 4;
    assert_eq!(PROGRESS_RECORD_SIZE, expected_progress_size);

    let expected_completion_size = 4 + 8 + 4;
    assert_eq!(COMPLETION_RECORD_SIZE, expected_completion_size);
}

#[test]
fn test_constants_reasonableness() {
    assert!(
        MAX_CONCURRENT_CHECKPOINTS == 1,
        "Only one checkpoint should run at a time for consistency"
    );
    assert!(MAX_CHECKPOINT_RETRIES > 0 && MAX_CHECKPOINT_RETRIES < 10);
}
