use sqlitegraph_wal::checkpoint::CheckpointFactory;
use sqlitegraph_wal::checkpoint::errors::CheckpointErrorKind;
use sqlitegraph_wal::checkpoint::executor::{
    collect_dirty_blocks, progress_step, IncrementalProgress, ProgressAction, ProgressEvent,
};
use sqlitegraph_wal::checkpoint::manager::V2WALCheckpointManager;
use sqlitegraph_wal::checkpoint::strategies::CheckpointStrategy;
use sqlitegraph_wal::checkpoint::tracking::{CheckpointState, DirtyBlockTracker};
use sqlitegraph_wal::config::V2WALConfig;
use sqlitegraph_wal::duration::Duration;

fn config() -> V2WALConfig {
    V2WALConfig {
        wal_path: "dir/test.wal".to_string(),
        checkpoint_path: "dir/test.checkpoint".to_string(),
        ..Default::default()
    }
}

#[test]
fn manager_starts_idle() {
    let m = V2WALCheckpointManager::create(config(), CheckpointStrategy::TransactionCount(10)).unwrap();
    assert_eq!(m.get_state(), CheckpointState::Idle);
    assert!(!m.is_checkpoint_in_progress());
    assert_eq!(m.get_last_checkpointed_lsn(), 0);
    assert_eq!(m.get_checkpoint_statistics(), (0, 0, 0));
}

#[test]
fn manager_refuses_an_invalid_configuration() {
    let mut c = config();
    c.buffer_size = 1000;
    let e = V2WALCheckpointManager::create(c, CheckpointStrategy::TransactionCount(10)).err().unwrap();
    assert_eq!(e.kind, CheckpointErrorKind::Configuration);
    assert_eq!(e.message, "Invalid configuration for buffer_size: must be a non-zero power of two");
}

#[test]
fn manager_refuses_a_checkpoint_path_without_parent() {
    let mut c = config();
    c.checkpoint_path = "".to_string();
    let e = V2WALCheckpointManager::create(c, CheckpointStrategy::TransactionCount(10)).err().unwrap();
    assert_eq!(e.message, "Checkpoint path must have a valid parent directory");
}

#[test]
fn marking_blocks_checks_offsets() {
    let mut m = V2WALCheckpointManager::create(config(), CheckpointStrategy::TransactionCount(10)).unwrap();
    let e = m.mark_block_dirty(0, None).unwrap_err();
    assert_eq!(e.message, "Block offset cannot be zero");
    let e = m.mark_block_dirty(100, Some(1)).unwrap_err();
    assert_eq!(e.kind, CheckpointErrorKind::Validation);
    assert_eq!(e.message, "Block offset 100 is not aligned to V2 graph block size");
    m.mark_block_dirty(4096, None).unwrap();
    m.mark_block_dirty(8192, Some(3)).unwrap();
    assert_eq!(m.dirty_blocks().get_statistics(), (1, 1));
    assert_eq!(m.mark_blocks_dirty(&[0, 12288, 5, 16384], Some(3)).unwrap(), 2);
    assert_eq!(m.dirty_blocks().get_statistics(), (3, 1));
}

#[test]
fn checkpoint_cycle() {
    let mut m = V2WALCheckpointManager::create(config(), CheckpointStrategy::TimeInterval(Duration::from_secs(1)))
        .unwrap();
    // No checkpoint yet: the interval strategy is due.
    assert!(m.should_checkpoint(0, &Ok(0)).unwrap());
    m.begin_checkpoint(false, 500, &Ok(0)).unwrap();
    assert!(m.is_checkpoint_in_progress());
    assert_eq!(m.get_state(), CheckpointState::Collecting);
    let e = m.begin_checkpoint(true, 600, &Ok(0)).unwrap_err();
    assert_eq!(e.message, "Checkpoint already in progress");
    m.start_processing();
    assert_eq!(m.get_state(), CheckpointState::Processing);
    m.finish_checkpoint(true, false, &Ok(0));
    assert_eq!(m.get_state(), CheckpointState::Complete);
    assert_eq!(m.get_checkpoint_statistics(), (1, 0, 1));
    // Started at 500 ms: one second later it is due again.
    assert!(!m.should_checkpoint(1499, &Ok(0)).unwrap());
    assert!(m.should_checkpoint(1500, &Ok(0)).unwrap());
    let e = m.begin_checkpoint(false, 1000, &Ok(0)).unwrap_err();
    assert_eq!(e.message, "Checkpoint not required based on strategy");
}

#[test]
fn failed_checkpoint_blocks_further_ones() {
    let mut m = V2WALCheckpointManager::create(config(), CheckpointStrategy::SizeThreshold(100)).unwrap();
    assert!(!m.should_checkpoint(0, &Ok(99)).unwrap());
    assert!(m.should_checkpoint(0, &Ok(100)).unwrap());
    assert!(!m.should_checkpoint(0, &Err("gone".to_string())).unwrap());
    m.begin_checkpoint(false, 0, &Ok(100)).unwrap();
    m.finish_checkpoint(false, false, &Ok(100));
    assert_eq!(m.get_state(), CheckpointState::Failed);
    assert_eq!(m.get_checkpoint_statistics(), (0, 1, 1));
    assert!(!m.should_checkpoint(0, &Ok(1000)).unwrap());
    // A forced checkpoint still runs.
    m.begin_checkpoint(true, 0, &Ok(1000)).unwrap();
    m.finish_checkpoint(true, true, &Ok(1000));
    assert_eq!(m.get_checkpoint_statistics(), (1, 1, 2));
}

#[test]
fn nothing_is_due_after_shutdown() {
    let mut m = V2WALCheckpointManager::create(config(), CheckpointStrategy::SizeThreshold(1)).unwrap();
    assert!(m.should_checkpoint(0, &Ok(10)).unwrap());
    m.request_shutdown();
    assert!(!m.should_checkpoint(0, &Ok(10)).unwrap());
}

#[test]
fn adaptive_strategy_never_fires_here() {
    let m = V2WALCheckpointManager::create(config(), CheckpointStrategy::default()).unwrap();
    assert!(!m.should_checkpoint(u64::MAX, &Ok(u64::MAX)).unwrap());
}

#[test]
fn collected_blocks_are_distinct_and_sorted() {
    let mut t = DirtyBlockTracker::new(10, 10);
    t.mark_cluster_block_dirty(2, 12288, 1).unwrap();
    t.mark_cluster_block_dirty(1, 4096, 1).unwrap();
    t.mark_cluster_block_dirty(2, 4096, 1).unwrap();
    t.mark_global_block_dirty(8192, 1).unwrap();
    t.update_block_access(8192, 1);
    // A global block without a timestamp is left out.
    t.mark_global_block_dirty(20480, 1).unwrap();
    assert_eq!(collect_dirty_blocks(&t), vec![4096, 8192, 12288]);
}

#[test]
fn factory_builds_managers_with_the_requested_strategies() {
    let m = CheckpointFactory::create_adaptive_manager(config(), Duration::from_secs(30), 1 << 20, 500).unwrap();
    assert_eq!(m.get_state(), CheckpointState::Idle);
    let m = CheckpointFactory::create_manager(config(), CheckpointStrategy::TransactionCount(3)).unwrap();
    assert_eq!(m.get_last_checkpointed_lsn(), 0);
    let mut bad = config();
    bad.checkpoint_path = "".to_string();
    let e = CheckpointFactory::create_v2_optimized_manager(bad).err().unwrap();
    assert_eq!(e.kind, CheckpointErrorKind::Configuration);
    assert!(CheckpointFactory::create_v2_optimized_manager(config()).is_ok());
}

#[test]
fn marking_blocks_with_clock_readings_counts_what_was_marked() {
    let mut m = V2WALCheckpointManager::create(config(), CheckpointStrategy::TransactionCount(10)).unwrap();
    let readings = vec![Some(5), Some(5), None, Some(6)];
    assert_eq!(m.mark_blocks_dirty_at(&[4096, 3, 8192, 4096], None, &readings).unwrap(), 2);
    assert_eq!(m.dirty_blocks().get_statistics(), (0, 1));
    let r = m.mark_blocks_dirty_at(&[8192, 12288], Some(7), &vec![Some(1), Some(2)]).unwrap();
    assert_eq!(r, 2);
    assert_eq!(m.dirty_blocks().get_statistics(), (2, 1));
}

#[test]
fn incremental_run_reports_at_batch_boundaries_and_the_last_record() {
    let start = IncrementalProgress { total_records: 1002, processed_records: 0, flushed_blocks: 0 };
    let (p, a) = progress_step(start, ProgressEvent::RecordApplied);
    assert_eq!(p.processed_records, 1);
    assert_eq!(a, ProgressAction::ReportProgress);
    let (p, a) = progress_step(p, ProgressEvent::RecordApplied);
    assert_eq!(p.processed_records, 2);
    assert_eq!(a, ProgressAction::Continue);
    let at_batch = IncrementalProgress { processed_records: 500, ..start };
    assert_eq!(progress_step(at_batch, ProgressEvent::RecordApplied).1, ProgressAction::UpdateCompletion);
    let last = IncrementalProgress { processed_records: 1001, ..start };
    assert_eq!(progress_step(last, ProgressEvent::RecordApplied).1, ProgressAction::UpdateCompletion);
    let far = IncrementalProgress { total_records: 20_000_000, processed_records: 5_000_000, flushed_blocks: 3 };
    assert_eq!(progress_step(far, ProgressEvent::RecordApplied).1, ProgressAction::ReportProgress);
    let (p, a) = progress_step(far, ProgressEvent::BlockFlushed);
    assert_eq!((p.processed_records, p.flushed_blocks, a), (5_000_000, 4, ProgressAction::Continue));
}
