use sqlitegraph_wal::checkpoint::tracking::DirtyBlockTracker;

#[test]
fn test_dirty_block_tracker_capacity_limits() {
    let mut tracker = DirtyBlockTracker::new(2, 5);

    tracker.mark_cluster_block_dirty(1, 4096, 100).unwrap();
    tracker.mark_cluster_block_dirty(1, 8192, 101).unwrap();

    let result = tracker.mark_cluster_block_dirty(1, 12288, 102);
    assert!(result.is_err());

    tracker.mark_global_block_dirty(16384, 103).unwrap();
    tracker.mark_global_block_dirty(20480, 104).unwrap();
    tracker.mark_global_block_dirty(24576, 105).unwrap();
    tracker.mark_global_block_dirty(28672, 106).unwrap();
    tracker.mark_global_block_dirty(32768, 107).unwrap();

    let result = tracker.mark_global_block_dirty(36864, 108);
    assert!(result.is_err());
}

#[test]
fn test_dirty_block_tracker_operations() {
    let mut tracker = DirtyBlockTracker::new(100, 1000);

    tracker.mark_cluster_block_dirty(1, 4096, 100).unwrap();
    tracker.mark_global_block_dirty(8192, 101).unwrap();
    tracker.mark_cluster_block_dirty(2, 12288, 102).unwrap();

    let blocks = tracker.get_dirty_blocks_for_checkpoint();
    assert_eq!(blocks.len(), 3);
    assert!(blocks.contains(&4096));
    assert!(blocks.contains(&8192));
    assert!(blocks.contains(&12288));

    tracker.clear_checkpointed_blocks(&[4096, 8192]);

    let remaining_blocks = tracker.get_dirty_blocks_for_checkpoint();
    assert_eq!(remaining_blocks.len(), 1);
    assert!(remaining_blocks.contains(&12288));
}

#[test]
fn clearing_handed_out_blocks_leaves_nothing_dirty() {
    let mut tracker = DirtyBlockTracker::new(10, 10);
    tracker.mark_cluster_block_dirty(7, 4096, 1).unwrap();
    tracker.mark_cluster_block_dirty(8, 4096, 2).unwrap();
    tracker.mark_global_block_dirty(8192, 3).unwrap();
    let blocks = tracker.get_dirty_blocks_for_checkpoint();
    assert_eq!(blocks, vec![4096, 4096, 8192]);
    tracker.clear_checkpointed_blocks(&blocks);
    assert!(tracker.get_dirty_blocks_for_checkpoint().is_empty());
    assert_eq!(tracker.get_statistics(), (0, 0));
}

#[test]
fn marking_a_block_twice_counts_it_once() {
    let mut tracker = DirtyBlockTracker::new(10, 10);
    tracker.mark_global_block_dirty(4096, 1).unwrap();
    tracker.mark_global_block_dirty(4096, 2).unwrap();
    tracker.mark_cluster_block_dirty(3, 8192, 3).unwrap();
    tracker.mark_cluster_block_dirty(3, 8192, 4).unwrap();
    assert_eq!(tracker.get_statistics(), (1, 1));
}

#[test]
fn block_accesses_are_counted_and_cleared() {
    let mut tracker = DirtyBlockTracker::new(4, 4);
    tracker.update_block_access(4096, 10);
    tracker.update_block_access(4096, 20);
    tracker.update_block_access(8192, 30);
    assert_eq!(tracker.block_access_counts().get(&4096), Some(&2));
    assert_eq!(tracker.block_access_counts().get(&8192), Some(&1));
    assert_eq!(tracker.block_timestamps().get(&4096), Some(&20));
    tracker.clear_checkpointed_blocks(&[4096]);
    assert_eq!(tracker.block_access_counts().get(&4096), None);
    assert_eq!(tracker.block_timestamps().get(&4096), None);
    assert_eq!(tracker.block_timestamps().get(&8192), Some(&30));
}
