//! The checkpoint manager: the decisions of the checkpoint state machine. The manager holds
//! the configuration, the strategy, the machine's state and the dirty block tracker; the
//! caller reads the clock and the log size, runs the checkpoint work between
//! `begin_checkpoint` and `finish_checkpoint`, and keeps the manager behind its lock.
use vstd::prelude::*;
use crate::checkpoint::constants::v2::V2_GRAPH_BLOCK_SIZE;
use crate::checkpoint::constants::{MAX_DIRTY_BLOCKS_PER_CLUSTER, MAX_GLOBAL_DIRTY_BLOCKS};
use crate::checkpoint::errors::{made_by, CheckpointError, CheckpointErrorKind, CheckpointResult};
use crate::checkpoint::strategies::CheckpointStrategy;
use crate::checkpoint::tracking::{CheckpointManagerState, CheckpointState, DirtyBlockTracker};
use crate::config::{config_error, V2WALConfig};
use crate::duration::Duration;
use crate::header::secs_since_epoch;
use crate::text::{decimal, push_decimal};

verus! {

broadcast use vstd::seq_lib::group_to_multiset_ensures, vstd::multiset::group_multiset_axioms;

/// Whether `r` is what creating a manager for `config` with `strategy` gives: the
/// configuration's fault, or a fresh manager (idle, nothing dirty, not shutting down).
pub open spec fn created(config: V2WALConfig, strategy: CheckpointStrategy, r: CheckpointResult<V2WALCheckpointManager>) -> bool {
    match manager_config_fault(config) {
        Some(m) => r matches Err(e) && made_by(e, CheckpointErrorKind::Configuration, m),
        None => r matches Ok(mgr) && {
            &&& mgr.wf()
            &&& mgr.config() == config
            &&& mgr.strategy() == strategy
            &&& mgr.machine() == CheckpointManagerState::default_state()
            &&& mgr.tracker().dirty_blocks() == Seq::<u64>::empty()
            &&& mgr.tracker().clusters() == Map::<i64, Set<u64>>::empty()
            &&& mgr.tracker().global() == Set::<u64>::empty()
            &&& !mgr.shutting_down()
        },
    }
}

/// Whether the path has a parent directory, by the host's path rules.
pub uninterp spec fn spec_has_parent(path: Seq<char>) -> bool;

/// Whether the path has a parent directory (`Path::parent` is `Some`).
#[verifier::external_body]
fn path_has_parent(path: &str) -> (b: bool)
    ensures
        b == spec_has_parent(path@),
{
    std::path::Path::new(path).parent().is_some()
}

/// Why a configuration cannot be used by a checkpoint manager, if it cannot: the log
/// configuration is invalid, or the checkpoint path has no parent directory.
pub open spec fn manager_config_fault(c: V2WALConfig) -> Option<Seq<char>> {
    match config_error(c) {
        Some((parameter, reason)) => Some("Invalid configuration for "@ + parameter + ": "@ + reason),
        None => if !spec_has_parent(c.checkpoint_path@) {
            Some("Checkpoint path must have a valid parent directory"@)
        } else {
            None
        },
    }
}

/// Why a block offset cannot be marked dirty, if it cannot: it is zero, or not on a block
/// boundary of the graph file.
pub open spec fn block_offset_fault(block_offset: u64) -> Option<Seq<char>> {
    if block_offset == 0 {
        Some("Block offset cannot be zero"@)
    } else if block_offset % 4096 != 0 {
        Some("Block offset "@ + decimal(block_offset as nat) + " is not aligned to V2 graph block size"@)
    } else {
        None
    }
}

/// The dirty blocks that marking with `cluster_key` adds to: those of cluster `k` (none
/// when the cluster is unknown), or the global ones.
pub open spec fn key_blocks(t: DirtyBlockTracker, cluster_key: Option<i64>) -> Set<u64> {
    match cluster_key {
        Some(k) => if t.clusters().contains_key(k) {
            t.clusters()[k]
        } else {
            Set::empty()
        },
        None => t.global(),
    }
}

/// How many dirty blocks marking with `cluster_key` may leave in its set.
pub open spec fn key_limit(cluster_key: Option<i64>) -> nat {
    match cluster_key {
        Some(_) => MAX_DIRTY_BLOCKS_PER_CLUSTER as nat,
        None => MAX_GLOBAL_DIRTY_BLOCKS as nat,
    }
}

/// Marking `blocks` in turn into the set `s` that may hold `limit` blocks, where the clock
/// read `readings[i]` for the `i`-th block (`None` when it could not be read): a block is
/// marked when its offset is valid, the clock was read, and the set is not full; the
/// number marked and the resulting set.
pub open spec fn marking(s: Set<u64>, limit: nat, blocks: Seq<u64>, readings: Seq<Option<u64>>) -> (nat, Set<u64>)
    decreases blocks.len(),
{
    if blocks.len() == 0 || readings.len() != blocks.len() {
        (0, s)
    } else {
        let (n, t) = marking(s, limit, blocks.drop_last(), readings.drop_last());
        let b = blocks.last();
        if block_offset_fault(b) is None && readings.last() is Some && t.len() < limit {
            (n + 1, t.insert(b))
        } else {
            (n, t)
        }
    }
}

/// Whether marking `blocks` with `cluster_key` took the tracker from `before` to `after`
/// and returned `r`, with the clock readings `readings`: `r` counts the blocks marked, the
/// set marked into is as `marking` says, and the other sets are unchanged.
pub open spec fn marks_as(
    before: DirtyBlockTracker,
    after: DirtyBlockTracker,
    cluster_key: Option<i64>,
    blocks: Seq<u64>,
    readings: Seq<Option<u64>>,
    r: CheckpointResult<u64>,
) -> bool {
    let m = marking(key_blocks(before, cluster_key), key_limit(cluster_key), blocks, readings);
    &&& r == Ok::<u64, CheckpointError>(m.0 as u64)
    &&& key_blocks(after, cluster_key) == m.1
    &&& cluster_key is Some ==> after.global() == before.global()
    &&& cluster_key is None ==> after.clusters() == before.clusters()
}

/// Whether a checkpoint is due under `strategy` in state `s`, at `now_ms` on the clock of
/// the state's times, with a log of `wal_size` bytes: the interval has passed since the last
/// checkpoint (or there was none), enough transactions were committed, or the log is large
/// enough; the adaptive strategy is not evaluated here and never fires.
pub open spec fn strategy_due(strategy: CheckpointStrategy, s: CheckpointManagerState, now_ms: u64, wal_size: u64) -> bool {
    match strategy {
        CheckpointStrategy::TimeInterval(interval) => match s.last_checkpoint {
            Some(last) => interval@ <= (if now_ms >= last { (now_ms - last) as nat } else { 0nat }) * 1_000_000,
            None => true,
        },
        CheckpointStrategy::TransactionCount(threshold) => s.transactions_since_checkpoint >= threshold,
        CheckpointStrategy::SizeThreshold(threshold) => wal_size >= threshold,
        CheckpointStrategy::Adaptive { .. } => false,
    }
}

/// The log size as observed: 0 when it could not be read.
pub open spec fn observed_size(wal_size: Result<u64, String>) -> u64 {
    match wal_size {
        Ok(n) => n,
        Err(_) => 0,
    }
}

/// The state after a checkpoint begins at `now_ms`.
pub open spec fn begun(s: CheckpointManagerState, now_ms: u64) -> CheckpointManagerState {
    CheckpointManagerState {
        in_progress: true,
        current_state: CheckpointState::Collecting,
        checkpoint_start_time: Some(now_ms),
        current_operation_id: (s.current_operation_id + 1) as u64,
        ..s
    }
}

/// The state after a checkpoint ends, successfully or not; a forced checkpoint that
/// succeeds also restarts the transaction count and records the log size `wal_size`.
pub open spec fn finished(s: CheckpointManagerState, succeeded: bool, forced: bool, wal_size: u64) -> CheckpointManagerState {
    if succeeded {
        CheckpointManagerState {
            in_progress: false,
            current_state: CheckpointState::Complete,
            last_checkpoint: s.checkpoint_start_time,
            completed_checkpoints: (s.completed_checkpoints + 1) as u64,
            transactions_since_checkpoint: if forced { 0 } else { s.transactions_since_checkpoint },
            checkpointed_wal_size: if forced { wal_size } else { s.checkpointed_wal_size },
            ..s
        }
    } else {
        CheckpointManagerState {
            in_progress: false,
            current_state: CheckpointState::Failed,
            failed_attempts: (s.failed_attempts + 1) as u64,
            ..s
        }
    }
}

/// Manages incremental checkpoints of one log.
pub struct V2WALCheckpointManager {
    config: V2WALConfig,
    state: CheckpointManagerState,
    strategy: CheckpointStrategy,
    dirty_blocks: DirtyBlockTracker,
    shutdown_flag: bool,
}

impl V2WALCheckpointManager {
    /// The log configuration.
    pub closed spec fn config(&self) -> V2WALConfig {
        self.config
    }

    /// The state of the checkpoint machine.
    pub closed spec fn machine(&self) -> CheckpointManagerState {
        self.state
    }

    /// The strategy.
    pub closed spec fn strategy(&self) -> CheckpointStrategy {
        self.strategy
    }

    /// The dirty block tracker.
    pub closed spec fn tracker(&self) -> DirtyBlockTracker {
        self.dirty_blocks
    }

    /// Whether shutdown was requested.
    pub closed spec fn shutting_down(&self) -> bool {
        self.shutdown_flag
    }

    /// The tracker is well formed, with the standard limits.
    pub closed spec fn wf(&self) -> bool {
        &&& self.dirty_blocks.wf()
        &&& self.dirty_blocks.cluster_limit() == MAX_DIRTY_BLOCKS_PER_CLUSTER
        &&& self.dirty_blocks.global_limit() == MAX_GLOBAL_DIRTY_BLOCKS
    }

    /// Checks a configuration for use by a manager: the log configuration must be valid
    /// (its error becomes a configuration error with its description), and the checkpoint
    /// path must have a parent directory.
    pub fn validate_configuration(config: &V2WALConfig) -> (r: CheckpointResult<()>)
        ensures
            match manager_config_fault(*config) {
                None => r is Ok,
                Some(m) => r matches Err(e) && made_by(e, CheckpointErrorKind::Configuration, m),
            },
    {
        match config.validate() {
            Ok(()) => {},
            Err(e) => {
                let m = e.to_string();
                return Err(CheckpointError::configuration(m.as_str()));
            },
        }
        if !path_has_parent(config.checkpoint_path.as_str()) {
            return Err(CheckpointError::configuration("Checkpoint path must have a valid parent directory"));
        }
        Ok(())
    }

    /// A manager for `config` with `strategy`: idle, nothing dirty, the standard limits on
    /// dirty blocks; fails when the configuration cannot be used.
    pub fn create(config: V2WALConfig, strategy: CheckpointStrategy) -> (r: CheckpointResult<Self>)
        ensures
            created(config, strategy, r),
    {
        Self::validate_configuration(&config)?;
        let state = CheckpointManagerState::default();
        let dirty_blocks = DirtyBlockTracker::new(MAX_DIRTY_BLOCKS_PER_CLUSTER, MAX_GLOBAL_DIRTY_BLOCKS);
        Ok(V2WALCheckpointManager { config, state, strategy, dirty_blocks, shutdown_flag: false })
    }

    /// The position of the checkpoint machine.
    pub fn get_state(&self) -> (s: CheckpointState)
        ensures
            s == self.machine().current_state,
    {
        self.state.current_state
    }

    /// Whether a checkpoint is in progress.
    pub fn is_checkpoint_in_progress(&self) -> (b: bool)
        ensures
            b == self.machine().in_progress,
    {
        self.state.in_progress
    }

    /// The last checkpointed log sequence number.
    pub fn get_last_checkpointed_lsn(&self) -> (n: u64)
        ensures
            n == self.machine().checkpointed_lsn,
    {
        self.state.checkpointed_lsn
    }

    /// Completed checkpoints, failed attempts and the current operation's identifier.
    pub fn get_checkpoint_statistics(&self) -> (r: (u64, u64, u64))
        ensures
            r == (
                self.machine().completed_checkpoints,
                self.machine().failed_attempts,
                self.machine().current_operation_id,
            ),
    {
        (self.state.completed_checkpoints, self.state.failed_attempts, self.state.current_operation_id)
    }

    /// The dirty block tracker.
    pub fn dirty_blocks(&self) -> (t: &DirtyBlockTracker)
        ensures
            *t == self.tracker(),
    {
        &self.dirty_blocks
    }

    /// Marks the block at `block_offset` dirty at `timestamp`, in cluster `cluster_key` or
    /// else globally, and records the access. Fails on an offset that is zero or off a block
    /// boundary, and when the cluster or the global set is full; nothing changes then.
    pub fn mark_block_dirty_at(&mut self, block_offset: u64, cluster_key: Option<i64>, timestamp: u64) -> (r: CheckpointResult<()>)
        requires
            old(self).wf(),
            old(self).tracker().dirty_blocks().len() < usize::MAX,
            old(self).tracker().access_counts().contains_key(block_offset)
                ==> old(self).tracker().access_counts()[block_offset] < u64::MAX,
        ensures
            final(self).wf(),
            final(self).config() == old(self).config(),
            final(self).machine() == old(self).machine(),
            final(self).strategy() == old(self).strategy(),
            final(self).shutting_down() == old(self).shutting_down(),
            final(self).tracker().dirty_blocks().len() <= old(self).tracker().dirty_blocks().len() + 1,
            forall|b: u64| #[trigger] final(self).tracker().access_counts().contains_key(b)
                ==> final(self).tracker().access_counts()[b] <= (if old(self).tracker().access_counts().contains_key(b) {
                    old(self).tracker().access_counts()[b] as int
                } else {
                    0
                }) + 1,
            match block_offset_fault(block_offset) {
                Some(m) => r matches Err(e) && made_by(e, CheckpointErrorKind::Validation, m)
                    && final(self).tracker() == old(self).tracker(),
                None => match cluster_key {
                    Some(k) => {
                        &&& (r is Err <==> old(self).tracker().cluster_size(k) >= MAX_DIRTY_BLOCKS_PER_CLUSTER)
                        &&& r is Err ==> final(self).tracker().dirty_blocks() == old(self).tracker().dirty_blocks()
                            && final(self).tracker().access_counts() == old(self).tracker().access_counts()
                            && final(self).tracker().global() == old(self).tracker().global()
                        &&& r is Ok ==> final(self).tracker().clusters()[k].contains(block_offset)
                            && final(self).tracker().global() == old(self).tracker().global()
                    },
                    None => {
                        &&& (r is Err <==> old(self).tracker().global_size() >= MAX_GLOBAL_DIRTY_BLOCKS)
                        &&& r is Err ==> final(self).tracker() == old(self).tracker()
                        &&& r is Ok ==> final(self).tracker().global() == old(self).tracker().global().insert(block_offset)
                            && final(self).tracker().clusters() == old(self).tracker().clusters()
                    },
                },
            },
            key_blocks(final(self).tracker(), cluster_key) == if r is Ok {
                key_blocks(old(self).tracker(), cluster_key).insert(block_offset)
            } else {
                key_blocks(old(self).tracker(), cluster_key)
            },
            block_offset_fault(block_offset) is None ==> (r is Err
                <==> key_blocks(old(self).tracker(), cluster_key).len() >= key_limit(cluster_key)),
            cluster_key is Some ==> final(self).tracker().global() == old(self).tracker().global(),
            cluster_key is None ==> final(self).tracker().clusters() == old(self).tracker().clusters(),
            r is Ok ==> final(self).tracker().timestamps() == old(self).tracker().timestamps().insert(block_offset, timestamp)
                && final(self).tracker().access_counts() == old(self).tracker().access_counts().insert(
                    block_offset,
                    if old(self).tracker().access_counts().contains_key(block_offset) {
                        (old(self).tracker().access_counts()[block_offset] + 1) as u64
                    } else {
                        1u64
                    },
                ),
    {
        if block_offset == 0 {
            return Err(CheckpointError::validation("Block offset cannot be zero"));
        }
        if block_offset % V2_GRAPH_BLOCK_SIZE != 0 {
            let mut m = String::from_str("Block offset ");
            push_decimal(&mut m, block_offset);
            m.append(" is not aligned to V2 graph block size");
            return Err(CheckpointError::validation(m.as_str()));
        }
        let ghost before = self.dirty_blocks;
        proof {
            before.lemma_views();
        }
        match cluster_key {
            Some(k) => {
                match self.dirty_blocks.mark_cluster_block_dirty(k, block_offset, timestamp) {
                    Ok(()) => {},
                    Err(e) => return Err(e),
                }
            },
            None => {
                match self.dirty_blocks.mark_global_block_dirty(block_offset, timestamp) {
                    Ok(()) => {},
                    Err(e) => return Err(e),
                }
            },
        }
        proof {
            let mid = self.dirty_blocks;
            assert(mid.dirty_blocks().to_multiset().len() == mid.dirty_blocks().len());
            assert(before.dirty_blocks().to_multiset().len() == before.dirty_blocks().len());
        }
        self.dirty_blocks.update_block_access(block_offset, timestamp);
        Ok(())
    }

    /// Marks the block at `block_offset` dirty now, as `mark_block_dirty_at` does with the
    /// seconds since the Unix epoch for its timestamp; fails with an I/O error when the
    /// clock reads earlier than the epoch. The time comes from the clock, so this states
    /// what holds for every reading.
    pub fn mark_block_dirty(&mut self, block_offset: u64, cluster_key: Option<i64>) -> (r: CheckpointResult<()>)
        requires
            old(self).wf(),
            old(self).tracker().dirty_blocks().len() < usize::MAX,
            old(self).tracker().access_counts().contains_key(block_offset)
                ==> old(self).tracker().access_counts()[block_offset] < u64::MAX,
        ensures
            final(self).wf(),
            final(self).config() == old(self).config(),
            final(self).machine() == old(self).machine(),
            final(self).strategy() == old(self).strategy(),
            final(self).shutting_down() == old(self).shutting_down(),
            final(self).tracker().dirty_blocks().len() <= old(self).tracker().dirty_blocks().len() + 1,
            forall|b: u64| #[trigger] final(self).tracker().access_counts().contains_key(b)
                ==> final(self).tracker().access_counts()[b] <= (if old(self).tracker().access_counts().contains_key(b) {
                    old(self).tracker().access_counts()[b] as int
                } else {
                    0
                }) + 1,
            block_offset_fault(block_offset) matches Some(m) ==> (r matches Err(e)
                && made_by(e, CheckpointErrorKind::Validation, m) && final(self).tracker() == old(self).tracker()),
            r is Err ==> final(self).tracker().dirty_blocks() == old(self).tracker().dirty_blocks()
                && final(self).tracker().access_counts() == old(self).tracker().access_counts()
                && final(self).tracker().global() == old(self).tracker().global(),
            r is Ok ==> block_offset_fault(block_offset) is None
                && (exists|t: u64| final(self).tracker().timestamps() == old(self).tracker().timestamps().insert(block_offset, t))
                && match cluster_key {
                    Some(k) => final(self).tracker().clusters()[k].contains(block_offset)
                        && final(self).tracker().global() == old(self).tracker().global(),
                    None => final(self).tracker().global() == old(self).tracker().global().insert(block_offset)
                        && final(self).tracker().clusters() == old(self).tracker().clusters(),
                },
    {
        if block_offset == 0 || block_offset % V2_GRAPH_BLOCK_SIZE != 0 {
            return self.mark_block_dirty_at(block_offset, cluster_key, 0);
        }
        let timestamp = match secs_since_epoch() {
            Ok(t) => t,
            Err(reason) => {
                let mut m = String::from_str("Failed to get timestamp: ");
                m.append(reason.as_str());
                return Err(CheckpointError::io(m.as_str()));
            },
        };
        self.mark_block_dirty_at(block_offset, cluster_key, timestamp)
    }

    /// Marks each of `block_offsets` dirty in turn, as `mark_block_dirty_at` does, where the
    /// clock read `readings[i]` for the `i`-th block (`None` when it could not be read, and
    /// then that block is not marked), skipping those that fail, and returns how many were
    /// marked. Offsets that are zero or off a block boundary are never marked.
    pub fn mark_blocks_dirty_at(
        &mut self,
        block_offsets: &[u64],
        cluster_key: Option<i64>,
        readings: &Vec<Option<u64>>,
    ) -> (r: CheckpointResult<u64>)
        requires
            old(self).wf(),
            readings@.len() == block_offsets@.len(),
            old(self).tracker().dirty_blocks().len() + block_offsets@.len() < usize::MAX,
            forall|b: u64| old(self).tracker().access_counts().contains_key(b)
                ==> old(self).tracker().access_counts()[b] + block_offsets@.len() < u64::MAX,
        ensures
            final(self).wf(),
            final(self).config() == old(self).config(),
            final(self).machine() == old(self).machine(),
            final(self).strategy() == old(self).strategy(),
            final(self).shutting_down() == old(self).shutting_down(),
            marks_as(old(self).tracker(), final(self).tracker(), cluster_key, block_offsets@, readings@, r),
            r matches Ok(n) && n <= block_offsets@.len(),
            (forall|i: int| 0 <= i < block_offsets@.len() ==> #[trigger] block_offset_fault(block_offsets@[i]) is Some)
                ==> r == Ok::<u64, CheckpointError>(0) && final(self).tracker() == old(self).tracker(),
    {
        let mut marked: u64 = 0;
        let mut i: usize = 0;
        let ghost start = self.tracker();
        let ghost s0 = key_blocks(start, cluster_key);
        let ghost lim = key_limit(cluster_key);
        while i < block_offsets.len()
            invariant
                0 <= i <= block_offsets@.len(),
                readings@.len() == block_offsets@.len(),
                marked <= i,
                self.wf(),
                self.config() == old(self).config(),
                self.machine() == old(self).machine(),
                self.strategy() == old(self).strategy(),
                self.shutting_down() == old(self).shutting_down(),
                start == old(self).tracker(),
                s0 == key_blocks(start, cluster_key),
                lim == key_limit(cluster_key),
                marked as nat == marking(s0, lim, block_offsets@.subrange(0, i as int), readings@.subrange(0, i as int)).0,
                key_blocks(self.tracker(), cluster_key)
                    == marking(s0, lim, block_offsets@.subrange(0, i as int), readings@.subrange(0, i as int)).1,
                cluster_key is Some ==> self.tracker().global() == start.global(),
                cluster_key is None ==> self.tracker().clusters() == start.clusters(),
                self.tracker().dirty_blocks().len() <= start.dirty_blocks().len() + i,
                forall|b: u64| self.tracker().access_counts().contains_key(b)
                    ==> self.tracker().access_counts()[b] <= (if start.access_counts().contains_key(b) {
                        start.access_counts()[b] as int
                    } else {
                        0
                    }) + i,
                start.dirty_blocks().len() + block_offsets@.len() < usize::MAX,
                forall|b: u64| start.access_counts().contains_key(b)
                    ==> start.access_counts()[b] + block_offsets@.len() < u64::MAX,
                (forall|k: int| 0 <= k < block_offsets@.len() ==> #[trigger] block_offset_fault(block_offsets@[k]) is Some)
                    ==> marked == 0 && self.tracker() == start,
            decreases block_offsets@.len() - i,
        {
            let b = block_offsets[i];
            let ghost before = self.tracker();
            let ghost bs = block_offsets@.subrange(0, i + 1);
            let ghost rs = readings@.subrange(0, i + 1);
            proof {
                before.lemma_views();
                if before.access_counts().contains_key(b) {
                    assert(before.access_counts()[b] < u64::MAX);
                }
                assert(bs.drop_last() =~= block_offsets@.subrange(0, i as int));
                assert(rs.drop_last() =~= readings@.subrange(0, i as int));
                assert(bs.last() == b);
                assert(rs.last() == readings@[i as int]);
            }
            match readings[i] {
                Some(t) => {
                    let result = self.mark_block_dirty_at(b, cluster_key, t);
                    proof {
                        let after = self.tracker();
                        assert forall|c: u64| after.access_counts().contains_key(c) implies after.access_counts()[c] <= (if start.access_counts().contains_key(c) {
                            start.access_counts()[c] as int
                        } else {
                            0
                        }) + i + 1 by {
                            if before.access_counts().contains_key(c) {
                                assert(before.access_counts()[c] <= (if start.access_counts().contains_key(c) {
                                    start.access_counts()[c] as int
                                } else {
                                    0
                                }) + i);
                            }
                        }
                    }
                    if result.is_ok() {
                        marked = marked + 1;
                    }
                },
                None => {},
            }
            i = i + 1;
        }
        proof {
            assert(block_offsets@.subrange(0, block_offsets@.len() as int) =~= block_offsets@);
            assert(readings@.subrange(0, readings@.len() as int) =~= readings@);
        }
        Ok(marked)
    }

    /// Marks each of `block_offsets` dirty in turn, as `mark_block_dirty` does, skipping those
    /// that fail, and returns how many were marked: a block is marked when its offset is
    /// valid, the clock could be read for it, and its set (its cluster's, or the global one)
    /// is not full. Offsets that are zero or off a block boundary are never marked. The
    /// clock's readings decide which blocks can be marked, so this states what holds for
    /// every reading of it.
    pub fn mark_blocks_dirty(&mut self, block_offsets: &[u64], cluster_key: Option<i64>) -> (r: CheckpointResult<u64>)
        requires
            old(self).wf(),
            old(self).tracker().dirty_blocks().len() + block_offsets@.len() < usize::MAX,
            forall|b: u64| old(self).tracker().access_counts().contains_key(b)
                ==> old(self).tracker().access_counts()[b] + block_offsets@.len() < u64::MAX,
        ensures
            final(self).wf(),
            final(self).config() == old(self).config(),
            final(self).machine() == old(self).machine(),
            final(self).strategy() == old(self).strategy(),
            final(self).shutting_down() == old(self).shutting_down(),
            exists|readings: Seq<Option<u64>>| readings.len() == block_offsets@.len()
                && marks_as(old(self).tracker(), final(self).tracker(), cluster_key, block_offsets@, readings, r),
            r matches Ok(n) && n <= block_offsets@.len(),
            (forall|i: int| 0 <= i < block_offsets@.len() ==> #[trigger] block_offset_fault(block_offsets@[i]) is Some)
                ==> r == Ok::<u64, CheckpointError>(0) && final(self).tracker() == old(self).tracker(),
    {
        let mut readings: Vec<Option<u64>> = Vec::new();
        let mut i: usize = 0;
        while i < block_offsets.len()
            invariant
                0 <= i <= block_offsets@.len(),
                readings@.len() == i,
            decreases block_offsets@.len() - i,
        {
            let b = block_offsets[i];
            if b == 0 || b % V2_GRAPH_BLOCK_SIZE != 0 {
                readings.push(None);
            } else {
                match secs_since_epoch() {
                    Ok(t) => readings.push(Some(t)),
                    Err(_) => readings.push(None),
                }
            }
            i = i + 1;
        }
        let r = self.mark_blocks_dirty_at(block_offsets, cluster_key, &readings);
        assert(marks_as(old(self).tracker(), self.tracker(), cluster_key, block_offsets@, readings@, r));
        r
    }

    /// Whether a checkpoint is due under the manager's strategy at `now_ms` (on the clock of
    /// the state's times), with the log size `wal_size` as observed (0 when it could not be
    /// read).
    pub fn evaluate_checkpoint_strategy(&self, now_ms: u64, wal_size: &Result<u64, String>) -> (b: bool)
        ensures
            b == strategy_due(self.strategy(), self.machine(), now_ms, observed_size(*wal_size)),
    {
        let size = match wal_size {
            Ok(n) => *n,
            Err(_) => 0,
        };
        match &self.strategy {
            CheckpointStrategy::TimeInterval(interval) => match self.state.last_checkpoint {
                Some(last) => {
                    let elapsed_ms = if now_ms >= last { now_ms - last } else { 0 };
                    let elapsed = Duration::from_millis(elapsed_ms);
                    interval.le(&elapsed)
                },
                None => true,
            },
            CheckpointStrategy::TransactionCount(threshold) => self.state.transactions_since_checkpoint >= *threshold,
            CheckpointStrategy::SizeThreshold(threshold) => size >= *threshold,
            CheckpointStrategy::Adaptive { .. } => false,
        }
    }

    /// Whether a checkpoint should run now: never after shutdown was requested, while one is
    /// in progress or after one failed; otherwise when the strategy says it is due.
    pub fn should_checkpoint(&self, now_ms: u64, wal_size: &Result<u64, String>) -> (r: CheckpointResult<bool>)
        ensures
            r == Ok::<bool, CheckpointError>(checkpoint_due(*self, now_ms, *wal_size)),
    {
        if self.shutdown_flag {
            return Ok(false);
        }
        if self.state.in_progress {
            return Ok(false);
        }
        if self.state.current_state == CheckpointState::Failed {
            return Ok(false);
        }
        Ok(self.evaluate_checkpoint_strategy(now_ms, wal_size))
    }

    /// Starts a checkpoint at `now_ms`. An unforced checkpoint fails when none is due; any
    /// checkpoint fails when one is already in progress; nothing changes then.
    pub fn begin_checkpoint(&mut self, forced: bool, now_ms: u64, wal_size: &Result<u64, String>) -> (r: CheckpointResult<()>)
        requires
            old(self).machine().current_operation_id < u64::MAX,
        ensures
            final(self).config() == old(self).config(),
            final(self).strategy() == old(self).strategy(),
            final(self).tracker() == old(self).tracker(),
            final(self).shutting_down() == old(self).shutting_down(),
            final(self).wf() == old(self).wf(),
            ({
                let due = checkpoint_due(*old(self), now_ms, *wal_size);
                if !forced && !due {
                    r matches Err(e) && made_by(e, CheckpointErrorKind::State, "Checkpoint not required based on strategy"@)
                        && final(self).machine() == old(self).machine()
                } else if old(self).machine().in_progress {
                    r matches Err(e) && made_by(e, CheckpointErrorKind::State, "Checkpoint already in progress"@)
                        && final(self).machine() == old(self).machine()
                } else {
                    r is Ok && final(self).machine() == begun(old(self).machine(), now_ms)
                }
            }),
    {
        if !forced {
            let due = self.should_checkpoint(now_ms, wal_size);
            match due {
                Ok(true) => {},
                _ => return Err(CheckpointError::state("Checkpoint not required based on strategy")),
            }
        }
        if self.state.in_progress {
            return Err(CheckpointError::state("Checkpoint already in progress"));
        }
        self.state.in_progress = true;
        self.state.current_state = CheckpointState::Collecting;
        self.state.checkpoint_start_time = Some(now_ms);
        self.state.current_operation_id = self.state.current_operation_id + 1;
        Ok(())
    }

    /// Moves a running checkpoint to processing, as the checkpoint work starts.
    pub fn start_processing(&mut self)
        ensures
            final(self).machine() == (CheckpointManagerState {
                current_state: CheckpointState::Processing,
                ..old(self).machine()
            }),
            final(self).config() == old(self).config(),
            final(self).strategy() == old(self).strategy(),
            final(self).tracker() == old(self).tracker(),
            final(self).shutting_down() == old(self).shutting_down(),
            final(self).wf() == old(self).wf(),
    {
        self.state.current_state = CheckpointState::Processing;
    }

    /// Ends the running checkpoint: complete when `succeeded`, else failed. A forced
    /// checkpoint that succeeds also restarts the transaction count and records the log
    /// size as observed.
    pub fn finish_checkpoint(&mut self, succeeded: bool, forced: bool, wal_size: &Result<u64, String>)
        requires
            old(self).machine().completed_checkpoints < u64::MAX,
            old(self).machine().failed_attempts < u64::MAX,
        ensures
            final(self).machine() == finished(old(self).machine(), succeeded, forced, observed_size(*wal_size)),
            final(self).config() == old(self).config(),
            final(self).strategy() == old(self).strategy(),
            final(self).tracker() == old(self).tracker(),
            final(self).shutting_down() == old(self).shutting_down(),
            final(self).wf() == old(self).wf(),
    {
        self.state.in_progress = false;
        if succeeded {
            self.state.current_state = CheckpointState::Complete;
            self.state.last_checkpoint = self.state.checkpoint_start_time;
            self.state.completed_checkpoints = self.state.completed_checkpoints + 1;
            if forced {
                self.state.transactions_since_checkpoint = 0;
                self.state.checkpointed_wal_size = match wal_size {
                    Ok(n) => *n,
                    Err(_) => 0,
                };
            }
        } else {
            self.state.current_state = CheckpointState::Failed;
            self.state.failed_attempts = self.state.failed_attempts + 1;
        }
    }

    /// Records that shutdown was requested.
    pub fn request_shutdown(&mut self)
        ensures
            final(self).shutting_down(),
            final(self).machine() == old(self).machine(),
            final(self).config() == old(self).config(),
            final(self).strategy() == old(self).strategy(),
            final(self).tracker() == old(self).tracker(),
            final(self).wf() == old(self).wf(),
    {
        self.shutdown_flag = true;
    }
}

/// A checkpoint cycle, begun and then finished, leaves no checkpoint in progress, moves to
/// the next operation identifier, and counts exactly one more completed checkpoint or one
/// more failed attempt.
pub proof fn lemma_checkpoint_cycle(s: CheckpointManagerState, now_ms: u64, succeeded: bool, forced: bool, wal_size: u64)
    requires
        s.current_operation_id < u64::MAX,
        s.completed_checkpoints < u64::MAX,
        s.failed_attempts < u64::MAX,
    ensures
        ({
            let t = finished(begun(s, now_ms), succeeded, forced, wal_size);
            &&& !t.in_progress
            &&& t.current_operation_id == s.current_operation_id + 1
            &&& t.completed_checkpoints + t.failed_attempts == s.completed_checkpoints + s.failed_attempts + 1
            &&& succeeded ==> t.current_state == CheckpointState::Complete && t.last_checkpoint == Some(now_ms)
            &&& !succeeded ==> t.current_state == CheckpointState::Failed && t.last_checkpoint == s.last_checkpoint
        }),
{
}

/// Whether a checkpoint should run now on the manager `m`: not after shutdown was
/// requested, nor while one is in progress or after one failed; otherwise when the
/// strategy says it is due.
pub open spec fn checkpoint_due(m: V2WALCheckpointManager, now_ms: u64, wal_size: Result<u64, String>) -> bool {
    &&& !m.shutting_down()
    &&& !m.machine().in_progress
    &&& m.machine().current_state != CheckpointState::Failed
    &&& strategy_due(m.strategy(), m.machine(), now_ms, observed_size(wal_size))
}

/// Once shutdown is requested, no checkpoint is due, whatever the time and the log size, so
/// none can begin unless forced.
pub proof fn lemma_no_checkpoint_after_shutdown(m: V2WALCheckpointManager, now_ms: u64, wal_size: Result<u64, String>)
    requires
        m.shutting_down(),
    ensures
        !checkpoint_due(m, now_ms, wal_size),
{
}

impl CheckpointManagerState {
    /// The state of a new manager.
    pub open spec fn default_state() -> CheckpointManagerState {
        CheckpointManagerState {
            current_state: CheckpointState::Idle,
            checkpointed_lsn: 0,
            in_progress: false,
            last_checkpoint: None,
            current_operation_id: 0,
            completed_checkpoints: 0,
            failed_attempts: 0,
            checkpoint_start_time: None,
            transactions_since_checkpoint: 0,
            checkpointed_wal_size: 0,
        }
    }
}

} // verus!
