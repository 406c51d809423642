//! Checkpoint state and dirty block tracking for the V2 clustered edge format.
use vstd::prelude::*;
use crate::checkpoint::errors::{made_by, CheckpointError, CheckpointErrorKind, CheckpointResult};
use crate::seqs::{
    has_key, keys_distinct, lemma_value_at, not_in, sort_ascending, sorted, value_of, without_values,
    contains_u64, lemma_filter_facts,
};
use std::collections::HashMap;
use crate::text::{push_signed_decimal, signed_decimal};

verus! {

broadcast use vstd::seq_lib::group_seq_properties, vstd::seq_lib::group_to_multiset_ensures,
    vstd::std_specs::hash::group_hash_axioms;

/// Position in the checkpoint state machine.
#[derive(Debug, Clone, Copy, PartialEq, Eq, Structural)]
pub enum CheckpointState {
    /// No checkpoint in progress.
    Idle,
    /// Setting up checkpoint resources.
    Initializing,
    /// Gathering dirty blocks and log records.
    Collecting,
    /// Applying records to the main file.
    Processing,
    /// Writing dirty blocks to disk.
    Flushing,
    /// Verifying checkpoint integrity.
    Validating,
    /// Finished successfully.
    Complete,
    /// Failed unrecoverably.
    Failed,
}

impl Default for CheckpointState {
    fn default() -> (s: Self)
        ensures
            s == CheckpointState::Idle,
    {
        CheckpointState::Idle
    }
}

/// State of a checkpoint manager: state machine position, LSN tracking and statistics.
/// Points in time are milliseconds on a monotonic clock.
#[derive(Debug, Clone)]
pub struct CheckpointManagerState {
    /// Current position in the state machine.
    pub current_state: CheckpointState,
    /// Last checkpointed log sequence number.
    pub checkpointed_lsn: u64,
    /// Whether a checkpoint is in progress.
    pub in_progress: bool,
    /// When the last checkpoint succeeded.
    pub last_checkpoint: Option<u64>,
    /// Identifier of the current checkpoint operation.
    pub current_operation_id: u64,
    /// Checkpoints completed since creation.
    pub completed_checkpoints: u64,
    /// Failed checkpoint attempts.
    pub failed_attempts: u64,
    /// When the current checkpoint started.
    pub checkpoint_start_time: Option<u64>,
    /// Transactions committed since the last checkpoint.
    pub transactions_since_checkpoint: u64,
    /// Log size at the last checkpoint.
    pub checkpointed_wal_size: u64,
}

impl Default for CheckpointManagerState {
    fn default() -> (s: Self)
        ensures
            s.current_state == CheckpointState::Idle,
            s.checkpointed_lsn == 0,
            !s.in_progress,
            s.last_checkpoint is None,
            s.current_operation_id == 0,
            s.completed_checkpoints == 0,
            s.failed_attempts == 0,
            s.checkpoint_start_time is None,
            s.transactions_since_checkpoint == 0,
            s.checkpointed_wal_size == 0,
    {
        CheckpointManagerState {
            current_state: CheckpointState::Idle,
            checkpointed_lsn: 0,
            in_progress: false,
            last_checkpoint: None,
            current_operation_id: 0,
            completed_checkpoints: 0,
            failed_attempts: 0,
            checkpoint_start_time: None,
            transactions_since_checkpoint: 0,
            checkpointed_wal_size: 0,
        }
    }
}

/// Kind of block in a V2 graph file.
#[derive(Debug, Clone, Copy, PartialEq, Eq, Structural)]
pub enum V2BlockType {
    NodeRecord,
    EdgeCluster,
    StringTable,
    FreeSpace,
    Metadata,
    Unknown,
}

/// Access pattern of a dirty block.
#[derive(Debug, Clone, Copy, PartialEq, Eq, Structural)]
pub enum AccessPattern {
    Sequential,
    Random,
    Burst,
    Sparse,
}

/// Metadata of a block, for checkpoint ordering.
#[derive(Debug, Clone, Copy)]
pub struct BlockMetadata {
    /// Block size in bytes.
    pub size: u64,
    /// Cluster the block belongs to.
    pub cluster_key: Option<i64>,
    /// Kind of block.
    pub block_type: V2BlockType,
    /// Access pattern.
    pub access_pattern: AccessPattern,
    /// Checkpoint priority (higher is more important).
    pub priority: u8,
}

/// The blocks of all clusters, cluster after cluster.
pub open spec fn flat(s: Seq<(i64, Vec<u64>)>) -> Seq<u64>
    decreases s.len(),
{
    if s.len() == 0 {
        Seq::empty()
    } else {
        flat(s.drop_last()) + s.last().1@
    }
}

proof fn lemma_flat_concat(a: Seq<(i64, Vec<u64>)>, b: Seq<(i64, Vec<u64>)>)
    ensures
        flat(a + b) == flat(a) + flat(b),
    decreases b.len(),
{
    if b.len() == 0 {
        assert(a + b =~= a);
        assert(flat(a) + flat(b) =~= flat(a));
    } else {
        assert((a + b).drop_last() =~= a + b.drop_last());
        lemma_flat_concat(a, b.drop_last());
        assert(flat(a + b) =~= flat(a) + flat(b));
    }
}

proof fn lemma_flat_update(s: Seq<(i64, Vec<u64>)>, i: int, x: (i64, Vec<u64>))
    requires
        0 <= i < s.len(),
    ensures
        flat(s) == flat(s.subrange(0, i)) + s[i].1@ + flat(s.subrange(i + 1, s.len() as int)),
        flat(s.update(i, x)) == flat(s.subrange(0, i)) + x.1@ + flat(s.subrange(i + 1, s.len() as int)),
{
    let pre = s.subrange(0, i);
    let post = s.subrange(i + 1, s.len() as int);
    assert(s =~= pre.push(s[i]) + post);
    assert(s.update(i, x) =~= pre.push(x) + post);
    lemma_flat_concat(pre.push(s[i]), post);
    lemma_flat_concat(pre.push(x), post);
    assert(pre.push(s[i]).drop_last() =~= pre);
    assert(pre.push(x).drop_last() =~= pre);
}

proof fn lemma_flat_push(s: Seq<(i64, Vec<u64>)>, x: (i64, Vec<u64>))
    ensures
        flat(s.push(x)) == flat(s) + x.1@,
{
    assert(s.push(x).drop_last() =~= s);
}

proof fn lemma_flat_contains(s: Seq<(i64, Vec<u64>)>, b: u64)
    ensures
        flat(s).contains(b) <==> exists|i: int| 0 <= i < s.len() && (#[trigger] s[i]).1@.contains(b),
    decreases s.len(),
{
    if s.len() > 0 {
        lemma_flat_contains(s.drop_last(), b);
        let d = s.drop_last();
        if flat(s).contains(b) {
            if flat(d).contains(b) {
                let i = choose|i: int| 0 <= i < d.len() && (#[trigger] d[i]).1@.contains(b);
                assert(s[i] == d[i]);
            } else {
                let k = choose|k: int| 0 <= k < flat(s).len() && flat(s)[k] == b;
                assert(k >= flat(d).len());
                assert(s[s.len() - 1].1@[k - flat(d).len()] == b);
            }
        }
        if exists|i: int| 0 <= i < s.len() && (#[trigger] s[i]).1@.contains(b) {
            let i = choose|i: int| 0 <= i < s.len() && (#[trigger] s[i]).1@.contains(b);
            if i < s.len() - 1 {
                assert(d[i] == s[i]);
                assert(flat(d).contains(b));
                let k = choose|k: int| 0 <= k < flat(d).len() && flat(d)[k] == b;
                assert(flat(s)[k] == b);
            } else {
                let k = choose|k: int| 0 <= k < s.last().1@.len() && s.last().1@[k] == b;
                assert(flat(s)[flat(d).len() + k] == b);
            }
        }
    }
}

/// Removes the entries of `blocks` from `m`.
fn remove_blocks<V>(m: &mut HashMap<u64, V>, blocks: &[u64])
    ensures
        final(m)@ == old(m)@.remove_keys(blocks@.to_set()),
{
    let ghost m0 = m@;
    let mut i: usize = 0;
    while i < blocks.len()
        invariant
            0 <= i <= blocks@.len(),
            m@ == m0.remove_keys(blocks@.subrange(0, i as int).to_set()),
        decreases blocks@.len() - i,
    {
        let ghost before = m@;
        m.remove(&blocks[i]);
        proof {
            assert(blocks@.subrange(0, i + 1) =~= blocks@.subrange(0, i as int).push(blocks@[i as int]));
            assert(m@ =~= m0.remove_keys(blocks@.subrange(0, i + 1).to_set()));
        }
        i = i + 1;
    }
    assert(blocks@.subrange(0, blocks@.len() as int) =~= blocks@);
}

/// The clusters left after removing the blocks in `removed`: each cluster keeps its other
/// blocks, and clusters left with none are dropped.
pub open spec fn cleared_clusters(clusters: Map<i64, Set<u64>>, removed: Set<u64>) -> Map<i64, Set<u64>> {
    Map::new(
        |k: i64| clusters.contains_key(k) && clusters[k].difference(removed) != Set::<u64>::empty(),
        |k: i64| clusters[k].difference(removed),
    )
}

/// Tracks the blocks modified since the last checkpoint, grouped by cluster affinity.
#[derive(Debug)]
pub struct DirtyBlockTracker {
    cluster_dirty_blocks: Vec<(i64, Vec<u64>)>,
    global_dirty_blocks: Vec<u64>,
    block_timestamps: HashMap<u64, u64>,
    block_access_counts: HashMap<u64, u64>,
    block_metadata: HashMap<u64, BlockMetadata>,
    max_blocks_per_cluster: usize,
    max_global_blocks: usize,
}

impl Default for DirtyBlockTracker {
    /// An empty tracker whose limits are both zero.
    fn default() -> (t: Self)
        ensures
            t.wf(),
            t.dirty_blocks() == Seq::<u64>::empty(),
            t.clusters() == Map::<i64, Set<u64>>::empty(),
            t.global() == Set::<u64>::empty(),
            t.cluster_block_count() == 0,
            t.global_size() == 0,
            t.cluster_limit() == 0,
            t.global_limit() == 0,
    {
        DirtyBlockTracker::new(0, 0)
    }
}

impl DirtyBlockTracker {
    /// The tracker's internal consistency: cluster keys, blocks within a cluster, global
    /// blocks and tracked block offsets are each free of repeats; no cluster and no global
    /// set is over its limit; and all tracked blocks can be listed in one vector.
    pub closed spec fn wf(self) -> bool {
        &&& keys_distinct(self.cluster_dirty_blocks@)
        &&& forall|i: int| 0 <= i < self.cluster_dirty_blocks@.len() ==> {
            &&& (#[trigger] self.cluster_dirty_blocks@[i]).1@.no_duplicates()
            &&& self.cluster_dirty_blocks@[i].1@.len() <= self.max_blocks_per_cluster
        }
        &&& self.global_dirty_blocks@.no_duplicates()
        &&& self.global_dirty_blocks@.len() <= self.max_global_blocks
        &&& flat(self.cluster_dirty_blocks@).len() + self.global_dirty_blocks@.len() <= usize::MAX
    }

    /// The dirty blocks of each cluster (a cluster may be present with no blocks).
    pub closed spec fn clusters(self) -> Map<i64, Set<u64>> {
        Map::new(
            |k: i64| has_key(self.cluster_dirty_blocks@, k),
            |k: i64| value_of(self.cluster_dirty_blocks@, k)@.to_set(),
        )
    }

    /// The number of dirty blocks of cluster `k` (0 for an unknown cluster).
    pub closed spec fn cluster_size(self, k: i64) -> nat {
        if has_key(self.cluster_dirty_blocks@, k) {
            value_of(self.cluster_dirty_blocks@, k)@.len()
        } else {
            0
        }
    }

    /// The dirty blocks outside any cluster.
    pub closed spec fn global(self) -> Set<u64> {
        self.global_dirty_blocks@.to_set()
    }

    /// The number of dirty blocks outside any cluster.
    pub closed spec fn global_size(self) -> nat {
        self.global_dirty_blocks@.len()
    }

    /// The number of (cluster, block) memberships.
    pub closed spec fn cluster_block_count(self) -> nat {
        flat(self.cluster_dirty_blocks@).len()
    }

    /// Every tracked dirty block, once per cluster that holds it plus once if it is global.
    pub closed spec fn dirty_blocks(self) -> Seq<u64> {
        flat(self.cluster_dirty_blocks@) + self.global_dirty_blocks@
    }

    /// The last-modified timestamp of each tracked block.
    pub closed spec fn timestamps(self) -> Map<u64, u64> {
        self.block_timestamps@
    }

    /// The access count of each tracked block.
    pub closed spec fn access_counts(self) -> Map<u64, u64> {
        self.block_access_counts@
    }

    /// The metadata of each tracked block.
    pub closed spec fn metadata(self) -> Map<u64, BlockMetadata> {
        self.block_metadata@
    }

    /// Limit on the dirty blocks of one cluster.
    pub closed spec fn cluster_limit(self) -> nat {
        self.max_blocks_per_cluster as nat
    }

    /// Limit on the global dirty blocks.
    pub closed spec fn global_limit(self) -> nat {
        self.max_global_blocks as nat
    }

    /// The cluster view agrees with the sizes, the listing and the limits.
    pub proof fn lemma_views(self)
        requires
            self.wf(),
        ensures
            forall|k: i64| #[trigger] self.clusters().contains_key(k)
                ==> self.clusters()[k].len() == self.cluster_size(k) && self.cluster_size(k) <= self.cluster_limit(),
            forall|k: i64| !(#[trigger] self.clusters().contains_key(k)) ==> self.cluster_size(k) == 0,
            self.global().len() == self.global_size(),
            self.global_size() <= self.global_limit(),
            forall|b: u64| #[trigger] self.dirty_blocks().contains(b) <==> (self.global().contains(b)
                || exists|k: i64| #[trigger] self.clusters().contains_key(k) && self.clusters()[k].contains(b)),
            self.dirty_blocks().len() == self.cluster_block_count() + self.global_size(),
            self.cluster_block_count() + self.global_size() <= usize::MAX,
    {
        let cl = self.cluster_dirty_blocks@;
        assert forall|k: i64| #[trigger] self.clusters().contains_key(k)
            implies self.clusters()[k].len() == self.cluster_size(k) && self.cluster_size(k) <= self.cluster_limit() by {
            let i = choose|i: int| 0 <= i < cl.len() && cl[i].0 == k;
            lemma_value_at(cl, i);
            cl[i].1@.unique_seq_to_set();
        }
        self.global_dirty_blocks@.unique_seq_to_set();
        assert forall|b: u64| #[trigger] self.dirty_blocks().contains(b) <==> (self.global().contains(b)
            || exists|k: i64| #[trigger] self.clusters().contains_key(k) && self.clusters()[k].contains(b)) by {
            lemma_flat_contains(cl, b);
            let d = self.dirty_blocks();
            let f = flat(cl);
            let g = self.global_dirty_blocks@;
            if d.contains(b) {
                let n = choose|n: int| 0 <= n < d.len() && d[n] == b;
                if n < f.len() {
                    assert(f[n] == b);
                    assert(f.contains(b));
                    let i = choose|i: int| 0 <= i < cl.len() && (#[trigger] cl[i]).1@.contains(b);
                    lemma_value_at(cl, i);
                    assert(self.clusters().contains_key(cl[i].0));
                } else {
                    assert(g[n - f.len()] == b);
                    assert(g.contains(b));
                }
            }
            if self.global().contains(b) {
                let n = choose|n: int| 0 <= n < g.len() && g[n] == b;
                assert(d[f.len() + n] == b);
            }
            if exists|k: i64| #[trigger] self.clusters().contains_key(k) && self.clusters()[k].contains(b) {
                let k = choose|k: i64| #[trigger] self.clusters().contains_key(k) && self.clusters()[k].contains(b);
                let i = choose|i: int| 0 <= i < cl.len() && cl[i].0 == k;
                lemma_value_at(cl, i);
                assert(cl[i].1@.contains(b));
                assert(f.contains(b));
                let n = choose|n: int| 0 <= n < f.len() && f[n] == b;
                assert(d[n] == b);
            }
        }
    }

    /// A tracker with no dirty blocks and the given limits.
    pub fn new(max_blocks_per_cluster: usize, max_global_blocks: usize) -> (t: Self)
        ensures
            t.wf(),
            t.clusters() == Map::<i64, Set<u64>>::empty(),
            t.global() == Set::<u64>::empty(),
            t.dirty_blocks() == Seq::<u64>::empty(),
            t.cluster_block_count() == 0,
            t.global_size() == 0,
            t.timestamps() == Map::<u64, u64>::empty(),
            t.access_counts() == Map::<u64, u64>::empty(),
            t.metadata() == Map::<u64, BlockMetadata>::empty(),
            t.cluster_limit() == max_blocks_per_cluster,
            t.global_limit() == max_global_blocks,
    {
        let t = DirtyBlockTracker {
            cluster_dirty_blocks: Vec::new(),
            global_dirty_blocks: Vec::new(),
            block_timestamps: HashMap::new(),
            block_access_counts: HashMap::new(),
            block_metadata: HashMap::new(),
            max_blocks_per_cluster,
            max_global_blocks,
        };
        assert(t.clusters() =~= Map::<i64, Set<u64>>::empty());
        assert(t.global() =~= Set::<u64>::empty());
        assert(t.dirty_blocks() =~= Seq::<u64>::empty());
        assert(t.timestamps() =~= Map::<u64, u64>::empty());
        assert(t.access_counts() =~= Map::<u64, u64>::empty());
        assert(t.metadata() =~= Map::<u64, BlockMetadata>::empty());
        t
    }

    fn find_cluster(&self, key: i64) -> (r: Option<usize>)
        ensures
            r matches Some(i) ==> i < self.cluster_dirty_blocks@.len()
                && self.cluster_dirty_blocks@[i as int].0 == key,
            r is None ==> !has_key(self.cluster_dirty_blocks@, key),
    {
        let mut i: usize = 0;
        while i < self.cluster_dirty_blocks.len()
            invariant
                0 <= i <= self.cluster_dirty_blocks@.len(),
                forall|j: int| 0 <= j < i ==> self.cluster_dirty_blocks@[j].0 != key,
            decreases self.cluster_dirty_blocks@.len() - i,
        {
            if self.cluster_dirty_blocks[i].0 == key {
                return Some(i);
            }
            i = i + 1;
        }
        None
    }

    /// Marks `block_offset` dirty in cluster `cluster_key`. The cluster is registered even
    /// when the call fails; the call fails, with a resource error, when the cluster already
    /// holds its limit of blocks.
    pub fn mark_cluster_block_dirty(&mut self, cluster_key: i64, block_offset: u64, timestamp: u64) -> (r: CheckpointResult<()>)
        requires
            old(self).wf(),
            old(self).dirty_blocks().len() < usize::MAX,
        ensures
            final(self).wf(),
            final(self).cluster_limit() == old(self).cluster_limit(),
            final(self).global_limit() == old(self).global_limit(),
            final(self).global() == old(self).global(),
            final(self).global_size() == old(self).global_size(),
            final(self).timestamps() == old(self).timestamps(),
            final(self).access_counts() == old(self).access_counts(),
            final(self).metadata() == old(self).metadata(),
            ({
                let before = if old(self).clusters().contains_key(cluster_key) {
                    old(self).clusters()[cluster_key]
                } else {
                    Set::<u64>::empty()
                };
                &&& r is Err <==> old(self).cluster_size(cluster_key) >= old(self).cluster_limit()
                &&& r matches Err(e) ==> made_by(
                    e,
                    CheckpointErrorKind::Resource,
                    "Maximum dirty blocks per cluster exceeded for cluster "@ + signed_decimal(cluster_key as int),
                )
                &&& r is Err ==> final(self).clusters() == old(self).clusters().insert(cluster_key, before)
                    && final(self).dirty_blocks() == old(self).dirty_blocks()
                    && final(self).cluster_block_count() == old(self).cluster_block_count()
                &&& r is Ok ==> final(self).clusters() == old(self).clusters().insert(cluster_key, before.insert(block_offset))
                &&& r is Ok && before.contains(block_offset) ==> final(self).dirty_blocks().to_multiset()
                    == old(self).dirty_blocks().to_multiset()
                    && final(self).cluster_block_count() == old(self).cluster_block_count()
                &&& r is Ok && !before.contains(block_offset) ==> final(self).dirty_blocks().to_multiset()
                    == old(self).dirty_blocks().to_multiset().insert(block_offset)
                    && final(self).cluster_block_count() == old(self).cluster_block_count() + 1
            }),
    {
        let ghost cl0 = self.cluster_dirty_blocks@;
        let ghost old_self = *self;
        proof { old_self.lemma_views(); }
        let i = match self.find_cluster(cluster_key) {
            Some(i) => i,
            None => {
                self.cluster_dirty_blocks.push((cluster_key, Vec::new()));
                proof {
                    let cl1 = self.cluster_dirty_blocks@;
                    assert(keys_distinct(cl1));
                    lemma_flat_push(cl0, cl1.last());
                    assert(cl1 == cl0.push(cl1.last()));
                    assert(flat(cl1) =~= flat(cl0));
                    assert forall|k: i64| #![auto] has_key(cl1, k) == (has_key(cl0, k) || k == cluster_key) by {
                        if has_key(cl0, k) {
                            let j = choose|j: int| 0 <= j < cl0.len() && cl0[j].0 == k;
                            assert(cl1[j].0 == k);
                        }
                        if k == cluster_key {
                            assert(cl1[cl0.len() as int].0 == k);
                        }
                    }
                    assert forall|k: i64| has_key(cl1, k) implies value_of(cl1, k)@.to_set() == if k == cluster_key {
                        Set::<u64>::empty()
                    } else {
                        value_of(cl0, k)@.to_set()
                    } by {
                        let j = choose|j: int| 0 <= j < cl1.len() && cl1[j].0 == k;
                        lemma_value_at(cl1, j);
                        if k != cluster_key {
                            lemma_value_at(cl0, j);
                        } else {
                            assert(value_of(cl1, k)@ =~= Seq::<u64>::empty());
                        }
                    }
                    assert(self.clusters() =~= old_self.clusters().insert(cluster_key, Set::<u64>::empty()));
                }
                self.cluster_dirty_blocks.len() - 1
            },
        };
        let ghost cl1 = self.cluster_dirty_blocks@;
        let ghost mid = *self;
        proof {
            lemma_value_at(cl1, i as int);
            if has_key(cl0, cluster_key) {
                let j = choose|j: int| 0 <= j < cl0.len() && cl0[j].0 == cluster_key;
                lemma_value_at(cl0, j);
                assert(cl1 == cl0);
            }
            assert(self.clusters() =~= old_self.clusters().insert(
                cluster_key,
                if old_self.clusters().contains_key(cluster_key) {
                    old_self.clusters()[cluster_key]
                } else {
                    Set::<u64>::empty()
                },
            ));
            assert(old_self.cluster_size(cluster_key) == cl1[i as int].1@.len());
            assert(self.dirty_blocks() =~= old_self.dirty_blocks());
        }
        if self.cluster_dirty_blocks[i].1.len() >= self.max_blocks_per_cluster {
            let mut message = String::from_str("Maximum dirty blocks per cluster exceeded for cluster ");
            push_signed_decimal(&mut message, cluster_key);
            return Err(CheckpointError::resource(message.as_str()));
        }
        let (k, mut blocks) = self.cluster_dirty_blocks.remove(i);
        let ghost old_blocks = blocks@;
        let present = contains_u64(blocks.as_slice(), block_offset);
        if !present {
            blocks.push(block_offset);
        }
        let ghost new_blocks = blocks@;
        self.cluster_dirty_blocks.insert(i, (k, blocks));
        proof {
            let cl2 = self.cluster_dirty_blocks@;
            assert(cl2 =~= cl1.update(i as int, (k, cl2[i as int].1)));
            lemma_flat_update(cl1, i as int, (k, cl2[i as int].1));
            assert(keys_distinct(cl2)) by {
                assert forall|a: int, b: int| 0 <= a < cl2.len() && 0 <= b < cl2.len() && a != b implies cl2[a].0 != cl2[b].0 by {
                    assert(cl2[a].0 == cl1[a].0 && cl2[b].0 == cl1[b].0);
                }
            }
            assert forall|j: int| 0 <= j < cl2.len() implies {
                &&& (#[trigger] cl2[j]).1@.no_duplicates()
                &&& cl2[j].1@.len() <= self.max_blocks_per_cluster
            } by {
                if j != i {
                    assert(cl2[j] == cl1[j]);
                }
            }
            assert forall|key: i64| #![auto] has_key(cl2, key) == has_key(cl1, key) by {
                if has_key(cl1, key) {
                    let j = choose|j: int| 0 <= j < cl1.len() && cl1[j].0 == key;
                    assert(cl2[j].0 == key);
                }
                if has_key(cl2, key) {
                    let j = choose|j: int| 0 <= j < cl2.len() && cl2[j].0 == key;
                    assert(cl1[j].0 == key);
                }
            }
            assert forall|key: i64| has_key(cl2, key) implies value_of(cl2, key)@.to_set() == if key == cluster_key {
                old_blocks.to_set().insert(block_offset)
            } else {
                value_of(cl1, key)@.to_set()
            } by {
                let j = choose|j: int| 0 <= j < cl2.len() && cl2[j].0 == key;
                lemma_value_at(cl2, j);
                lemma_value_at(cl1, j);
                if key == cluster_key {
                    assert(j == i);
                    if present {
                        assert(new_blocks.to_set() =~= old_blocks.to_set().insert(block_offset));
                    } else {
                        assert(new_blocks =~= old_blocks.push(block_offset));
                        assert(new_blocks.to_set() =~= old_blocks.to_set().insert(block_offset));
                    }
                } else {
                    assert(j != i);
                }
            }
            assert(self.clusters() =~= mid.clusters().insert(cluster_key, old_blocks.to_set().insert(block_offset)));
            let pre = flat(cl1.subrange(0, i as int));
            let post = flat(cl1.subrange(i as int + 1, cl1.len() as int));
            let g = self.global_dirty_blocks@;
            if present {
                assert(new_blocks == old_blocks);
                assert(self.dirty_blocks() =~= mid.dirty_blocks());
            } else {
                assert(new_blocks =~= old_blocks.push(block_offset));
                assert(mid.dirty_blocks() =~= pre + old_blocks + post + g);
                assert(self.dirty_blocks() =~= pre + old_blocks.push(block_offset) + post + g);
                vstd::seq_lib::lemma_multiset_commutative(pre + old_blocks, post + g);
                vstd::seq_lib::lemma_multiset_commutative(pre + old_blocks.push(block_offset), post + g);
                assert((pre + old_blocks).push(block_offset) =~= pre + old_blocks.push(block_offset));
                assert(mid.dirty_blocks() =~= (pre + old_blocks) + (post + g));
                assert(self.dirty_blocks() =~= (pre + old_blocks).push(block_offset) + (post + g));
                assert(self.dirty_blocks().to_multiset() =~= mid.dirty_blocks().to_multiset().insert(block_offset));
            }
        }
        Ok(())
    }

    /// Marks `block_offset` dirty outside any cluster; fails, with a resource error and no
    /// change, when the global set already holds its limit of blocks.
    pub fn mark_global_block_dirty(&mut self, block_offset: u64, timestamp: u64) -> (r: CheckpointResult<()>)
        requires
            old(self).wf(),
            old(self).dirty_blocks().len() < usize::MAX,
        ensures
            final(self).wf(),
            final(self).cluster_limit() == old(self).cluster_limit(),
            final(self).global_limit() == old(self).global_limit(),
            final(self).clusters() == old(self).clusters(),
            final(self).cluster_block_count() == old(self).cluster_block_count(),
            final(self).timestamps() == old(self).timestamps(),
            final(self).access_counts() == old(self).access_counts(),
            final(self).metadata() == old(self).metadata(),
            r is Err <==> old(self).global_size() >= old(self).global_limit(),
            r matches Err(e) ==> made_by(e, CheckpointErrorKind::Resource, "Maximum global dirty blocks exceeded"@)
                && *final(self) == *old(self),
            r is Ok ==> final(self).global() == old(self).global().insert(block_offset),
            r is Ok && old(self).global().contains(block_offset) ==> final(self).dirty_blocks() == old(self).dirty_blocks(),
            r is Ok && !old(self).global().contains(block_offset) ==> final(self).dirty_blocks().to_multiset()
                == old(self).dirty_blocks().to_multiset().insert(block_offset),
    {
        if self.global_dirty_blocks.len() >= self.max_global_blocks {
            return Err(CheckpointError::resource("Maximum global dirty blocks exceeded"));
        }
        let ghost g0 = self.global_dirty_blocks@;
        let ghost old_self = *self;
        if !contains_u64(self.global_dirty_blocks.as_slice(), block_offset) {
            self.global_dirty_blocks.push(block_offset);
            proof {
                assert(self.global_dirty_blocks@.to_set() =~= g0.to_set().insert(block_offset));
                assert(self.dirty_blocks() =~= old_self.dirty_blocks().push(block_offset));
            }
        } else {
            assert(g0.to_set() =~= g0.to_set().insert(block_offset));
        }
        Ok(())
    }

    /// Records an access to `block_offset` at `timestamp`: the block's timestamp becomes
    /// `timestamp` and its access count grows by one (starting from zero).
    pub fn update_block_access(&mut self, block_offset: u64, timestamp: u64)
        requires
            old(self).wf(),
            old(self).access_counts().contains_key(block_offset)
                ==> old(self).access_counts()[block_offset] < u64::MAX,
        ensures
            final(self).wf(),
            final(self).timestamps() == old(self).timestamps().insert(block_offset, timestamp),
            final(self).access_counts() == old(self).access_counts().insert(
                block_offset,
                if old(self).access_counts().contains_key(block_offset) {
                    (old(self).access_counts()[block_offset] + 1) as u64
                } else {
                    1u64
                },
            ),
            final(self).clusters() == old(self).clusters(),
            final(self).global() == old(self).global(),
            final(self).dirty_blocks() == old(self).dirty_blocks(),
            final(self).cluster_block_count() == old(self).cluster_block_count(),
            final(self).global_size() == old(self).global_size(),
            final(self).metadata() == old(self).metadata(),
            final(self).cluster_limit() == old(self).cluster_limit(),
            final(self).global_limit() == old(self).global_limit(),
    {
        self.block_timestamps.insert(block_offset, timestamp);
        let count: u64 = match self.block_access_counts.get(&block_offset) {
            Some(c) => *c + 1,
            None => 1,
        };
        self.block_access_counts.insert(block_offset, count);
    }

    /// Every dirty block, in ascending order; a block appears once for each cluster that
    /// holds it, plus once more if it is also a global dirty block.
    pub fn get_dirty_blocks_for_checkpoint(&self) -> (blocks: Vec<u64>)
        requires
            self.wf(),
        ensures
            sorted(blocks@),
            blocks@.to_multiset() == self.dirty_blocks().to_multiset(),
    {
        let mut all: Vec<u64> = Vec::new();
        let mut i: usize = 0;
        while i < self.cluster_dirty_blocks.len()
            invariant
                0 <= i <= self.cluster_dirty_blocks@.len(),
                all@ == flat(self.cluster_dirty_blocks@.subrange(0, i as int)),
                self.wf(),
            decreases self.cluster_dirty_blocks@.len() - i,
        {
            let inner = &self.cluster_dirty_blocks[i].1;
            proof {
                let cl = self.cluster_dirty_blocks@;
                lemma_flat_concat(cl.subrange(0, i as int + 1), cl.subrange(i as int + 1, cl.len() as int));
                assert(cl =~= cl.subrange(0, i as int + 1) + cl.subrange(i as int + 1, cl.len() as int));
                assert(cl.subrange(0, i as int + 1).drop_last() =~= cl.subrange(0, i as int));
            }
            let ghost start = all@;
            let mut j: usize = 0;
            while j < inner.len()
                invariant
                    0 <= j <= inner@.len(),
                    all@ == start + inner@.subrange(0, j as int),
                    start.len() + inner@.len() <= usize::MAX,
                decreases inner@.len() - j,
            {
                all.push(inner[j]);
                proof {
                    assert(inner@.subrange(0, j as int + 1) =~= inner@.subrange(0, j as int).push(inner@[j as int]));
                }
                j = j + 1;
            }
            proof {
                assert(inner@.subrange(0, inner@.len() as int) =~= inner@);
            }
            i = i + 1;
        }
        proof {
            assert(self.cluster_dirty_blocks@.subrange(0, self.cluster_dirty_blocks@.len() as int) =~= self.cluster_dirty_blocks@);
        }
        let ghost start = all@;
        let mut j: usize = 0;
        while j < self.global_dirty_blocks.len()
            invariant
                0 <= j <= self.global_dirty_blocks@.len(),
                all@ == start + self.global_dirty_blocks@.subrange(0, j as int),
                start == flat(self.cluster_dirty_blocks@),
                self.wf(),
            decreases self.global_dirty_blocks@.len() - j,
        {
            all.push(self.global_dirty_blocks[j]);
            proof {
                assert(self.global_dirty_blocks@.subrange(0, j as int + 1)
                    =~= self.global_dirty_blocks@.subrange(0, j as int).push(self.global_dirty_blocks@[j as int]));
            }
            j = j + 1;
        }
        proof {
            assert(self.global_dirty_blocks@.subrange(0, self.global_dirty_blocks@.len() as int) =~= self.global_dirty_blocks@);
            assert(all@ =~= self.dirty_blocks());
        }
        sort_ascending(&all)
    }

    /// Forgets the given blocks: they leave the global set, every cluster and the timestamp,
    /// access-count and metadata records; clusters left with no blocks are dropped.
    pub fn clear_checkpointed_blocks(&mut self, checkpointed_blocks: &[u64])
        requires
            old(self).wf(),
        ensures
            final(self).wf(),
            final(self).cluster_limit() == old(self).cluster_limit(),
            final(self).global_limit() == old(self).global_limit(),
            final(self).global() == old(self).global().difference(checkpointed_blocks@.to_set()),
            final(self).clusters() == cleared_clusters(old(self).clusters(), checkpointed_blocks@.to_set()),
            final(self).dirty_blocks() == old(self).dirty_blocks().filter(not_in(checkpointed_blocks@)),
            final(self).timestamps() == old(self).timestamps().remove_keys(checkpointed_blocks@.to_set()),
            final(self).access_counts() == old(self).access_counts().remove_keys(checkpointed_blocks@.to_set()),
            final(self).metadata() == old(self).metadata().remove_keys(checkpointed_blocks@.to_set()),
    {
        let ghost old_self = *self;
        let ghost pred = not_in(checkpointed_blocks@);
        let ghost bset = checkpointed_blocks@.to_set();
        let ghost cl = self.cluster_dirty_blocks@;
        proof { old_self.lemma_views(); }
        let new_global = without_values(&self.global_dirty_blocks, checkpointed_blocks);
        let mut new_clusters: Vec<(i64, Vec<u64>)> = Vec::new();
        let ghost mut idx: Seq<int> = Seq::empty();
        let mut i: usize = 0;
        while i < self.cluster_dirty_blocks.len()
            invariant
                0 <= i <= cl.len(),
                cl == self.cluster_dirty_blocks@,
                *self == old_self,
                old_self.wf(),
                pred == not_in(checkpointed_blocks@),
                idx.len() == new_clusters@.len(),
                forall|a: int, b: int| 0 <= a < b < idx.len() ==> idx[a] < idx[b],
                forall|j: int| #![trigger idx[j]] 0 <= j < idx.len() ==> {
                    &&& 0 <= idx[j] < i
                    &&& new_clusters@[j].0 == cl[idx[j]].0
                    &&& new_clusters@[j].1@ == cl[idx[j]].1@.filter(pred)
                    &&& new_clusters@[j].1@.len() > 0
                },
                forall|m: int| 0 <= m < i && (#[trigger] cl[m]).1@.filter(pred).len() > 0
                    ==> exists|j: int| 0 <= j < idx.len() && idx[j] == m,
                flat(new_clusters@) == flat(cl.subrange(0, i as int)).filter(pred),
            decreases cl.len() - i,
        {
            let kept = without_values(&self.cluster_dirty_blocks[i].1, checkpointed_blocks);
            let ghost n0 = new_clusters@;
            proof {
                assert(cl.subrange(0, i as int + 1) =~= cl.subrange(0, i as int).push(cl[i as int]));
                lemma_flat_push(cl.subrange(0, i as int), cl[i as int]);
                Seq::filter_distributes_over_add(flat(cl.subrange(0, i as int)), cl[i as int].1@, pred);
            }
            if kept.len() > 0 {
                new_clusters.push((self.cluster_dirty_blocks[i].0, kept));
                proof {
                    lemma_flat_push(n0, new_clusters@.last());
                    assert(new_clusters@ == n0.push(new_clusters@.last()));
                    let idx0 = idx;
                    idx = idx.push(i as int);
                    assert forall|j: int| #![trigger idx[j]] 0 <= j < idx.len() implies {
                        &&& 0 <= idx[j] < i + 1
                        &&& new_clusters@[j].0 == cl[idx[j]].0
                        &&& new_clusters@[j].1@ == cl[idx[j]].1@.filter(pred)
                        &&& new_clusters@[j].1@.len() > 0
                    } by {
                        if j < n0.len() {
                            assert(new_clusters@[j] == n0[j]);
                            assert(idx[j] == idx0[j]);
                        } else {
                            assert(j == n0.len());
                            assert(idx[j] == i);
                            assert(new_clusters@[j].0 == cl[i as int].0);
                            assert(new_clusters@[j].1@ == cl[i as int].1@.filter(pred));
                        }
                    }
                    assert forall|m: int| 0 <= m < i + 1 && (#[trigger] cl[m]).1@.filter(pred).len() > 0
                        implies exists|j: int| 0 <= j < idx.len() && idx[j] == m by {
                        if m < i {
                            let j = choose|j: int| 0 <= j < idx0.len() && idx0[j] == m;
                            assert(idx[j] == m);
                        } else {
                            assert(idx[idx.len() - 1] == m);
                        }
                    }
                }
            } else {
                proof {
                    assert(cl[i as int].1@.filter(pred) =~= Seq::<u64>::empty());
                    assert(flat(cl.subrange(0, i as int)).filter(pred) + Seq::<u64>::empty()
                        =~= flat(cl.subrange(0, i as int)).filter(pred));
                }
            }
            i = i + 1;
        }
        proof {
            assert(cl.subrange(0, cl.len() as int) =~= cl);
            let nc = new_clusters@;
            let g = self.global_dirty_blocks@;
            Seq::filter_distributes_over_add(flat(cl), g, pred);
            lemma_filter_facts(flat(cl) + g, pred);
            lemma_filter_facts(g, pred);
            assert(keys_distinct(nc)) by {
                assert forall|a: int, b: int| 0 <= a < nc.len() && 0 <= b < nc.len() && a != b implies nc[a].0 != nc[b].0 by {
                    assert(idx[a] != idx[b]);
                }
            }
            assert forall|j: int| 0 <= j < nc.len() implies {
                &&& (#[trigger] nc[j]).1@.no_duplicates()
                &&& nc[j].1@.len() <= self.max_blocks_per_cluster
            } by {
                lemma_filter_facts(cl[idx[j]].1@, pred);
            }
            assert forall|k: i64| #![auto] has_key(nc, k) <==> cleared_clusters(old_self.clusters(), bset).contains_key(k) by {
                if has_key(nc, k) {
                    let j = choose|j: int| 0 <= j < nc.len() && nc[j].0 == k;
                    let m = idx[j];
                    lemma_value_at(cl, m);
                    lemma_filter_facts(cl[m].1@, pred);
                    assert(nc[j].1@.contains(nc[j].1@[0]));
                    let x = nc[j].1@[0];
                    assert(old_self.clusters()[k].difference(bset).contains(x));
                }
                if cleared_clusters(old_self.clusters(), bset).contains_key(k) {
                    let m = choose|m: int| 0 <= m < cl.len() && cl[m].0 == k;
                    lemma_value_at(cl, m);
                    lemma_filter_facts(cl[m].1@, pred);
                    let x = choose|x: u64| old_self.clusters()[k].difference(bset).contains(x) && true;
                    assert(!(old_self.clusters()[k].difference(bset) =~= Set::<u64>::empty()));
                    assert(cl[m].1@.filter(pred).contains(x));
                    assert(cl[m].1@.filter(pred).len() > 0);
                    let j = choose|j: int| 0 <= j < idx.len() && idx[j] == m;
                    assert(nc[j].0 == k);
                }
            }
            assert forall|k: i64| has_key(nc, k) implies value_of(nc, k)@.to_set()
                == old_self.clusters()[k].difference(bset) by {
                let j = choose|j: int| 0 <= j < nc.len() && nc[j].0 == k;
                lemma_value_at(nc, j);
                let m = idx[j];
                lemma_value_at(cl, m);
                lemma_filter_facts(cl[m].1@, pred);
                assert(nc[j].1@.to_set() =~= cl[m].1@.to_set().difference(bset));
            }
        }
        self.cluster_dirty_blocks = new_clusters;
        self.global_dirty_blocks = new_global;
        remove_blocks(&mut self.block_timestamps, checkpointed_blocks);
        remove_blocks(&mut self.block_access_counts, checkpointed_blocks);
        remove_blocks(&mut self.block_metadata, checkpointed_blocks);
        proof {
            lemma_filter_facts(old_self.global_dirty_blocks@, pred);
            assert(self.global() =~= old_self.global().difference(bset));
            assert(self.clusters() =~= cleared_clusters(old_self.clusters(), bset));
            assert(self.dirty_blocks() =~= old_self.dirty_blocks().filter(pred));
        }
    }

    /// The number of (cluster, block) memberships and the number of global dirty blocks.
    pub fn get_statistics(&self) -> (r: (usize, usize))
        requires
            self.wf(),
        ensures
            r.0 == self.cluster_block_count(),
            r.1 == self.global_size(),
    {
        let mut total: usize = 0;
        let mut i: usize = 0;
        while i < self.cluster_dirty_blocks.len()
            invariant
                0 <= i <= self.cluster_dirty_blocks@.len(),
                total == flat(self.cluster_dirty_blocks@.subrange(0, i as int)).len(),
                self.wf(),
            decreases self.cluster_dirty_blocks@.len() - i,
        {
            proof {
                let cl = self.cluster_dirty_blocks@;
                lemma_flat_concat(cl.subrange(0, i as int + 1), cl.subrange(i as int + 1, cl.len() as int));
                assert(cl =~= cl.subrange(0, i as int + 1) + cl.subrange(i as int + 1, cl.len() as int));
                assert(cl.subrange(0, i as int + 1).drop_last() =~= cl.subrange(0, i as int));
            }
            total = total + self.cluster_dirty_blocks[i].1.len();
            i = i + 1;
        }
        proof {
            assert(self.cluster_dirty_blocks@.subrange(0, self.cluster_dirty_blocks@.len() as int) =~= self.cluster_dirty_blocks@);
        }
        (total, self.global_dirty_blocks.len())
    }

    /// The global dirty blocks, in the order they were first marked.
    pub fn global_dirty_blocks(&self) -> (r: &Vec<u64>)
        requires
            self.wf(),
        ensures
            r@.to_set() == self.global(),
            r@.no_duplicates(),
    {
        &self.global_dirty_blocks
    }

    /// The last-modified timestamp of each tracked block.
    pub fn block_timestamps(&self) -> (r: &HashMap<u64, u64>)
        ensures
            r@ == self.timestamps(),
    {
        &self.block_timestamps
    }

    /// The access count of each tracked block.
    pub fn block_access_counts(&self) -> (r: &HashMap<u64, u64>)
        ensures
            r@ == self.access_counts(),
    {
        &self.block_access_counts
    }

    /// The cluster dirty blocks, as (cluster, blocks) pairs with distinct clusters.
    pub fn cluster_dirty_blocks(&self) -> (r: &Vec<(i64, Vec<u64>)>)
        requires
            self.wf(),
        ensures
            keys_distinct(r@),
            forall|k: i64| #![auto] has_key(r@, k) <==> self.clusters().contains_key(k),
            forall|k: i64| #![auto] has_key(r@, k) ==> value_of(r@, k)@.to_set() == self.clusters()[k],
    {
        &self.cluster_dirty_blocks
    }
}


/// Clearing exactly the blocks handed out for a checkpoint leaves nothing dirty: no block in
/// the listing, none outside clusters and no cluster.
pub proof fn lemma_clearing_checkpointed_blocks_empties(t: DirtyBlockTracker, handed: Seq<u64>)
    requires
        t.wf(),
        handed.to_multiset() == t.dirty_blocks().to_multiset(),
    ensures
        t.dirty_blocks().filter(not_in(handed)) == Seq::<u64>::empty(),
        t.global().difference(handed.to_set()) == Set::<u64>::empty(),
        cleared_clusters(t.clusters(), handed.to_set()) == Map::<i64, Set<u64>>::empty(),
{
    t.lemma_views();
    let d = t.dirty_blocks();
    assert forall|x: u64| d.contains(x) implies handed.contains(x) by {
        assert(d.to_multiset().count(x) > 0);
        assert(handed.to_multiset().count(x) > 0);
    }
    lemma_filter_facts(d, not_in(handed));
    let f = d.filter(not_in(handed));
    if f.len() > 0 {
        assert(f.contains(f[0]));
    }
    assert(f =~= Seq::<u64>::empty());
    assert forall|x: u64| !t.global().difference(handed.to_set()).contains(x) by {
        if t.global().contains(x) {
            assert(d.contains(x));
            assert(handed.contains(x));
        }
    }
    assert(t.global().difference(handed.to_set()) =~= Set::<u64>::empty());
    let c = cleared_clusters(t.clusters(), handed.to_set());
    assert forall|k: i64| !c.contains_key(k) by {
        if t.clusters().contains_key(k) {
            assert forall|x: u64| !t.clusters()[k].difference(handed.to_set()).contains(x) by {
                if t.clusters()[k].contains(x) {
                    assert(d.contains(x));
                    assert(handed.contains(x));
                }
            }
            assert(t.clusters()[k].difference(handed.to_set()) =~= Set::<u64>::empty());
        }
    }
    assert(c =~= Map::<i64, Set<u64>>::empty());
}

} // verus!
