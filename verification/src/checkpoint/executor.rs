//! The choice of blocks that a checkpoint writes back to the graph file, and the counting
//! steps of an incremental checkpoint run.
use vstd::prelude::*;
use crate::checkpoint::constants::{DEFAULT_BATCH_SIZE, MAX_DIRTY_BLOCKS_PER_CLUSTER, PROGRESS_REPORT_INTERVAL};
use crate::checkpoint::constants::v2::MAX_CLUSTER_OPERATIONS_PER_BATCH;
use crate::checkpoint::tracking::DirtyBlockTracker;
use crate::seqs::{contains_u64, has_key, keys_distinct, lemma_value_at, sort_ascending, sorted, value_of};

verus! {

broadcast use vstd::seq_lib::group_seq_properties, vstd::seq_lib::group_to_multiset_ensures,
    vstd::std_specs::hash::group_hash_axioms;

/// The blocks a checkpoint of `t` writes back: the global dirty blocks that have a
/// timestamp, and the dirty blocks of every cluster.
pub open spec fn checkpoint_candidates(t: DirtyBlockTracker) -> Set<u64> {
    Set::new(|b: u64| (t.global().contains(b) && t.timestamps().contains_key(b))
        || exists|k: i64| #[trigger] t.clusters().contains_key(k) && t.clusters()[k].contains(b))
}

/// Whether `out` is the `limit` smallest values of `s` (all of them when there are fewer),
/// in strictly ascending order.
pub open spec fn smallest_in_order(out: Seq<u64>, s: Set<u64>, limit: nat) -> bool {
    &&& forall|i: int, j: int| 0 <= i < j < out.len() ==> out[i] < out[j]
    &&& forall|i: int| 0 <= i < out.len() ==> s.contains(#[trigger] out[i])
    &&& out.len() <= limit
    &&& forall|x: u64| s.contains(x) && !out.contains(x) ==> out.len() == limit && x > out.last()
}

/// Blocks in ascending order with no repeats, over a sorted sequence without repeats.
proof fn lemma_sorted_distinct(s: Seq<u64>)
    requires
        sorted(s),
        s.no_duplicates(),
    ensures
        forall|i: int, j: int| 0 <= i < j < s.len() ==> s[i] < s[j],
{
    assert forall|i: int, j: int| 0 <= i < j < s.len() implies s[i] < s[j] by {
        assert(s[i] <= s[j]);
        assert(s[i] != s[j]);
    }
}

/// The blocks to write back for a checkpoint of `dirty_blocks`: the global dirty blocks with
/// a timestamp and every cluster's dirty blocks, without repeats, in ascending order, at most
/// the per-cluster dirty block limit of them (the smallest).
pub fn collect_dirty_blocks(dirty_blocks: &DirtyBlockTracker) -> (out: Vec<u64>)
    requires
        dirty_blocks.wf(),
    ensures
        smallest_in_order(out@, checkpoint_candidates(*dirty_blocks), MAX_DIRTY_BLOCKS_PER_CLUSTER as nat),
{
    let ghost t = *dirty_blocks;
    let ghost s = checkpoint_candidates(t);
    let global = dirty_blocks.global_dirty_blocks();
    let stamps = dirty_blocks.block_timestamps();
    let clusters = dirty_blocks.cluster_dirty_blocks();
    let mut blocks: Vec<u64> = Vec::new();
    let mut i: usize = 0;
    while i < global.len()
        invariant
            0 <= i <= global@.len(),
            global@.to_set() == t.global(),
            global@.no_duplicates(),
            stamps@ == t.timestamps(),
            blocks@.no_duplicates(),
            forall|b: u64| #[trigger] blocks@.contains(b) <==> (global@.subrange(0, i as int).contains(b)
                && t.timestamps().contains_key(b)),
        decreases global@.len() - i,
    {
        let b = global[i];
        let ghost prev = blocks@;
        let ghost pre = global@.subrange(0, i as int);
        let ghost pre1 = global@.subrange(0, i + 1);
        if stamps.contains_key(&b) {
            proof {
                if prev.contains(b) {
                    assert(pre.contains(b));
                    let k = choose|k: int| 0 <= k < pre.len() && pre[k] == b;
                    assert(global@[k] == global@[i as int]);
                    assert(false);
                }
            }
            blocks.push(b);
            proof {
                assert forall|c: u64| #[trigger] blocks@.contains(c) <==> (pre1.contains(c)
                    && t.timestamps().contains_key(c)) by {
                    if c == b {
                        assert(blocks@[prev.len() as int] == b);
                        assert(pre1[i as int] == b);
                    } else {
                        if blocks@.contains(c) {
                            let k = choose|k: int| 0 <= k < blocks@.len() && blocks@[k] == c;
                            assert(prev[k] == c);
                            let m = choose|m: int| 0 <= m < i && pre[m] == c;
                            assert(pre1[m] == c);
                        }
                        if pre1.contains(c) && t.timestamps().contains_key(c) {
                            let m = choose|m: int| 0 <= m < i + 1 && pre1[m] == c;
                            assert(m != i);
                            assert(pre[m] == c);
                            assert(prev.contains(c));
                            let k = choose|k: int| 0 <= k < prev.len() && prev[k] == c;
                            assert(blocks@[k] == c);
                        }
                    }
                }
            }
        } else {
            proof {
                assert forall|c: u64| #[trigger] blocks@.contains(c) <==> (pre1.contains(c)
                    && t.timestamps().contains_key(c)) by {
                    if pre1.contains(c) && c != b {
                        let m = choose|m: int| 0 <= m < i + 1 && pre1[m] == c;
                        assert(pre[m] == c);
                    }
                    if pre.contains(c) {
                        let m = choose|m: int| 0 <= m < i && pre[m] == c;
                        assert(pre1[m] == c);
                    }
                }
            }
        }
        i = i + 1;
    }
    assert(global@.subrange(0, global@.len() as int) =~= global@);
    let mut j: usize = 0;
    while j < clusters.len()
        invariant
            0 <= j <= clusters@.len(),
            global@.to_set() == t.global(),
            keys_distinct(clusters@),
            forall|k: i64| #![auto] has_key(clusters@, k) <==> t.clusters().contains_key(k),
            forall|k: i64| #![auto] has_key(clusters@, k) ==> value_of(clusters@, k)@.to_set() == t.clusters()[k],
            blocks@.no_duplicates(),
            forall|b: u64| #[trigger] blocks@.contains(b) <==> ((global@.contains(b) && t.timestamps().contains_key(b))
                || exists|q: int| 0 <= q < j && (#[trigger] clusters@[q]).1@.contains(b)),
        decreases clusters@.len() - j,
    {
        let members = &clusters[j].1;
        let mut m: usize = 0;
        while m < members.len()
            invariant
                0 <= j < clusters@.len(),
                members@ == clusters@[j as int].1@,
                0 <= m <= members@.len(),
                blocks@.no_duplicates(),
                forall|b: u64| #[trigger] blocks@.contains(b) <==> ((global@.contains(b) && t.timestamps().contains_key(b))
                    || (exists|q: int| 0 <= q < j && (#[trigger] clusters@[q]).1@.contains(b))
                    || members@.subrange(0, m as int).contains(b)),
            decreases members@.len() - m,
        {
            let b = members[m];
            let ghost prev = blocks@;
            let ghost mpre = members@.subrange(0, m as int);
            let ghost mpre1 = members@.subrange(0, m + 1);
            if !contains_u64(blocks.as_slice(), b) {
                blocks.push(b);
                proof {
                    assert forall|c: u64| #[trigger] blocks@.contains(c) <==> ((global@.contains(c) && t.timestamps().contains_key(c))
                        || (exists|q: int| 0 <= q < j && (#[trigger] clusters@[q]).1@.contains(c))
                        || mpre1.contains(c)) by {
                        if c == b {
                            assert(blocks@[prev.len() as int] == b);
                            assert(mpre1[m as int] == b);
                        } else {
                            if blocks@.contains(c) {
                                let k = choose|k: int| 0 <= k < blocks@.len() && blocks@[k] == c;
                                assert(prev[k] == c);
                                if mpre.contains(c) {
                                    let r = choose|r: int| 0 <= r < m && mpre[r] == c;
                                    assert(mpre1[r] == c);
                                }
                            }
                            if mpre1.contains(c) {
                                let r = choose|r: int| 0 <= r < m + 1 && mpre1[r] == c;
                                assert(mpre[r] == c);
                            }
                            if prev.contains(c) {
                                let k = choose|k: int| 0 <= k < prev.len() && prev[k] == c;
                                assert(blocks@[k] == c);
                            }
                        }
                    }
                }
            } else {
                proof {
                    assert forall|c: u64| #[trigger] blocks@.contains(c) <==> ((global@.contains(c) && t.timestamps().contains_key(c))
                        || (exists|q: int| 0 <= q < j && (#[trigger] clusters@[q]).1@.contains(c))
                        || mpre1.contains(c)) by {
                        if mpre1.contains(c) && c != b {
                            let r = choose|r: int| 0 <= r < m + 1 && mpre1[r] == c;
                            assert(mpre[r] == c);
                        }
                        if mpre.contains(c) {
                            let r = choose|r: int| 0 <= r < m && mpre[r] == c;
                            assert(mpre1[r] == c);
                        }
                    }
                }
            }
            m = m + 1;
        }
        proof {
            assert(members@.subrange(0, members@.len() as int) =~= members@);
            assert forall|b: u64| #[trigger] blocks@.contains(b) <==> ((global@.contains(b) && t.timestamps().contains_key(b))
                || exists|q: int| 0 <= q < j + 1 && (#[trigger] clusters@[q]).1@.contains(b)) by {
                if exists|q: int| 0 <= q < j + 1 && (#[trigger] clusters@[q]).1@.contains(b) {
                    let q = choose|q: int| 0 <= q < j + 1 && (#[trigger] clusters@[q]).1@.contains(b);
                    if q < j {
                        assert(exists|q: int| 0 <= q < j && (#[trigger] clusters@[q]).1@.contains(b));
                    }
                }
                if exists|q: int| 0 <= q < j && (#[trigger] clusters@[q]).1@.contains(b) {
                    let q = choose|q: int| 0 <= q < j && (#[trigger] clusters@[q]).1@.contains(b);
                    assert(0 <= q < j + 1 && clusters@[q].1@.contains(b));
                }
            }
        }
        j = j + 1;
    }
    proof {
        assert forall|b: u64| #[trigger] blocks@.contains(b) <==> s.contains(b) by {
            if exists|q: int| 0 <= q < clusters@.len() && (#[trigger] clusters@[q]).1@.contains(b) {
                let q = choose|q: int| 0 <= q < clusters@.len() && (#[trigger] clusters@[q]).1@.contains(b);
                lemma_value_at(clusters@, q);
                let k = clusters@[q].0;
                assert(t.clusters().contains_key(k));
                assert(t.clusters()[k].contains(b));
            }
            if exists|k: i64| #[trigger] t.clusters().contains_key(k) && t.clusters()[k].contains(b) {
                let k = choose|k: i64| #[trigger] t.clusters().contains_key(k) && t.clusters()[k].contains(b);
                assert(has_key(clusters@, k));
                let q = choose|q: int| 0 <= q < clusters@.len() && clusters@[q].0 == k;
                lemma_value_at(clusters@, q);
                assert(value_of(clusters@, k)@.to_set().contains(b));
                assert(clusters@[q].1@.contains(b));
            }
            if global@.contains(b) {
                assert(t.global().contains(b));
            }
            if t.global().contains(b) {
                assert(global@.to_set().contains(b));
            }
        }
    }
    let sorted_blocks = sort_ascending(&blocks);
    proof {
        let v = sorted_blocks@;
        assert forall|b: u64| #[trigger] v.contains(b) <==> blocks@.contains(b) by {
            assert(v.to_multiset().count(b) == blocks@.to_multiset().count(b));
        }
        blocks@.lemma_multiset_has_no_duplicates();
        v.lemma_multiset_has_no_duplicates_conv();
        lemma_sorted_distinct(v);
    }
    let mut out: Vec<u64> = Vec::new();
    let limit: usize = if sorted_blocks.len() < MAX_DIRTY_BLOCKS_PER_CLUSTER {
        sorted_blocks.len()
    } else {
        MAX_DIRTY_BLOCKS_PER_CLUSTER
    };
    let mut k: usize = 0;
    while k < limit
        invariant
            0 <= k <= limit <= sorted_blocks@.len(),
            out@ == sorted_blocks@.subrange(0, k as int),
        decreases limit - k,
    {
        out.push(sorted_blocks[k]);
        assert(sorted_blocks@.subrange(0, k + 1) =~= sorted_blocks@.subrange(0, k as int).push(sorted_blocks@[k as int]));
        k = k + 1;
    }
    proof {
        let v = sorted_blocks@;
        assert(out@ == v.subrange(0, limit as int));
        assert forall|i: int| 0 <= i < out@.len() implies s.contains(#[trigger] out@[i]) by {
            assert(out@[i] == v[i]);
            assert(v.contains(v[i]));
        }
        assert forall|x: u64| s.contains(x) && !out@.contains(x) implies out@.len() == MAX_DIRTY_BLOCKS_PER_CLUSTER
            && x > out@.last() by {
            assert(blocks@.contains(x));
            assert(v.contains(x));
            let p = choose|p: int| 0 <= p < v.len() && v[p] == x;
            if p < limit {
                assert(out@[p] == x);
            }
            assert(limit == MAX_DIRTY_BLOCKS_PER_CLUSTER);
            assert(out@.last() == v[limit - 1]);
        }
    }
    out
}

/// The counts of an incremental checkpoint run.
#[derive(Debug, Clone, Copy, PartialEq, Eq, Structural)]
pub struct IncrementalProgress {
    /// Records to apply.
    pub total_records: u64,
    /// Records applied so far.
    pub processed_records: u64,
    /// Blocks written back so far.
    pub flushed_blocks: u64,
}

/// What has just happened in an incremental checkpoint run.
#[derive(Debug, Clone, Copy, PartialEq, Eq, Structural)]
pub enum ProgressEvent {
    /// The next record was applied.
    RecordApplied,
    /// A dirty block was written back.
    BlockFlushed,
}

/// What the run does next.
#[derive(Debug, Clone, Copy, PartialEq, Eq, Structural)]
pub enum ProgressAction {
    /// Nothing to report.
    Continue,
    /// Recompute the completion percentage.
    UpdateCompletion,
    /// Recompute the completion percentage and write a progress record.
    ReportProgress,
}

/// The number of records between two completion updates: the smaller of the default batch
/// size and the cluster operations allowed per batch.
pub open spec fn progress_batch() -> nat {
    if DEFAULT_BATCH_SIZE <= MAX_CLUSTER_OPERATIONS_PER_BATCH {
        DEFAULT_BATCH_SIZE as nat
    } else {
        MAX_CLUSTER_OPERATIONS_PER_BATCH as nat
    }
}

/// What follows the application of the record at `index` of `total`: the completion is
/// recomputed at every batch boundary and for the last record, and a progress record is
/// written at every progress report interval of batches.
pub open spec fn record_action(index: nat, total: nat) -> ProgressAction {
    if index % progress_batch() == 0 || index + 1 == total {
        if index % (progress_batch() * PROGRESS_REPORT_INTERVAL as nat) == 0 {
            ProgressAction::ReportProgress
        } else {
            ProgressAction::UpdateCompletion
        }
    } else {
        ProgressAction::Continue
    }
}

/// One step of an incremental checkpoint run: an applied record is the record at index
/// `processed_records` and counts one more processed record; a written-back block counts
/// one more flushed block and asks for nothing.
pub fn progress_step(progress: IncrementalProgress, event: ProgressEvent) -> (r: (IncrementalProgress, ProgressAction))
    requires
        event == ProgressEvent::RecordApplied ==> progress.processed_records < u64::MAX,
        event == ProgressEvent::BlockFlushed ==> progress.flushed_blocks < u64::MAX,
    ensures
        r.0.total_records == progress.total_records,
        event == ProgressEvent::RecordApplied ==> {
            &&& r.0.processed_records == progress.processed_records + 1
            &&& r.0.flushed_blocks == progress.flushed_blocks
            &&& r.1 == record_action(progress.processed_records as nat, progress.total_records as nat)
        },
        event == ProgressEvent::BlockFlushed ==> {
            &&& r.0.processed_records == progress.processed_records
            &&& r.0.flushed_blocks == progress.flushed_blocks + 1
            &&& r.1 == ProgressAction::Continue
        },
{
    match event {
        ProgressEvent::RecordApplied => {
            let batch: u64 = if DEFAULT_BATCH_SIZE <= MAX_CLUSTER_OPERATIONS_PER_BATCH {
                DEFAULT_BATCH_SIZE as u64
            } else {
                MAX_CLUSTER_OPERATIONS_PER_BATCH as u64
            };
            let index = progress.processed_records;
            let report_every: u64 = batch * (PROGRESS_REPORT_INTERVAL as u64);
            let action = if index % batch == 0 || index + 1 == progress.total_records {
                if index % report_every == 0 {
                    ProgressAction::ReportProgress
                } else {
                    ProgressAction::UpdateCompletion
                }
            } else {
                ProgressAction::Continue
            };
            (
                IncrementalProgress {
                    total_records: progress.total_records,
                    processed_records: index + 1,
                    flushed_blocks: progress.flushed_blocks,
                },
                action,
            )
        },
        ProgressEvent::BlockFlushed => (
            IncrementalProgress {
                total_records: progress.total_records,
                processed_records: progress.processed_records,
                flushed_blocks: progress.flushed_blocks + 1,
            },
            ProgressAction::Continue,
        ),
    }
}

/// In a run of `total` records, the first record is followed by a progress record and the
/// last one always has its completion recomputed.
pub proof fn lemma_first_and_last_records_report(total: nat)
    requires
        total > 0,
    ensures
        record_action(0, total) == ProgressAction::ReportProgress,
        record_action((total - 1) as nat, total) != ProgressAction::Continue,
{
}

} // verus!
