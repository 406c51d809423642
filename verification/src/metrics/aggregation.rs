//! Latency histograms and sliding-window throughput tracking.
use std::collections::VecDeque;
use vstd::prelude::*;
use crate::header::unix_time_secs;

verus! {

broadcast use vstd::seq_lib::group_seq_properties;

/// The upper bounds, in microseconds, of the histogram buckets; one more bucket holds
/// everything above the last bound.
pub open spec fn latency_boundaries() -> Seq<u64> {
    seq![1u64, 10u64, 50u64, 100u64, 500u64, 1000u64, 5000u64, 10000u64, 50000u64]
}

/// The bucket of a latency: the first whose bound it does not exceed, or the overflow bucket 9.
pub open spec fn bucket_of(latency_us: u64) -> nat {
    if latency_us <= 1 {
        0
    } else if latency_us <= 10 {
        1
    } else if latency_us <= 50 {
        2
    } else if latency_us <= 100 {
        3
    } else if latency_us <= 500 {
        4
    } else if latency_us <= 1000 {
        5
    } else if latency_us <= 5000 {
        6
    } else if latency_us <= 10000 {
        7
    } else if latency_us <= 50000 {
        8
    } else {
        9
    }
}

/// The sum of the first `n` counts of `b`.
pub open spec fn prefix_sum(b: Seq<u64>, n: int) -> nat
    decreases n,
{
    if n <= 0 || n > b.len() {
        0
    } else {
        prefix_sum(b, n - 1) + b[n - 1] as nat
    }
}

/// The running count at the end of bucket `k`.
pub open spec fn count_through(b: Seq<u64>, k: nat) -> nat {
    prefix_sum(b, k + 1int)
}

/// The first bucket, from `i` on, by whose end the running count reaches `target`.
pub open spec fn reach_index(b: Seq<u64>, target: nat, i: nat) -> nat
    decreases b.len() - i,
{
    if i >= b.len() {
        b.len()
    } else if count_through(b, i) >= target {
        i
    } else {
        reach_index(b, target, i + 1)
    }
}

/// The lower end of bucket `i`.
pub open spec fn bucket_start(i: nat) -> nat {
    if i == 0 { 0 } else { latency_boundaries()[i - 1] as nat }
}

/// The upper end of bucket `i`; the overflow bucket ends at twice the last bound.
pub open spec fn bucket_end(i: nat) -> nat {
    if i < 9 { latency_boundaries()[i as int] as nat } else { 100000 }
}

/// The latency at `percent` percent of the samples counted in `b`: 0 without samples; else
/// the target count is `percent` percent of the total, rounded down, and the value is
/// interpolated linearly inside the first bucket where the running count reaches it
/// (rounded down), or is that bucket's end when the bucket is empty.
pub open spec fn percentile_value(b: Seq<u64>, percent: nat) -> nat {
    let total = prefix_sum(b, b.len() as int);
    if total == 0 {
        0
    } else {
        let target = total * percent / 100;
        let i = reach_index(b, target, 0);
        if i >= b.len() {
            100000
        } else if b[i as int] == 0 {
            bucket_end(i)
        } else {
            bucket_start(i) + ((bucket_end(i) - bucket_start(i)) * (target - prefix_sum(b, i as int))) as nat
                / (b[i as int] as nat)
        }
    }
}

proof fn lemma_prefix_monotone(b: Seq<u64>, m: int, n: int)
    requires
        0 <= m <= n <= b.len(),
    ensures
        prefix_sum(b, m) <= prefix_sum(b, n),
    decreases n - m,
{
    if m < n {
        lemma_prefix_monotone(b, m, n - 1);
    }
}

proof fn lemma_reach_first(b: Seq<u64>, target: nat, i: nat, j: nat)
    requires
        i <= j <= b.len(),
        forall|k: nat| i <= k < j ==> #[trigger] count_through(b, k) < target,
    ensures
        reach_index(b, target, i) == reach_index(b, target, j),
    decreases j - i,
{
    if i < j {
        lemma_reach_first(b, target, i + 1, j);
    }
}

/// Counts of latency samples per bucket, for writes, reads, flushes and checkpoints.
#[derive(Debug, Clone)]
pub struct LatencyHistogram {
    write_buckets: Vec<u64>,
    read_buckets: Vec<u64>,
    flush_buckets: Vec<u64>,
    checkpoint_buckets: Vec<u64>,
    bucket_boundaries: Vec<u64>,
}

fn zero_buckets() -> (v: Vec<u64>)
    ensures
        v@ == Seq::new(10, |i: int| 0u64),
{
    let v: Vec<u64> = vec![0, 0, 0, 0, 0, 0, 0, 0, 0, 0];
    assert(v@ =~= Seq::new(10, |i: int| 0u64));
    v
}

fn clear_counts(v: &mut Vec<u64>)
    ensures
        final(v)@ == Seq::new(old(v)@.len(), |i: int| 0u64),
{
    let mut i: usize = 0;
    while i < v.len()
        invariant
            0 <= i <= v@.len(),
            v@.len() == old(v)@.len(),
            forall|k: int| 0 <= k < i ==> v@[k] == 0,
        decreases v@.len() - i,
    {
        v.set(i, 0);
        i = i + 1;
    }
    assert(v@ =~= Seq::new(old(v)@.len(), |i: int| 0u64));
}

impl LatencyHistogram {
    /// Buckets of ten counts each and the standard bounds.
    pub closed spec fn wf(&self) -> bool {
        &&& self.bucket_boundaries@ == latency_boundaries()
        &&& self.write_buckets@.len() == 10
        &&& self.read_buckets@.len() == 10
        &&& self.flush_buckets@.len() == 10
        &&& self.checkpoint_buckets@.len() == 10
    }

    /// The write latency counts per bucket.
    pub closed spec fn writes(&self) -> Seq<u64> {
        self.write_buckets@
    }

    /// The read latency counts per bucket.
    pub closed spec fn reads(&self) -> Seq<u64> {
        self.read_buckets@
    }

    /// The flush latency counts per bucket.
    pub closed spec fn flushes(&self) -> Seq<u64> {
        self.flush_buckets@
    }

    /// The checkpoint latency counts per bucket.
    pub closed spec fn checkpoints(&self) -> Seq<u64> {
        self.checkpoint_buckets@
    }

    /// A histogram with all counts zero.
    pub fn new() -> (h: Self)
        ensures
            h.wf(),
            h.writes() == Seq::new(10, |i: int| 0u64),
            h.reads() == Seq::new(10, |i: int| 0u64),
            h.flushes() == Seq::new(10, |i: int| 0u64),
            h.checkpoints() == Seq::new(10, |i: int| 0u64),
    {
        let bucket_boundaries: Vec<u64> = vec![1, 10, 50, 100, 500, 1000, 5000, 10000, 50000];
        assert(bucket_boundaries@ =~= latency_boundaries());
        LatencyHistogram {
            write_buckets: zero_buckets(),
            read_buckets: zero_buckets(),
            flush_buckets: zero_buckets(),
            checkpoint_buckets: zero_buckets(),
            bucket_boundaries,
        }
    }

    /// The bucket of `latency_us`: the first whose bound it does not exceed, or the last.
    pub fn get_bucket_index(&self, latency_us: u64) -> (i: usize)
        requires
            self.wf(),
        ensures
            i == bucket_of(latency_us),
    {
        let mut i: usize = 0;
        while i < self.bucket_boundaries.len()
            invariant
                0 <= i <= 9,
                self.wf(),
                forall|k: int| 0 <= k < i ==> latency_us > latency_boundaries()[k],
            decreases 9 - i,
        {
            if latency_us <= self.bucket_boundaries[i] {
                return i;
            }
            i = i + 1;
        }
        self.bucket_boundaries.len()
    }

    /// Counts a write of `latency_us` microseconds.
    pub fn record_write_latency(&mut self, latency_us: u64)
        requires
            old(self).wf(),
            old(self).writes()[bucket_of(latency_us) as int] < u64::MAX,
        ensures
            final(self).wf(),
            final(self).writes() == old(self).writes().update(
                bucket_of(latency_us) as int,
                (old(self).writes()[bucket_of(latency_us) as int] + 1) as u64,
            ),
            final(self).reads() == old(self).reads(),
            final(self).flushes() == old(self).flushes(),
            final(self).checkpoints() == old(self).checkpoints(),
    {
        let i = self.get_bucket_index(latency_us);
        let c = self.write_buckets[i];
        self.write_buckets.set(i, c + 1);
    }

    /// Counts a read of `latency_us` microseconds.
    pub fn record_read_latency(&mut self, latency_us: u64)
        requires
            old(self).wf(),
            old(self).reads()[bucket_of(latency_us) as int] < u64::MAX,
        ensures
            final(self).wf(),
            final(self).reads() == old(self).reads().update(
                bucket_of(latency_us) as int,
                (old(self).reads()[bucket_of(latency_us) as int] + 1) as u64,
            ),
            final(self).writes() == old(self).writes(),
            final(self).flushes() == old(self).flushes(),
            final(self).checkpoints() == old(self).checkpoints(),
    {
        let i = self.get_bucket_index(latency_us);
        let c = self.read_buckets[i];
        self.read_buckets.set(i, c + 1);
    }

    /// Counts a flush of `latency_us` microseconds.
    pub fn record_flush_latency(&mut self, latency_us: u64)
        requires
            old(self).wf(),
            old(self).flushes()[bucket_of(latency_us) as int] < u64::MAX,
        ensures
            final(self).wf(),
            final(self).flushes() == old(self).flushes().update(
                bucket_of(latency_us) as int,
                (old(self).flushes()[bucket_of(latency_us) as int] + 1) as u64,
            ),
            final(self).writes() == old(self).writes(),
            final(self).reads() == old(self).reads(),
            final(self).checkpoints() == old(self).checkpoints(),
    {
        let i = self.get_bucket_index(latency_us);
        let c = self.flush_buckets[i];
        self.flush_buckets.set(i, c + 1);
    }

    /// Counts a checkpoint of `latency_us` microseconds.
    pub fn record_checkpoint_latency(&mut self, latency_us: u64)
        requires
            old(self).wf(),
            old(self).checkpoints()[bucket_of(latency_us) as int] < u64::MAX,
        ensures
            final(self).wf(),
            final(self).checkpoints() == old(self).checkpoints().update(
                bucket_of(latency_us) as int,
                (old(self).checkpoints()[bucket_of(latency_us) as int] + 1) as u64,
            ),
            final(self).writes() == old(self).writes(),
            final(self).reads() == old(self).reads(),
            final(self).flushes() == old(self).flushes(),
    {
        let i = self.get_bucket_index(latency_us);
        let c = self.checkpoint_buckets[i];
        self.checkpoint_buckets.set(i, c + 1);
    }

    /// Sets every count to zero.
    pub fn reset(&mut self)
        requires
            old(self).wf(),
        ensures
            final(self).wf(),
            final(self).writes() == Seq::new(10, |i: int| 0u64),
            final(self).reads() == Seq::new(10, |i: int| 0u64),
            final(self).flushes() == Seq::new(10, |i: int| 0u64),
            final(self).checkpoints() == Seq::new(10, |i: int| 0u64),
    {
        clear_counts(&mut self.write_buckets);
        clear_counts(&mut self.read_buckets);
        clear_counts(&mut self.flush_buckets);
        clear_counts(&mut self.checkpoint_buckets);
    }

    fn percentile(&self, buckets: &Vec<u64>, percent: u64) -> (v: u64)
        requires
            self.wf(),
            buckets@.len() == 10,
            prefix_sum(buckets@, 10) <= u64::MAX,
            percent <= 100,
        ensures
            v == percentile_value(buckets@, percent as nat),
    {
        let ghost s = buckets@;
        let mut total: u64 = 0;
        let mut k: usize = 0;
        while k < 10
            invariant
                0 <= k <= 10,
                s == buckets@,
                s.len() == 10,
                total == prefix_sum(s, k as int),
                prefix_sum(s, 10) <= u64::MAX,
            decreases 10 - k,
        {
            proof { lemma_prefix_monotone(s, k as int + 1, 10); }
            total = total + buckets[k];
            k = k + 1;
        }
        if total == 0 {
            return 0;
        }
        proof {
            assert((total as u128) * (percent as u128) <= (u64::MAX as u128) * 100) by (nonlinear_arith)
                requires total <= u64::MAX, percent <= 100;
        }
        let prod: u128 = (total as u128) * (percent as u128);
        let t128: u128 = prod / 100;
        proof {
            assert(t128 <= total) by (nonlinear_arith)
                requires t128 == prod / 100, prod == total * percent, percent <= 100;
        }
        let target: u64 = t128 as u64;
        let mut cumulative: u64 = 0;
        let mut prev_boundary: u64 = 0;
        let mut i: usize = 0;
        while i < 10
            invariant
                0 <= i <= 10,
                self.wf(),
                s == buckets@,
                s.len() == 10,
                total == prefix_sum(s, 10),
                total > 0,
                percent <= 100,
                target <= total,
                target == total * percent / 100,
                cumulative == prefix_sum(s, i as int),
                prev_boundary == bucket_start(i as nat),
                forall|j: nat| j < i ==> #[trigger] count_through(s, j) < target,
            decreases 10 - i,
        {
            let count = buckets[i];
            let prev_cumulative = cumulative;
            proof { lemma_prefix_monotone(s, i as int + 1, 10); }
            cumulative = cumulative + count;
            if cumulative >= target {
                proof {
                    lemma_reach_first(s, target as nat, 0, i as nat);
                    assert(count_through(s, i as nat) == cumulative);
                    assert(reach_index(s, target as nat, i as nat) == i);
                    if i > 0 {
                        assert(count_through(s, (i - 1) as nat) < target);
                        assert(count_through(s, (i - 1) as nat) == prev_cumulative);
                    }
                    assert(prev_cumulative <= target);
                }
                let lo = prev_boundary;
                let hi: u64 = if i < 9 {
                    self.bucket_boundaries[i]
                } else {
                    100000
                };
                proof {
                    assert(hi == bucket_end(i as nat));
                    assert(lo == bucket_start(i as nat));
                    assert(reach_index(s, target as nat, 0) == i);
                }
                if count == 0 {
                    proof {
                        let t = prefix_sum(s, s.len() as int);
                        assert(t == total);
                        assert(t * (percent as nat) / 100 == target);
                        assert(s[i as int] == 0);
                        assert(percentile_value(s, percent as nat) == bucket_end(i as nat));
                    }
                    return hi;
                }
                let span: u128 = (hi - lo) as u128;
                let within: u128 = (target - prev_cumulative) as u128;
                proof {
                    assert(span * within <= 100000 * (u64::MAX as u128)) by (nonlinear_arith)
                        requires span <= 100000, within <= u64::MAX;
                }
                let q: u128 = span * within / (count as u128);
                proof {
                    assert(q <= span) by (nonlinear_arith)
                        requires q == span * within / count as int, within <= count, count > 0;
                }
                return (lo as u128 + q) as u64;
            }
            if i < 9 {
                prev_boundary = self.bucket_boundaries[i];
            }
            i = i + 1;
        }
        proof {
            assert(count_through(s, 9) < target);
            assert(false);
        }
        100000
    }

    /// The 50th, 95th and 99th percentile latencies of writes, then of reads.
    pub fn get_comprehensive_stats(&self) -> (r: (u64, u64, u64, u64, u64, u64))
        requires
            self.wf(),
            prefix_sum(self.writes(), 10) <= u64::MAX,
            prefix_sum(self.reads(), 10) <= u64::MAX,
        ensures
            r == (
                percentile_value(self.writes(), 50) as u64,
                percentile_value(self.writes(), 95) as u64,
                percentile_value(self.writes(), 99) as u64,
                percentile_value(self.reads(), 50) as u64,
                percentile_value(self.reads(), 95) as u64,
                percentile_value(self.reads(), 99) as u64,
            ),
    {
        (
            self.percentile(&self.write_buckets, 50),
            self.percentile(&self.write_buckets, 95),
            self.percentile(&self.write_buckets, 99),
            self.percentile(&self.read_buckets, 50),
            self.percentile(&self.read_buckets, 95),
            self.percentile(&self.read_buckets, 99),
        )
    }

    /// The write latency counts per bucket.
    pub fn write_buckets(&self) -> (r: &Vec<u64>)
        ensures
            r@ == self.writes(),
    {
        &self.write_buckets
    }

    /// The read latency counts per bucket.
    pub fn read_buckets(&self) -> (r: &Vec<u64>)
        ensures
            r@ == self.reads(),
    {
        &self.read_buckets
    }

    /// The flush latency counts per bucket.
    pub fn flush_buckets(&self) -> (r: &Vec<u64>)
        ensures
            r@ == self.flushes(),
    {
        &self.flush_buckets
    }

    /// The checkpoint latency counts per bucket.
    pub fn checkpoint_buckets(&self) -> (r: &Vec<u64>)
        ensures
            r@ == self.checkpoints(),
    {
        &self.checkpoint_buckets
    }

    /// The bucket bounds.
    pub fn bucket_boundaries(&self) -> (r: &Vec<u64>)
        requires
            self.wf(),
        ensures
            r@ == latency_boundaries(),
    {
        &self.bucket_boundaries
    }
}

impl Default for LatencyHistogram {
    /// A histogram with all counts zero.
    fn default() -> (h: Self)
        ensures
            h.wf(),
            h.writes() == Seq::new(10, |i: int| 0u64),
            h.reads() == Seq::new(10, |i: int| 0u64),
            h.flushes() == Seq::new(10, |i: int| 0u64),
            h.checkpoints() == Seq::new(10, |i: int| 0u64),
    {
        LatencyHistogram::new()
    }
}

/// `q` without its leading samples older than `cutoff`.
pub open spec fn drop_old(q: Seq<(u64, u64)>, cutoff: u64) -> Seq<(u64, u64)>
    decreases q.len(),
{
    if q.len() > 0 && q[0].0 < cutoff {
        drop_old(q.subrange(1, q.len() as int), cutoff)
    } else {
        q
    }
}

/// The last `max` samples of `q` (all of them when there are fewer).
pub open spec fn keep_last(q: Seq<(u64, u64)>, max: nat) -> Seq<(u64, u64)> {
    if q.len() > max {
        q.subrange(q.len() - max, q.len() as int)
    } else {
        q
    }
}

/// The samples kept when pruning `q` at time `now`: those not older than 60 seconds before
/// `now` at the front, then at most the last 300.
pub open spec fn pruned(q: Seq<(u64, u64)>, now: u64) -> Seq<(u64, u64)> {
    let cutoff = if now >= 60 { (now - 60) as u64 } else { 0u64 };
    keep_last(drop_old(q, cutoff), 300)
}

fn prune_queue(q: &mut VecDeque<(u64, u64)>, cutoff: u64, max: usize)
    ensures
        final(q)@ == keep_last(drop_old(old(q)@, cutoff), max as nat),
{
    while q.len() > 0 && q[0].0 < cutoff
        invariant
            drop_old(q@, cutoff) == drop_old(old(q)@, cutoff),
        decreases q@.len(),
    {
        let _ = q.pop_front();
    }
    let ghost kept = q@;
    assert(drop_old(kept, cutoff) == kept);
    while q.len() > max
        invariant
            keep_last(q@, max as nat) == keep_last(kept, max as nat),
            q@.len() <= kept.len(),
        decreases q@.len(),
    {
        let ghost before = q@;
        let _ = q.pop_front();
        assert(keep_last(q@, max as nat) =~= keep_last(before, max as nat));
    }
    assert(keep_last(q@, max as nat) == q@);
}

/// Samples of records, bytes and transactions over a sliding window of time.
#[derive(Debug, Clone)]
pub struct ThroughputTracker {
    records_per_second: VecDeque<(u64, u64)>,
    bytes_per_second: VecDeque<(u64, u64)>,
    transactions_per_second: VecDeque<(u64, u64)>,
    time_window_seconds: usize,
    max_samples: usize,
}

impl ThroughputTracker {
    /// A 60-second window holding at most 300 samples per series.
    pub closed spec fn wf(&self) -> bool {
        &&& self.time_window_seconds == 60
        &&& self.max_samples == 300
        &&& self.records_per_second@.len() <= 300
        &&& self.bytes_per_second@.len() <= 300
        &&& self.transactions_per_second@.len() <= 300
    }

    /// The record samples, as (second, count) pairs.
    pub closed spec fn records(&self) -> Seq<(u64, u64)> {
        self.records_per_second@
    }

    /// The byte samples, as (second, bytes) pairs.
    pub closed spec fn bytes(&self) -> Seq<(u64, u64)> {
        self.bytes_per_second@
    }

    /// The transaction samples, as (second, count) pairs.
    pub closed spec fn transactions(&self) -> Seq<(u64, u64)> {
        self.transactions_per_second@
    }

    /// An empty tracker with a 60-second window and at most 300 samples per series.
    pub fn new() -> (t: Self)
        ensures
            t.wf(),
            t.records() == Seq::<(u64, u64)>::empty(),
            t.bytes() == Seq::<(u64, u64)>::empty(),
            t.transactions() == Seq::<(u64, u64)>::empty(),
    {
        ThroughputTracker {
            records_per_second: VecDeque::new(),
            bytes_per_second: VecDeque::new(),
            transactions_per_second: VecDeque::new(),
            time_window_seconds: 60,
            max_samples: 300,
        }
    }

    fn cleanup_old_samples(&mut self, now: u64)
        requires
            old(self).time_window_seconds == 60,
            old(self).max_samples == 300,
        ensures
            final(self).wf(),
            final(self).records() == pruned(old(self).records(), now),
            final(self).bytes() == pruned(old(self).bytes(), now),
            final(self).transactions() == pruned(old(self).transactions(), now),
    {
        let cutoff = now.saturating_sub(self.time_window_seconds as u64);
        prune_queue(&mut self.records_per_second, cutoff, self.max_samples);
        prune_queue(&mut self.bytes_per_second, cutoff, self.max_samples);
        prune_queue(&mut self.transactions_per_second, cutoff, self.max_samples);
    }

    /// Records a write of `bytes` bytes at the current second, then drops the samples that
    /// have left the window (as of a second clock reading) or exceed the sample limit. The
    /// seconds come from the system clock, so this states what holds for every reading.
    pub fn record_write_operation(&mut self, bytes: usize)
        requires
            old(self).wf(),
        ensures
            final(self).wf(),
            exists|now: u64, later: u64| {
                &&& final(self).records() == pruned(old(self).records().push((now, 1u64)), later)
                &&& final(self).bytes() == pruned(old(self).bytes().push((now, bytes as u64)), later)
                &&& final(self).transactions() == pruned(old(self).transactions(), later)
            },
    {
        let ghost before = *self;
        let now = unix_time_secs();
        self.records_per_second.push_back((now, 1));
        self.bytes_per_second.push_back((now, bytes as u64));
        let later = unix_time_secs();
        self.cleanup_old_samples(later);
        assert(self.records() == pruned(before.records().push((now, 1u64)), later)
            && self.bytes() == pruned(before.bytes().push((now, bytes as u64)), later)
            && self.transactions() == pruned(before.transactions(), later));
    }

    /// Records a read of `bytes` bytes, as `record_write_operation` does.
    pub fn record_read_operation(&mut self, bytes: usize)
        requires
            old(self).wf(),
        ensures
            final(self).wf(),
            exists|now: u64, later: u64| {
                &&& final(self).records() == pruned(old(self).records().push((now, 1u64)), later)
                &&& final(self).bytes() == pruned(old(self).bytes().push((now, bytes as u64)), later)
                &&& final(self).transactions() == pruned(old(self).transactions(), later)
            },
    {
        let ghost before = *self;
        let now = unix_time_secs();
        self.records_per_second.push_back((now, 1));
        self.bytes_per_second.push_back((now, bytes as u64));
        let later = unix_time_secs();
        self.cleanup_old_samples(later);
        assert(self.records() == pruned(before.records().push((now, 1u64)), later)
            && self.bytes() == pruned(before.bytes().push((now, bytes as u64)), later)
            && self.transactions() == pruned(before.transactions(), later));
    }

    /// Records a transaction at the current second, then prunes as `record_write_operation` does.
    pub fn record_transaction(&mut self)
        requires
            old(self).wf(),
        ensures
            final(self).wf(),
            exists|now: u64, later: u64| {
                &&& final(self).records() == pruned(old(self).records(), later)
                &&& final(self).bytes() == pruned(old(self).bytes(), later)
                &&& final(self).transactions() == pruned(old(self).transactions().push((now, 1u64)), later)
            },
    {
        let ghost before = *self;
        let now = unix_time_secs();
        self.transactions_per_second.push_back((now, 1));
        let later = unix_time_secs();
        self.cleanup_old_samples(later);
        assert(self.records() == pruned(before.records(), later)
            && self.bytes() == pruned(before.bytes(), later)
            && self.transactions() == pruned(before.transactions().push((now, 1u64)), later));
    }

    /// Drops every sample.
    pub fn reset(&mut self)
        requires
            old(self).wf(),
        ensures
            final(self).wf(),
            final(self).records() == Seq::<(u64, u64)>::empty(),
            final(self).bytes() == Seq::<(u64, u64)>::empty(),
            final(self).transactions() == Seq::<(u64, u64)>::empty(),
    {
        self.records_per_second.clear();
        self.bytes_per_second.clear();
        self.transactions_per_second.clear();
    }

    /// The window length in seconds.
    pub fn time_window_seconds(&self) -> (n: usize)
        requires
            self.wf(),
        ensures
            n == 60,
    {
        self.time_window_seconds
    }

    /// The largest number of samples kept per series.
    pub fn max_samples(&self) -> (n: usize)
        requires
            self.wf(),
        ensures
            n == 300,
    {
        self.max_samples
    }

    /// The record samples.
    pub fn records_per_second(&self) -> (q: &VecDeque<(u64, u64)>)
        ensures
            q@ == self.records(),
    {
        &self.records_per_second
    }

    /// The byte samples.
    pub fn bytes_per_second(&self) -> (q: &VecDeque<(u64, u64)>)
        ensures
            q@ == self.bytes(),
    {
        &self.bytes_per_second
    }

    /// The transaction samples.
    pub fn transactions_per_second(&self) -> (q: &VecDeque<(u64, u64)>)
        ensures
            q@ == self.transactions(),
    {
        &self.transactions_per_second
    }
}

impl Default for ThroughputTracker {
    /// An empty tracker with a 60-second window and at most 300 samples per series.
    fn default() -> (t: Self)
        ensures
            t.wf(),
            t.records() == Seq::<(u64, u64)>::empty(),
            t.bytes() == Seq::<(u64, u64)>::empty(),
            t.transactions() == Seq::<(u64, u64)>::empty(),
    {
        ThroughputTracker::new()
    }
}


/// Latencies are bucketed in order: a larger latency never lands in a lower bucket.
pub proof fn lemma_bucket_of_monotone(a: u64, b: u64)
    requires
        a <= b,
    ensures
        bucket_of(a) <= bucket_of(b),
        bucket_of(b) < 10,
{
}

proof fn lemma_prefix_sum_bump(s: Seq<u64>, i: int, n: int)
    requires
        0 <= i < s.len(),
        s[i] < u64::MAX,
        0 <= n <= s.len(),
    ensures
        prefix_sum(s.update(i, (s[i] + 1) as u64), n) == prefix_sum(s, n) + if i < n { 1nat } else { 0nat },
    decreases n,
{
    if n > 0 {
        lemma_prefix_sum_bump(s, i, n - 1);
    }
}

/// Recording a latency adds exactly one to the total count of the histogram it lands in.
pub proof fn lemma_record_adds_one(s: Seq<u64>, latency_us: u64)
    requires
        s.len() == 10,
        s[bucket_of(latency_us) as int] < u64::MAX,
    ensures
        prefix_sum(s.update(bucket_of(latency_us) as int, (s[bucket_of(latency_us) as int] + 1) as u64), 10)
            == prefix_sum(s, 10) + 1,
{
    lemma_prefix_sum_bump(s, bucket_of(latency_us) as int, 10);
}


proof fn lemma_scaled_share(w: nat, x: nat, c: nat)
    requires
        x <= c,
        c > 0,
    ensures
        w * x / c <= w,
{
    assert(w * x <= w * c) by (nonlinear_arith)
        requires x <= c;
    assert(w * x / c <= w * c / c) by (nonlinear_arith)
        requires w * x <= w * c, c > 0;
    assert(w * c / c == w) by (nonlinear_arith)
        requires c > 0;
}

/// A percentile lies in the first bucket whose running count reaches the target count,
/// `percent` percent of all samples (rounded down): it is at least the bucket's lower bound
/// and at most its upper bound. So when `percent` percent of the samples are at most 10 us,
/// the percentile is at most 10 us.
pub proof fn lemma_percentile_in_reaching_bucket(b: Seq<u64>, percent: nat, i: nat)
    requires
        b.len() == 10,
        percent <= 100,
        prefix_sum(b, 10) > 0,
        i < 10,
        prefix_sum(b, i + 1int) >= prefix_sum(b, 10) * percent / 100,
        forall|k: int| 1 <= k <= i ==> #[trigger] prefix_sum(b, k) < prefix_sum(b, 10) * percent / 100,
    ensures
        i > 0 ==> latency_boundaries()[i - 1] <= percentile_value(b, percent),
        i < 9 ==> percentile_value(b, percent) <= latency_boundaries()[i as int],
        i == 9 ==> percentile_value(b, percent) <= 100000,
{
    let total = prefix_sum(b, 10);
    let target = total * percent / 100;
    assert forall|k: nat| k < i implies #[trigger] count_through(b, k) < target by {
        assert(prefix_sum(b, k + 1int) < target);
    }
    lemma_reach_first(b, target, 0, i);
    assert(count_through(b, i) >= target);
    assert(reach_index(b, target, i) == i);
    assert(reach_index(b, target, 0) == i);
    let lo = bucket_start(i);
    let hi = bucket_end(i);
    assert(lo <= hi) by {
        if i > 0 && i < 9 {
            assert(latency_boundaries()[i - 1] <= latency_boundaries()[i as int]) by {
                assert(i == 1 || i == 2 || i == 3 || i == 4 || i == 5 || i == 6 || i == 7 || i == 8);
            }
        }
    }
    if b[i as int] != 0 {
        let before = prefix_sum(b, i as int);
        assert(prefix_sum(b, i + 1int) == before + b[i as int] as nat);
        if i > 0 {
            assert(prefix_sum(b, i as int) < target);
        }
        assert(before <= target);
        let x = (target - before) as nat;
        assert(x <= b[i as int]);
        lemma_scaled_share((hi - lo) as nat, x, b[i as int] as nat);
    }
}

} // verus!
