//! Consistency checks of a checkpoint: its LSN range against the log, the dirty block
//! counts, and the checkpoint size against the log size.
use vstd::prelude::*;
use crate::checkpoint::constants::{MAX_GLOBAL_DIRTY_BLOCKS, MIN_CHECKPOINT_SIZE};
use crate::checkpoint::errors::system_now;
use crate::checkpoint::tracking::DirtyBlockTracker;
use crate::config::V2WALConfig;
use crate::text::{decimal, push_decimal};

verus! {

broadcast use vstd::seq_lib::group_seq_properties;

/// Kind of consistency violation.
#[derive(Debug, Clone, Copy, PartialEq, Eq, Hash, Structural)]
pub enum ConsistencyViolationType {
    /// The checkpoint does not start where the last one ended.
    LsnRangeDiscontinuity,
    /// The LSN range runs backwards.
    InvalidLsnRange,
    /// The LSN range is empty.
    EmptyLsnRange,
    /// Too many dirty blocks in all.
    ExcessDirtyBlocks,
    /// Too many dirty blocks in one cluster.
    ClusterDirtyBlockLimitExceeded,
    /// Too many global dirty blocks.
    GlobalDirtyBlockLimitExceeded,
    /// A timestamp in the future.
    InvalidTimestamp,
    /// Checkpoint and log sizes do not fit together.
    CheckpointWalSizeMismatch,
    /// Dirty block bookkeeping does not add up.
    DirtyBlockTrackingInconsistency,
}

/// How serious a consistency violation is.
#[derive(Debug, Clone, Copy, PartialEq, Eq, PartialOrd, Ord, Hash, Structural)]
pub enum ConsistencySeverity {
    /// Can be ignored.
    Minor,
    /// Worth a look.
    Warning,
    /// May affect operation.
    Error,
    /// Needs immediate attention.
    Critical,
}

/// The rank of a severity (Minor 0, Warning 1, Error 2, Critical 3).
pub open spec fn consistency_rank(s: ConsistencySeverity) -> nat {
    match s {
        ConsistencySeverity::Minor => 0,
        ConsistencySeverity::Warning => 1,
        ConsistencySeverity::Error => 2,
        ConsistencySeverity::Critical => 3,
    }
}

impl ConsistencySeverity {
    /// The rank of this severity (Minor 0, Warning 1, Error 2, Critical 3).
    pub fn rank(&self) -> (r: u8)
        ensures
            r == consistency_rank(*self),
    {
        match self {
            ConsistencySeverity::Minor => 0,
            ConsistencySeverity::Warning => 1,
            ConsistencySeverity::Error => 2,
            ConsistencySeverity::Critical => 3,
        }
    }
}

/// One consistency violation.
#[derive(Debug, Clone)]
pub struct ConsistencyViolation {
    /// Kind of violation.
    pub violation_type: ConsistencyViolationType,
    /// What is wrong.
    pub description: String,
    /// How serious it is.
    pub severity: ConsistencySeverity,
    /// The entity concerned (block, cluster, LSN range), if any.
    pub entity_id: Option<String>,
}

/// A violation as plain values: kind, description, severity, entity.
pub open spec fn violation_view(v: ConsistencyViolation) -> (
    ConsistencyViolationType,
    Seq<char>,
    ConsistencySeverity,
    Option<Seq<char>>,
) {
    (v.violation_type, v.description@, v.severity, match v.entity_id {
        Some(s) => Some(s@),
        None => None,
    })
}

/// Violations as plain values.
pub open spec fn violations_view(s: Seq<ConsistencyViolation>) -> Seq<
    (ConsistencyViolationType, Seq<char>, ConsistencySeverity, Option<Seq<char>>),
> {
    s.map_values(|v: ConsistencyViolation| violation_view(v))
}

/// Violations reached through references, as plain values.
pub open spec fn violation_refs_view(s: Seq<&ConsistencyViolation>) -> Seq<
    (ConsistencyViolationType, Seq<char>, ConsistencySeverity, Option<Seq<char>>),
> {
    s.map_values(|v: &ConsistencyViolation| violation_view(*v))
}

/// Whether no violation is worse than a warning.
pub open spec fn tolerable(
    s: Seq<(ConsistencyViolationType, Seq<char>, ConsistencySeverity, Option<Seq<char>>)>,
) -> bool {
    forall|i: int| 0 <= i < s.len() ==> consistency_rank(#[trigger] s[i].2) <= 1
}

/// The outcome of a consistency check.
#[derive(Debug)]
pub struct ConsistencyResult {
    /// Whether no violation is worse than a warning.
    pub is_consistent: bool,
    /// The violations found.
    pub violations: Vec<ConsistencyViolation>,
    /// When the check ran.
    pub validation_timestamp: std::time::SystemTime,
    /// The checkpoint's LSN range, when it was checked.
    pub lsn_range: Option<(u64, u64)>,
}

fn all_tolerable(violations: &Vec<ConsistencyViolation>) -> (b: bool)
    ensures
        b == tolerable(violations_view(violations@)),
{
    let ghost v = violations_view(violations@);
    let mut i: usize = 0;
    while i < violations.len()
        invariant
            0 <= i <= violations@.len(),
            v == violations_view(violations@),
            forall|k: int| 0 <= k < i ==> consistency_rank(#[trigger] v[k].2) <= 1,
        decreases violations@.len() - i,
    {
        if violations[i].severity.rank() > 1 {
            assert(consistency_rank(v[i as int].2) > 1);
            return false;
        }
        i = i + 1;
    }
    true
}

fn violation(
    violation_type: ConsistencyViolationType,
    description: String,
    severity: ConsistencySeverity,
    entity: &str,
) -> (v: ConsistencyViolation)
    ensures
        violation_view(v) == (violation_type, description@, severity, Some(entity@)),
{
    ConsistencyViolation { violation_type, description, severity, entity_id: Some(String::from_str(entity)) }
}

fn range_text(range: (u64, u64)) -> (s: String)
    ensures
        s@ == decimal(range.0 as nat) + "-"@ + decimal(range.1 as nat),
{
    let mut s = String::new();
    push_decimal(&mut s, range.0);
    s.append("-");
    push_decimal(&mut s, range.1);
    assert(s@ =~= decimal(range.0 as nat) + "-"@ + decimal(range.1 as nat));
    s
}

fn two_numbers(a: &str, x: u64, b: &str, y: u64, c: &str) -> (s: String)
    ensures
        s@ == a@ + decimal(x as nat) + b@ + decimal(y as nat) + c@,
{
    let mut s = String::from_str(a);
    push_decimal(&mut s, x);
    s.append(b);
    push_decimal(&mut s, y);
    s.append(c);
    s
}

/// The violations of a checkpoint over `range` following a checkpoint at `last`: it must
/// start at `last` (critical), run forwards (critical) and not be empty (error).
pub open spec fn lsn_violations(range: (u64, u64), last: u64) -> Seq<
    (ConsistencyViolationType, Seq<char>, ConsistencySeverity, Option<Seq<char>>),
> {
    let entity = decimal(range.0 as nat) + "-"@ + decimal(range.1 as nat);
    (if range.0 != last {
        seq![(
            ConsistencyViolationType::LsnRangeDiscontinuity,
            "Checkpoint range discontinuity: checkpoint starts at "@ + decimal(range.0 as nat)
                + ", last checkpointed LSN is "@ + decimal(last as nat) + ""@,
            ConsistencySeverity::Critical,
            Some(entity),
        )]
    } else {
        Seq::empty()
    }) + (if range.0 > range.1 {
        seq![(
            ConsistencyViolationType::InvalidLsnRange,
            "Invalid checkpoint range: start LSN "@ + decimal(range.0 as nat) + " > end LSN "@
                + decimal(range.1 as nat) + ""@,
            ConsistencySeverity::Critical,
            Some(entity),
        )]
    } else {
        Seq::empty()
    }) + (if range.0 == range.1 {
        seq![(
            ConsistencyViolationType::EmptyLsnRange,
            "Empty checkpoint range (start LSN equals end LSN)"@,
            ConsistencySeverity::Error,
            Some(decimal(range.0 as nat)),
        )]
    } else {
        Seq::empty()
    })
}

/// The violations of a tracker with `global` global dirty blocks and `total` dirty blocks in
/// all, against at most `max_pending` pending blocks.
pub open spec fn dirty_block_violations(global: nat, total: nat, max_pending: u64) -> Seq<
    (ConsistencyViolationType, Seq<char>, ConsistencySeverity, Option<Seq<char>>),
> {
    (if global > MAX_GLOBAL_DIRTY_BLOCKS {
        seq![(
            ConsistencyViolationType::GlobalDirtyBlockLimitExceeded,
            "Too many global dirty blocks: "@ + decimal(global) + " (maximum: "@
                + decimal(MAX_GLOBAL_DIRTY_BLOCKS as nat) + ")"@,
            ConsistencySeverity::Error,
            Some("global"@),
        )]
    } else {
        Seq::empty()
    }) + (if total > max_pending {
        seq![(
            ConsistencyViolationType::ExcessDirtyBlocks,
            "Too many pending dirty blocks: "@ + decimal(total) + " (maximum: "@ + decimal(max_pending as nat)
                + ")"@,
            ConsistencySeverity::Error,
            Some("total"@),
        )]
    } else {
        Seq::empty()
    })
}

/// The violations of a checkpoint of `checkpoint_size` bytes for a log of `wal_size` bytes:
/// a checkpoint over twice the log size (warning), or a checkpoint under the minimum size
/// with a log over 1 MiB (error).
pub open spec fn size_violations(checkpoint_size: u64, wal_size: u64) -> Seq<
    (ConsistencyViolationType, Seq<char>, ConsistencySeverity, Option<Seq<char>>),
> {
    (if checkpoint_size > wal_size * 2 {
        seq![(
            ConsistencyViolationType::CheckpointWalSizeMismatch,
            "Checkpoint size "@ + decimal(checkpoint_size as nat) + " is significantly larger than WAL size "@
                + decimal(wal_size as nat) + ""@,
            ConsistencySeverity::Warning,
            Some("size_ratio"@),
        )]
    } else {
        Seq::empty()
    }) + (if checkpoint_size < MIN_CHECKPOINT_SIZE && wal_size > 1024 * 1024 {
        seq![(
            ConsistencyViolationType::EmptyLsnRange,
            "Small checkpoint "@ + decimal(checkpoint_size as nat) + " with large WAL "@ + decimal(wal_size as nat)
                + " may indicate incomplete checkpointing"@,
            ConsistencySeverity::Error,
            Some("size_mismatch"@),
        )]
    } else {
        Seq::empty()
    })
}

/// The violations of the counts of a running checkpoint over `range` that has applied
/// `processed` of `total` records: a range that runs backwards (error), more records applied
/// than there are (error).
pub open spec fn progress_violations(range: (u64, u64), processed: u64, total: u64) -> Seq<
    (ConsistencyViolationType, Seq<char>, ConsistencySeverity, Option<Seq<char>>),
> {
    (if range.0 > range.1 {
        seq![(
            ConsistencyViolationType::InvalidLsnRange,
            "Invalid progress LSN range: start "@ + decimal(range.0 as nat) + " > end "@ + decimal(range.1 as nat)
                + ""@,
            ConsistencySeverity::Error,
            Some(decimal(range.0 as nat) + "-"@ + decimal(range.1 as nat)),
        )]
    } else {
        Seq::empty()
    }) + (if processed > total {
        seq![(
            ConsistencyViolationType::DirtyBlockTrackingInconsistency,
            "Processed records ("@ + decimal(processed as nat) + ") exceeds total records ("@
                + decimal(total as nat) + ")"@,
            ConsistencySeverity::Error,
            Some("record_count"@),
        )]
    } else {
        Seq::empty()
    })
}

/// The violations of the counts of a running checkpoint over `lsn_range` that has applied
/// `processed_records` of `total_records` records, in the order in which they are checked.
pub fn check_progress_counts(lsn_range: (u64, u64), processed_records: u64, total_records: u64) -> (r: Vec<
    ConsistencyViolation,
>)
    ensures
        violations_view(r@) == progress_violations(lsn_range, processed_records, total_records),
{
    let mut violations: Vec<ConsistencyViolation> = Vec::new();
    if lsn_range.0 > lsn_range.1 {
        let d = two_numbers("Invalid progress LSN range: start ", lsn_range.0, " > end ", lsn_range.1, "");
        let e = range_text(lsn_range);
        violations.push(violation(ConsistencyViolationType::InvalidLsnRange, d, ConsistencySeverity::Error, e.as_str()));
    }
    if processed_records > total_records {
        let d = two_numbers(
            "Processed records (",
            processed_records,
            ") exceeds total records (",
            total_records,
            ")",
        );
        violations.push(violation(
            ConsistencyViolationType::DirtyBlockTrackingInconsistency,
            d,
            ConsistencySeverity::Error,
            "record_count",
        ));
    }
    assert(violations_view(violations@) =~= progress_violations(lsn_range, processed_records, total_records));
    violations
}

/// The size check raises nothing for a checkpoint of at least the minimum checkpoint size
/// and at most twice the log size; it warns exactly when the checkpoint is over twice the log,
/// and it raises an error exactly when the checkpoint is under the minimum size while the log
/// is over 1 MiB.
pub proof fn lemma_size_check_flags_only_mismatches(checkpoint_size: u64, wal_size: u64)
    ensures
        checkpoint_size >= MIN_CHECKPOINT_SIZE && checkpoint_size <= 2 * wal_size ==> {
            &&& size_violations(checkpoint_size, wal_size).len() == 0
            &&& tolerable(size_violations(checkpoint_size, wal_size))
        },
        (exists|i: int| 0 <= i < size_violations(checkpoint_size, wal_size).len()
            && (#[trigger] size_violations(checkpoint_size, wal_size)[i]).2 == ConsistencySeverity::Warning)
            <==> checkpoint_size > 2 * wal_size,
        (exists|i: int| 0 <= i < size_violations(checkpoint_size, wal_size).len()
            && (#[trigger] size_violations(checkpoint_size, wal_size)[i]).2 == ConsistencySeverity::Error)
            <==> (checkpoint_size < MIN_CHECKPOINT_SIZE && wal_size > 1024 * 1024),
        tolerable(size_violations(checkpoint_size, wal_size))
            <==> !(checkpoint_size < MIN_CHECKPOINT_SIZE && wal_size > 1024 * 1024),
{
    let v = size_violations(checkpoint_size, wal_size);
    if checkpoint_size > 2 * wal_size {
        assert(v[0].2 == ConsistencySeverity::Warning);
    }
    if checkpoint_size < MIN_CHECKPOINT_SIZE && wal_size > 1024 * 1024 {
        assert(v[v.len() - 1].2 == ConsistencySeverity::Error);
        assert(consistency_rank(v[v.len() - 1].2) > 1);
    }
}

/// Checks checkpoints for consistency with the log.
pub struct CheckpointConsistencyValidator {
    config: V2WALConfig,
}

impl CheckpointConsistencyValidator {
    /// A validator for the log of `config`.
    pub fn new(config: V2WALConfig) -> (v: Self)
        ensures
            v.config() == config,
    {
        CheckpointConsistencyValidator { config }
    }

    /// The configuration of the log.
    pub closed spec fn config(&self) -> V2WALConfig {
        self.config
    }

    /// Checks a checkpoint over `checkpoint_lsn_range` taken after the last checkpoint at
    /// `last_checkpointed_lsn`.
    pub fn validate_checkpoint_consistency(
        &self,
        checkpoint_lsn_range: (u64, u64),
        last_checkpointed_lsn: u64,
    ) -> (r: ConsistencyResult)
        ensures
            violations_view(r.violations@) == lsn_violations(checkpoint_lsn_range, last_checkpointed_lsn),
            r.is_consistent == tolerable(violations_view(r.violations@)),
            r.lsn_range == Some(checkpoint_lsn_range),
    {
        let start_time = system_now();
        let (lo, hi) = checkpoint_lsn_range;
        let mut violations: Vec<ConsistencyViolation> = Vec::new();
        if lo != last_checkpointed_lsn {
            let d = two_numbers(
                "Checkpoint range discontinuity: checkpoint starts at ",
                lo,
                ", last checkpointed LSN is ",
                last_checkpointed_lsn,
                "",
            );
            let e = range_text(checkpoint_lsn_range);
            violations.push(violation(
                ConsistencyViolationType::LsnRangeDiscontinuity,
                d,
                ConsistencySeverity::Critical,
                e.as_str(),
            ));
        }
        let ghost v1 = violations_view(violations@);
        if lo > hi {
            let d = two_numbers("Invalid checkpoint range: start LSN ", lo, " > end LSN ", hi, "");
            let e = range_text(checkpoint_lsn_range);
            violations.push(violation(ConsistencyViolationType::InvalidLsnRange, d, ConsistencySeverity::Critical, e.as_str()));
        }
        let ghost v2 = violations_view(violations@);
        if lo == hi {
            let mut e = String::new();
            push_decimal(&mut e, lo);
            violations.push(violation(
                ConsistencyViolationType::EmptyLsnRange,
                String::from_str("Empty checkpoint range (start LSN equals end LSN)"),
                ConsistencySeverity::Error,
                e.as_str(),
            ));
        }
        assert(violations_view(violations@) =~= lsn_violations(checkpoint_lsn_range, last_checkpointed_lsn));
        let is_consistent = all_tolerable(&violations);
        ConsistencyResult {
            is_consistent,
            violations,
            validation_timestamp: start_time,
            lsn_range: Some(checkpoint_lsn_range),
        }
    }

    /// Checks the dirty block counts of `dirty_blocks`: the global ones against their
    /// absolute limit, all of them against `max_pending_blocks`.
    pub fn validate_dirty_block_consistency(
        &self,
        dirty_blocks: &DirtyBlockTracker,
        max_pending_blocks: u64,
    ) -> (r: ConsistencyResult)
        requires
            dirty_blocks.wf(),
        ensures
            violations_view(r.violations@) == dirty_block_violations(
                dirty_blocks.global_size(),
                dirty_blocks.cluster_block_count() + dirty_blocks.global_size(),
                max_pending_blocks,
            ),
            r.is_consistent == tolerable(violations_view(r.violations@)),
            r.lsn_range is None,
    {
        let start_time = system_now();
        let mut violations: Vec<ConsistencyViolation> = Vec::new();
        let (cluster_count, global_count) = dirty_blocks.get_statistics();
        proof { dirty_blocks.lemma_views(); }
        if global_count > MAX_GLOBAL_DIRTY_BLOCKS {
            let d = two_numbers(
                "Too many global dirty blocks: ",
                global_count as u64,
                " (maximum: ",
                MAX_GLOBAL_DIRTY_BLOCKS as u64,
                ")",
            );
            violations.push(violation(
                ConsistencyViolationType::GlobalDirtyBlockLimitExceeded,
                d,
                ConsistencySeverity::Error,
                "global",
            ));
        }
        let total = cluster_count + global_count;
        if total as u64 > max_pending_blocks {
            let d = two_numbers("Too many pending dirty blocks: ", total as u64, " (maximum: ", max_pending_blocks, ")");
            violations.push(violation(ConsistencyViolationType::ExcessDirtyBlocks, d, ConsistencySeverity::Error, "total"));
        }
        assert(violations_view(violations@) =~= dirty_block_violations(
            dirty_blocks.global_size(),
            dirty_blocks.cluster_block_count() + dirty_blocks.global_size(),
            max_pending_blocks,
        ));
        let is_consistent = all_tolerable(&violations);
        ConsistencyResult { is_consistent, violations, validation_timestamp: start_time, lsn_range: None }
    }

    /// Checks a checkpoint of `checkpoint_size` bytes against a log of `wal_size` bytes.
    pub fn validate_checkpoint_wal_consistency(&self, checkpoint_size: u64, wal_size: u64) -> (r: ConsistencyResult)
        requires
            wal_size * 2 <= u64::MAX,
        ensures
            violations_view(r.violations@) == size_violations(checkpoint_size, wal_size),
            r.is_consistent == tolerable(violations_view(r.violations@)),
            r.lsn_range is None,
    {
        let start_time = system_now();
        let mut violations: Vec<ConsistencyViolation> = Vec::new();
        if checkpoint_size > wal_size * 2 {
            let d = two_numbers(
                "Checkpoint size ",
                checkpoint_size,
                " is significantly larger than WAL size ",
                wal_size,
                "",
            );
            violations.push(violation(
                ConsistencyViolationType::CheckpointWalSizeMismatch,
                d,
                ConsistencySeverity::Warning,
                "size_ratio",
            ));
        }
        if checkpoint_size < MIN_CHECKPOINT_SIZE && wal_size > 1024 * 1024 {
            let d = two_numbers(
                "Small checkpoint ",
                checkpoint_size,
                " with large WAL ",
                wal_size,
                " may indicate incomplete checkpointing",
            );
            violations.push(violation(ConsistencyViolationType::EmptyLsnRange, d, ConsistencySeverity::Error, "size_mismatch"));
        }
        assert(violations_view(violations@) =~= size_violations(checkpoint_size, wal_size));
        let is_consistent = all_tolerable(&violations);
        ConsistencyResult { is_consistent, violations, validation_timestamp: start_time, lsn_range: None }
    }
}

/// Whether some violation is an error or critical.
pub open spec fn needs_action(
    s: Seq<(ConsistencyViolationType, Seq<char>, ConsistencySeverity, Option<Seq<char>>)>,
) -> bool {
    exists|i: int| 0 <= i < s.len() && consistency_rank(#[trigger] s[i].2) >= 2
}

/// Whether position `i` of `s` holds the last of the most severe violations.
pub open spec fn last_most_severe(
    s: Seq<(ConsistencyViolationType, Seq<char>, ConsistencySeverity, Option<Seq<char>>)>,
    i: int,
) -> bool {
    &&& 0 <= i < s.len()
    &&& forall|j: int| 0 <= j < s.len() ==> consistency_rank(#[trigger] s[j].2) <= consistency_rank(s[i].2)
    &&& forall|j: int| i < j < s.len() ==> consistency_rank(#[trigger] s[j].2) < consistency_rank(s[i].2)
}

/// Whether a violation is at least as severe as `min`.
pub open spec fn at_least(min: ConsistencySeverity) -> spec_fn(
    (ConsistencyViolationType, Seq<char>, ConsistencySeverity, Option<Seq<char>>),
) -> bool {
    |v: (ConsistencyViolationType, Seq<char>, ConsistencySeverity, Option<Seq<char>>)|
        consistency_rank(v.2) >= consistency_rank(min)
}

/// Whether a violation is of kind `t`.
pub open spec fn of_type(t: ConsistencyViolationType) -> spec_fn(
    (ConsistencyViolationType, Seq<char>, ConsistencySeverity, Option<Seq<char>>),
) -> bool {
    |v: (ConsistencyViolationType, Seq<char>, ConsistencySeverity, Option<Seq<char>>)| v.0 == t
}

/// Violations grouped by kind.
pub struct ViolationGroups<'a> {
    groups: Vec<(ConsistencyViolationType, Vec<&'a ConsistencyViolation>)>,
}

impl<'a> ViolationGroups<'a> {
    /// The violations of kind `t`, in their order (empty when there are none).
    pub closed spec fn group(&self, t: ConsistencyViolationType) -> Seq<
        (ConsistencyViolationType, Seq<char>, ConsistencySeverity, Option<Seq<char>>),
    > {
        let g = self.groups@;
        if exists|i: int| 0 <= i < g.len() && g[i].0 == t {
            violation_refs_view(g[choose|i: int| 0 <= i < g.len() && g[i].0 == t].1@)
        } else {
            Seq::empty()
        }
    }

    /// The violations of kind `t`, or `None` when there are none.
    pub fn get(&self, t: &ConsistencyViolationType) -> (r: Option<&Vec<&'a ConsistencyViolation>>)
        requires
            self.wf(),
        ensures
            self.group(*t).len() == 0 ==> r is None,
            self.group(*t).len() > 0 ==> (r matches Some(v) && violation_refs_view(v@) == self.group(*t)),
    {
        let mut i: usize = 0;
        while i < self.groups.len()
            invariant
                0 <= i <= self.groups@.len(),
                self.wf(),
                forall|k: int| 0 <= k < i ==> self.groups@[k].0 != *t,
            decreases self.groups@.len() - i,
        {
            if self.groups[i].0 == *t {
                proof {
                    let g = self.groups@;
                    let c = choose|k: int| 0 <= k < g.len() && g[k].0 == *t;
                    assert(c == i as int);
                }
                return Some(&self.groups[i].1);
            }
            i = i + 1;
        }
        None
    }

    /// Kinds are distinct and every group holds at least one violation.
    pub closed spec fn wf(&self) -> bool {
        &&& forall|a: int, b: int| 0 <= a < b < self.groups@.len() ==> self.groups@[a].0 != self.groups@[b].0
        &&& forall|a: int| 0 <= a < self.groups@.len() ==> (#[trigger] self.groups@[a]).1@.len() > 0
    }
}

/// A violation as plain values.
pub type ViolationView = (ConsistencyViolationType, Seq<char>, ConsistencySeverity, Option<Seq<char>>);

/// Where a violation of severity rank `r` goes into `s` when it comes after all of them:
/// behind the last violation that is at least as severe.
pub open spec fn severity_pos(s: Seq<ViolationView>, r: nat) -> nat
    decreases s.len(),
{
    if s.len() == 0 {
        0
    } else if consistency_rank(s.last().2) >= r {
        s.len()
    } else {
        severity_pos(s.drop_last(), r)
    }
}

/// The violations ordered by severity, most severe first, violations of equal severity in
/// the order they were found (a stable sort by descending severity).
pub open spec fn most_severe_first(s: Seq<ViolationView>) -> Seq<ViolationView>
    decreases s.len(),
{
    if s.len() == 0 {
        s
    } else {
        let t = most_severe_first(s.drop_last());
        t.insert(severity_pos(t, consistency_rank(s.last().2)) as int, s.last())
    }
}

/// Whether the violations are in order of descending severity.
pub open spec fn severity_ordered(s: Seq<ViolationView>) -> bool {
    forall|i: int, j: int| 0 <= i <= j < s.len() ==> consistency_rank(s[i].2) >= consistency_rank(s[j].2)
}

proof fn lemma_severity_pos_bound(s: Seq<ViolationView>, r: nat)
    ensures
        severity_pos(s, r) <= s.len(),
    decreases s.len(),
{
    if s.len() > 0 && consistency_rank(s.last().2) < r {
        lemma_severity_pos_bound(s.drop_last(), r);
    }
}

proof fn lemma_severity_pos_splits(s: Seq<ViolationView>, r: nat)
    requires
        severity_ordered(s),
    ensures
        forall|i: int| 0 <= i < severity_pos(s, r) ==> consistency_rank(s[i].2) >= r,
        forall|i: int| severity_pos(s, r) <= i < s.len() ==> consistency_rank(s[i].2) < r,
    decreases s.len(),
{
    lemma_severity_pos_bound(s, r);
    if s.len() > 0 {
        let last = s.len() - 1;
        if consistency_rank(s.last().2) < r {
            let t = s.drop_last();
            assert(severity_ordered(t)) by {
                assert forall|i: int, j: int| 0 <= i <= j < t.len() implies consistency_rank(t[i].2) >= consistency_rank(t[j].2) by {
                    assert(t[i] == s[i] && t[j] == s[j]);
                }
            }
            lemma_severity_pos_splits(t, r);
            assert forall|i: int| severity_pos(s, r) <= i < s.len() implies consistency_rank(s[i].2) < r by {
                if i < last {
                    assert(t[i] == s[i]);
                }
            }
            assert forall|i: int| 0 <= i < severity_pos(s, r) implies consistency_rank(s[i].2) >= r by {
                assert(t[i] == s[i]);
            }
        } else {
            assert forall|i: int| 0 <= i < severity_pos(s, r) implies consistency_rank(s[i].2) >= r by {
                assert(consistency_rank(s[i].2) >= consistency_rank(s[last].2));
            }
        }
    }
}

/// Ordering violations by severity keeps exactly the violations, most severe first.
pub proof fn lemma_most_severe_first_orders(s: Seq<ViolationView>)
    ensures
        most_severe_first(s).to_multiset() == s.to_multiset(),
        most_severe_first(s).len() == s.len(),
        severity_ordered(most_severe_first(s)),
    decreases s.len(),
{
    broadcast use vstd::seq_lib::group_to_multiset_ensures;
    if s.len() > 0 {
        let r = s.drop_last();
        let x = s.last();
        lemma_most_severe_first_orders(r);
        let t = most_severe_first(r);
        let k = consistency_rank(x.2);
        lemma_severity_pos_bound(t, k);
        lemma_severity_pos_splits(t, k);
        let p = severity_pos(t, k) as int;
        vstd::seq_lib::to_multiset_insert(t, p, x);
        assert(r.push(x) =~= s);
        let u = t.insert(p, x);
        assert forall|i: int, j: int| 0 <= i <= j < u.len() implies consistency_rank(u[i].2) >= consistency_rank(u[j].2) by {
            if i < p && j > p {
                assert(u[j] == t[j - 1]);
            } else if i > p {
                assert(u[i] == t[i - 1] && u[j] == t[j - 1]);
            } else if i == p && j > p {
                assert(u[j] == t[j - 1]);
            }
        }
    }
}

fn copy_violation(v: &ConsistencyViolation) -> (c: ConsistencyViolation)
    ensures
        violation_view(c) == violation_view(*v),
{
    ConsistencyViolation {
        violation_type: v.violation_type,
        description: v.description.clone(),
        severity: v.severity,
        entity_id: match &v.entity_id {
            Some(e) => Some(e.clone()),
            None => None,
        },
    }
}

/// Where a violation of severity rank `r` goes into the ordered violations `sorted`.
fn severity_point(sorted: &Vec<ConsistencyViolation>, r: u8) -> (pos: usize)
    ensures
        pos == severity_pos(violations_view(sorted@), r as nat),
{
    let ghost v = violations_view(sorted@);
    let mut j: usize = sorted.len();
    assert(v.subrange(0, j as int) =~= v);
    while j > 0 && sorted[j - 1].severity.rank() < r
        invariant
            j <= sorted@.len(),
            v == violations_view(sorted@),
            severity_pos(v, r as nat) == severity_pos(v.subrange(0, j as int), r as nat),
        decreases j,
    {
        proof {
            assert(v.subrange(0, j as int).drop_last() =~= v.subrange(0, j - 1));
        }
        j = j - 1;
    }
    j
}

/// Merges the violations found by several checks of a checkpoint over
/// `checkpoint_lsn_range` into one result: most severe first, violations of equal severity
/// in the order found; consistent when none is worse than a warning.
pub fn merge_violations(found: &Vec<ConsistencyViolation>, checkpoint_lsn_range: (u64, u64)) -> (r: ConsistencyResult)
    ensures
        violations_view(r.violations@) == most_severe_first(violations_view(found@)),
        r.is_consistent == tolerable(violations_view(r.violations@)),
        r.lsn_range == Some(checkpoint_lsn_range),
{
    let ghost fv = violations_view(found@);
    let mut sorted: Vec<ConsistencyViolation> = Vec::new();
    let mut i: usize = 0;
    while i < found.len()
        invariant
            i <= found@.len(),
            fv == violations_view(found@),
            violations_view(sorted@) == most_severe_first(fv.subrange(0, i as int)),
        decreases found@.len() - i,
    {
        proof {
            assert(fv.subrange(0, i + 1).drop_last() =~= fv.subrange(0, i as int));
        }
        let rank = found[i].severity.rank();
        let pos = severity_point(&sorted, rank);
        let ghost before = violations_view(sorted@);
        proof {
            lemma_severity_pos_bound(before, rank as nat);
        }
        sorted.insert(pos, copy_violation(&found[i]));
        proof {
            assert(violations_view(sorted@) =~= before.insert(pos as int, fv[i as int]));
        }
        i = i + 1;
    }
    proof {
        assert(fv.subrange(0, fv.len() as int) =~= fv);
    }
    let is_consistent = all_tolerable(&sorted);
    ConsistencyResult {
        is_consistent,
        violations: sorted,
        validation_timestamp: system_now(),
        lsn_range: Some(checkpoint_lsn_range),
    }
}

/// Queries over sets of violations.
pub struct ConsistencyUtils;

impl ConsistencyUtils {
    /// Whether some violation of `result` is an error or critical.
    pub fn requires_action(result: &ConsistencyResult) -> (b: bool)
        ensures
            b == needs_action(violations_view(result.violations@)),
    {
        let ghost v = violations_view(result.violations@);
        let mut i: usize = 0;
        while i < result.violations.len()
            invariant
                0 <= i <= result.violations@.len(),
                v == violations_view(result.violations@),
                forall|k: int| 0 <= k < i ==> consistency_rank(#[trigger] v[k].2) < 2,
            decreases result.violations@.len() - i,
        {
            if result.violations[i].severity.rank() >= 2 {
                assert(consistency_rank(v[i as int].2) >= 2);
                return true;
            }
            i = i + 1;
        }
        false
    }

    /// The most severe violation of `result`; among equally severe ones, the last.
    pub fn get_most_critical_violation(result: &ConsistencyResult) -> (r: Option<&ConsistencyViolation>)
        ensures
            result.violations@.len() == 0 ==> r is None,
            result.violations@.len() > 0 ==> (r matches Some(x) && exists|i: int|
                last_most_severe(violations_view(result.violations@), i) && violation_view(*x)
                    == violations_view(result.violations@)[i]),
    {
        let ghost v = violations_view(result.violations@);
        if result.violations.len() == 0 {
            return None;
        }
        let mut best: usize = 0;
        let mut best_rank: u8 = result.violations[0].severity.rank();
        let mut i: usize = 1;
        while i < result.violations.len()
            invariant
                1 <= i <= result.violations@.len(),
                v == violations_view(result.violations@),
                best < i,
                best_rank == consistency_rank(v[best as int].2),
                forall|j: int| 0 <= j < i ==> consistency_rank(#[trigger] v[j].2) <= best_rank,
                forall|j: int| best < j < i ==> consistency_rank(#[trigger] v[j].2) < best_rank,
            decreases result.violations@.len() - i,
        {
            let r = result.violations[i].severity.rank();
            if r >= best_rank {
                best = i;
                best_rank = r;
            }
            i = i + 1;
        }
        assert(last_most_severe(v, best as int));
        Some(&result.violations[best])
    }

    /// The violations at least as severe as `min_severity`, in order.
    pub fn filter_violations_by_severity(
        violations: &[ConsistencyViolation],
        min_severity: ConsistencySeverity,
    ) -> (r: Vec<&ConsistencyViolation>)
        ensures
            violation_refs_view(r@) == violations_view(violations@).filter(at_least(min_severity)),
    {
        let ghost v = violations_view(violations@);
        let ghost pred = at_least(min_severity);
        let min_rank = min_severity.rank();
        let mut out: Vec<&ConsistencyViolation> = Vec::new();
        let mut i: usize = 0;
        while i < violations.len()
            invariant
                0 <= i <= violations@.len(),
                v == violations_view(violations@),
                pred == at_least(min_severity),
                min_rank == consistency_rank(min_severity),
                violation_refs_view(out@) == v.subrange(0, i as int).filter(pred),
            decreases violations@.len() - i,
        {
            let x = &violations[i];
            proof {
                assert(v.subrange(0, i as int + 1) =~= v.subrange(0, i as int).push(v[i as int]));
                v.subrange(0, i as int).lemma_filter_push(v[i as int], pred);
            }
            let ghost before = out@;
            if x.severity.rank() >= min_rank {
                out.push(x);
                assert(violation_refs_view(out@) =~= violation_refs_view(before).push(v[i as int]));
            }
            i = i + 1;
        }
        assert(v.subrange(0, v.len() as int) =~= v);
        out
    }

    /// The violations grouped by kind, each group in the order of `violations`.
    pub fn group_violations_by_type(violations: &[ConsistencyViolation]) -> (g: ViolationGroups<'_>)
        ensures
            g.wf(),
            forall|t: ConsistencyViolationType| #[trigger] g.group(t) == violations_view(violations@).filter(of_type(t)),
    {
        let ghost v = violations_view(violations@);
        let mut groups: Vec<(ConsistencyViolationType, Vec<&ConsistencyViolation>)> = Vec::new();
        let mut i: usize = 0;
        while i < violations.len()
            invariant
                0 <= i <= violations@.len(),
                v == violations_view(violations@),
                forall|a: int, b: int| 0 <= a < b < groups@.len() ==> groups@[a].0 != groups@[b].0,
                forall|a: int| 0 <= a < groups@.len() ==> (#[trigger] groups@[a]).1@.len() > 0,
                forall|a: int| 0 <= a < groups@.len() ==> violation_refs_view((#[trigger] groups@[a]).1@)
                    == v.subrange(0, i as int).filter(of_type(groups@[a].0)),
                forall|t: ConsistencyViolationType| (forall|a: int| 0 <= a < groups@.len() ==> groups@[a].0 != t)
                    ==> #[trigger] v.subrange(0, i as int).filter(of_type(t)).len() == 0,
            decreases violations@.len() - i,
        {
            let x = &violations[i];
            let t = x.violation_type;
            proof {
                assert(v.subrange(0, i as int + 1) =~= v.subrange(0, i as int).push(v[i as int]));
                assert(v[i as int].0 == t);
            }
            let mut k: usize = 0;
            while k < groups.len()
                invariant
                    0 <= k <= groups@.len(),
                    forall|a: int| 0 <= a < k ==> groups@[a].0 != t,
                ensures
                    k <= groups@.len(),
                    forall|a: int| 0 <= a < k ==> groups@[a].0 != t,
                    k < groups@.len() ==> groups@[k as int].0 == t,
                decreases groups@.len() - k,
            {
                if groups[k].0 == t {
                    break;
                }
                k = k + 1;
            }
            let ghost g0 = groups@;
            if k < groups.len() {
                let (gt, mut members) = groups.remove(k);
                let ghost m0 = members@;
                members.push(x);
                groups.insert(k, (gt, members));
                proof {
                    assert(violation_refs_view(members@) =~= violation_refs_view(m0).push(v[i as int]));
                    assert forall|a: int| 0 <= a < groups@.len() implies violation_refs_view((#[trigger] groups@[a]).1@)
                        == v.subrange(0, i as int + 1).filter(of_type(groups@[a].0)) by {
                        v.subrange(0, i as int).lemma_filter_push(v[i as int], of_type(groups@[a].0));
                        if a != k {
                            assert(groups@[a] == g0[a]);
                        }
                    }
                    assert forall|a: int, b: int| 0 <= a < b < groups@.len() implies groups@[a].0 != groups@[b].0 by {
                        assert(groups@[a].0 == g0[a].0 && groups@[b].0 == g0[b].0);
                    }
                    assert forall|a: int| 0 <= a < groups@.len() implies (#[trigger] groups@[a]).1@.len() > 0 by {
                        if a != k {
                            assert(groups@[a] == g0[a]);
                        }
                    }
                    assert forall|u: ConsistencyViolationType| (forall|a: int| 0 <= a < groups@.len() ==> groups@[a].0 != u)
                        implies #[trigger] v.subrange(0, i as int + 1).filter(of_type(u)).len() == 0 by {
                        v.subrange(0, i as int).lemma_filter_push(v[i as int], of_type(u));
                        assert(groups@[k as int].0 == t);
                        assert forall|a: int| 0 <= a < g0.len() implies g0[a].0 != u by {
                            assert(groups@[a].0 == g0[a].0);
                        }
                    }
                }
            } else {
                let mut members: Vec<&ConsistencyViolation> = Vec::new();
                members.push(x);
                groups.push((t, members));
                proof {
                    v.subrange(0, i as int).lemma_filter_push(v[i as int], of_type(t));
                    assert(v.subrange(0, i as int).filter(of_type(t)).len() == 0);
                    assert(violation_refs_view(members@) =~= seq![v[i as int]]);
                    assert(v.subrange(0, i as int).filter(of_type(t)) =~= Seq::empty());
                    assert forall|a: int| 0 <= a < groups@.len() implies violation_refs_view((#[trigger] groups@[a]).1@)
                        == v.subrange(0, i as int + 1).filter(of_type(groups@[a].0)) by {
                        v.subrange(0, i as int).lemma_filter_push(v[i as int], of_type(groups@[a].0));
                        if a < g0.len() {
                            assert(groups@[a] == g0[a]);
                        } else {
                            assert(seq![v[i as int]] =~= Seq::<(ConsistencyViolationType, Seq<char>, ConsistencySeverity, Option<Seq<char>>)>::empty().push(v[i as int]));
                        }
                    }
                    assert forall|u: ConsistencyViolationType| (forall|a: int| 0 <= a < groups@.len() ==> groups@[a].0 != u)
                        implies #[trigger] v.subrange(0, i as int + 1).filter(of_type(u)).len() == 0 by {
                        v.subrange(0, i as int).lemma_filter_push(v[i as int], of_type(u));
                        assert(groups@[g0.len() as int].0 == t);
                        assert forall|a: int| 0 <= a < g0.len() implies g0[a].0 != u by {
                            assert(groups@[a].0 == g0[a].0);
                        }
                    }
                }
            }
            i = i + 1;
        }
        let g = ViolationGroups { groups };
        proof {
            assert(v.subrange(0, v.len() as int) =~= v);
            assert forall|t: ConsistencyViolationType| #[trigger] g.group(t) == v.filter(of_type(t)) by {
                let gs = g.groups@;
                if exists|i: int| 0 <= i < gs.len() && gs[i].0 == t {
                    let c = choose|i: int| 0 <= i < gs.len() && gs[i].0 == t;
                    assert(violation_refs_view(gs[c].1@) == v.filter(of_type(gs[c].0)));
                } else {
                    assert(v.filter(of_type(t)).len() == 0);
                    assert(v.filter(of_type(t)) =~= Seq::empty());
                }
            }
        }
        g
    }
}

} // verus!
