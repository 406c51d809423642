//! The overall verdict of a checkpoint validation and the counts of its violations.
use vstd::prelude::*;
use crate::checkpoint::validation::consistency::{
    consistency_rank, violations_view, ConsistencyResult, ConsistencySeverity, ConsistencyViolationType,
};
use crate::checkpoint::validation::invariants::{invariants_view, V2InvariantResult, V2InvariantViolationType};
use crate::config::V2WALConfig;

verus! {

broadcast use vstd::seq_lib::group_seq_properties;

/// Overall outcome of a validation.
#[derive(Debug, Clone, Copy, PartialEq, Eq, Structural)]
pub enum ValidationStatus {
    /// Every check passed.
    Passed,
    /// Passed, with warnings.
    PassedWithWarnings,
    /// Some check failed.
    Failed,
    /// Some check failed critically.
    CriticalFailure,
    /// Not finished.
    Incomplete,
}

/// The consistency violations of an optional result, as plain values (none without a result).
pub open spec fn consistency_part(r: Option<ConsistencyResult>) -> Seq<
    (ConsistencyViolationType, Seq<char>, ConsistencySeverity, Option<Seq<char>>),
> {
    match r {
        Some(c) => violations_view(c.violations@),
        None => Seq::empty(),
    }
}

/// The invariant violations of an optional result, as plain values (none without a result).
pub open spec fn invariant_part(r: Option<V2InvariantResult>) -> Seq<
    (V2InvariantViolationType, Seq<char>, Option<Seq<char>>, Option<Seq<char>>, bool),
> {
    match r {
        Some(i) => invariants_view(i.violations@),
        None => Seq::empty(),
    }
}

/// Whether a consistency violation has severity `s`.
pub open spec fn with_severity(s: ConsistencySeverity) -> spec_fn(
    (ConsistencyViolationType, Seq<char>, ConsistencySeverity, Option<Seq<char>>),
) -> bool {
    |v: (ConsistencyViolationType, Seq<char>, ConsistencySeverity, Option<Seq<char>>)| v.2 == s
}

/// Whether an invariant violation is marked critical (`c`) or not.
pub open spec fn with_critical(c: bool) -> spec_fn(
    (V2InvariantViolationType, Seq<char>, Option<Seq<char>>, Option<Seq<char>>, bool),
) -> bool {
    |v: (V2InvariantViolationType, Seq<char>, Option<Seq<char>>, Option<Seq<char>>, bool)| v.4 == c
}

/// The verdict over consistency violations `c` and invariant violations `i`: a critical
/// consistency violation or a critical invariant violation fails critically; else a
/// consistency error or a non-critical invariant violation fails; else a warning or a
/// minor consistency violation passes with warnings; else the validation passes.
pub open spec fn status_of(
    c: Seq<(ConsistencyViolationType, Seq<char>, ConsistencySeverity, Option<Seq<char>>)>,
    i: Seq<(V2InvariantViolationType, Seq<char>, Option<Seq<char>>, Option<Seq<char>>, bool)>,
) -> ValidationStatus {
    if c.filter(with_severity(ConsistencySeverity::Critical)).len() > 0 || i.filter(with_critical(true)).len() > 0 {
        ValidationStatus::CriticalFailure
    } else if c.filter(with_severity(ConsistencySeverity::Error)).len() > 0 || i.filter(with_critical(false)).len() > 0 {
        ValidationStatus::Failed
    } else if c.filter(with_severity(ConsistencySeverity::Warning)).len() > 0
        || c.filter(with_severity(ConsistencySeverity::Minor)).len() > 0 {
        ValidationStatus::PassedWithWarnings
    } else {
        ValidationStatus::Passed
    }
}

/// How many violations a validation found, by severity.
#[derive(Debug, Clone, Copy, PartialEq, Eq, Structural)]
pub struct ViolationCounts {
    /// All violations.
    pub total_violations: usize,
    /// Critical consistency violations and critical invariant violations.
    pub critical_violations: usize,
    /// Consistency errors and non-critical invariant violations.
    pub error_violations: usize,
    /// Consistency warnings.
    pub warning_violations: usize,
    /// Minor consistency violations.
    pub info_violations: usize,
}

fn count_consistency(r: &Option<ConsistencyResult>, s: ConsistencySeverity) -> (n: usize)
    ensures
        n == consistency_part(*r).filter(with_severity(s)).len(),
{
    match r {
        None => {
            assert(Seq::<(ConsistencyViolationType, Seq<char>, ConsistencySeverity, Option<Seq<char>>)>::empty().filter(
                with_severity(s),
            ) =~= Seq::empty());
            0
        },
        Some(c) => {
            let ghost v = violations_view(c.violations@);
            let ghost p = with_severity(s);
            let mut n: usize = 0;
            let mut k: usize = 0;
            while k < c.violations.len()
                invariant
                    0 <= k <= c.violations@.len(),
                    v == violations_view(c.violations@),
                    p == with_severity(s),
                    n == v.subrange(0, k as int).filter(p).len(),
                    n <= k,
                decreases c.violations@.len() - k,
            {
                proof {
                    assert(v.subrange(0, k as int + 1) =~= v.subrange(0, k as int).push(v[k as int]));
                    v.subrange(0, k as int).lemma_filter_push(v[k as int], p);
                }
                if c.violations[k].severity.rank() == severity_rank_of(s) {
                    n = n + 1;
                }
                k = k + 1;
            }
            assert(v.subrange(0, v.len() as int) =~= v);
            n
        },
    }
}

fn severity_rank_of(s: ConsistencySeverity) -> (r: u8)
    ensures
        r == consistency_rank(s),
        forall|t: ConsistencySeverity| consistency_rank(t) == r ==> t == s,
{
    s.rank()
}

fn count_invariants(r: &Option<V2InvariantResult>, critical: bool) -> (n: usize)
    ensures
        n == invariant_part(*r).filter(with_critical(critical)).len(),
{
    match r {
        None => {
            assert(Seq::<(V2InvariantViolationType, Seq<char>, Option<Seq<char>>, Option<Seq<char>>, bool)>::empty().filter(
                with_critical(critical),
            ) =~= Seq::empty());
            0
        },
        Some(res) => {
            let ghost v = invariants_view(res.violations@);
            let ghost p = with_critical(critical);
            let mut n: usize = 0;
            let mut k: usize = 0;
            while k < res.violations.len()
                invariant
                    0 <= k <= res.violations@.len(),
                    v == invariants_view(res.violations@),
                    p == with_critical(critical),
                    n == v.subrange(0, k as int).filter(p).len(),
                    n <= k,
                decreases res.violations@.len() - k,
            {
                proof {
                    assert(v.subrange(0, k as int + 1) =~= v.subrange(0, k as int).push(v[k as int]));
                    v.subrange(0, k as int).lemma_filter_push(v[k as int], p);
                }
                if res.violations[k].critical == critical {
                    n = n + 1;
                }
                k = k + 1;
            }
            assert(v.subrange(0, v.len() as int) =~= v);
            n
        },
    }
}

/// Builds validation verdicts and reports.
pub struct CheckpointValidationReporter {
    config: V2WALConfig,
}

impl CheckpointValidationReporter {
    /// A reporter for the log of `config`.
    pub fn new(config: V2WALConfig) -> (r: Self)
        ensures
            r.config() == config,
    {
        CheckpointValidationReporter { config }
    }

    /// The configuration of the log.
    pub closed spec fn config(&self) -> V2WALConfig {
        self.config
    }

    /// The verdict over the violations of the consistency and invariant results present.
    pub fn determine_validation_status(
        &self,
        consistency_result: &Option<ConsistencyResult>,
        v2_invariant_result: &Option<V2InvariantResult>,
    ) -> (s: ValidationStatus)
        ensures
            s == status_of(consistency_part(*consistency_result), invariant_part(*v2_invariant_result)),
    {
        let critical = count_consistency(consistency_result, ConsistencySeverity::Critical);
        let errors = count_consistency(consistency_result, ConsistencySeverity::Error);
        let warnings = count_consistency(consistency_result, ConsistencySeverity::Warning);
        let minor = count_consistency(consistency_result, ConsistencySeverity::Minor);
        let inv_critical = count_invariants(v2_invariant_result, true);
        let inv_other = count_invariants(v2_invariant_result, false);
        if critical > 0 || inv_critical > 0 {
            ValidationStatus::CriticalFailure
        } else if errors > 0 || inv_other > 0 {
            ValidationStatus::Failed
        } else if warnings > 0 || minor > 0 {
            ValidationStatus::PassedWithWarnings
        } else {
            ValidationStatus::Passed
        }
    }

    /// The counts of the violations of the results present, by severity.
    pub fn count_violations(
        &self,
        consistency_result: &Option<ConsistencyResult>,
        v2_invariant_result: &Option<V2InvariantResult>,
    ) -> (c: ViolationCounts)
        requires
            consistency_part(*consistency_result).len() + invariant_part(*v2_invariant_result).len() <= usize::MAX,
        ensures
            ({
                let cv = consistency_part(*consistency_result);
                let iv = invariant_part(*v2_invariant_result);
                &&& c.total_violations == cv.len() + iv.len()
                &&& c.critical_violations == cv.filter(with_severity(ConsistencySeverity::Critical)).len()
                    + iv.filter(with_critical(true)).len()
                &&& c.error_violations == cv.filter(with_severity(ConsistencySeverity::Error)).len()
                    + iv.filter(with_critical(false)).len()
                &&& c.warning_violations == cv.filter(with_severity(ConsistencySeverity::Warning)).len()
                &&& c.info_violations == cv.filter(with_severity(ConsistencySeverity::Minor)).len()
            }),
    {
        let ghost cv = consistency_part(*consistency_result);
        let ghost iv = invariant_part(*v2_invariant_result);
        let critical = count_consistency(consistency_result, ConsistencySeverity::Critical);
        let errors = count_consistency(consistency_result, ConsistencySeverity::Error);
        let warnings = count_consistency(consistency_result, ConsistencySeverity::Warning);
        let minor = count_consistency(consistency_result, ConsistencySeverity::Minor);
        let inv_critical = count_invariants(v2_invariant_result, true);
        let inv_other = count_invariants(v2_invariant_result, false);
        let nc: usize = match consistency_result {
            Some(c) => c.violations.len(),
            None => 0,
        };
        let ni: usize = match v2_invariant_result {
            Some(i) => i.violations.len(),
            None => 0,
        };
        proof {
            lemma_severity_partition(cv);
            lemma_critical_partition(iv);
        }
        ViolationCounts {
            total_violations: nc + ni,
            critical_violations: critical + inv_critical,
            error_violations: errors + inv_other,
            warning_violations: warnings,
            info_violations: minor,
        }
    }
}

/// The violations of each severity add up to all of them.
proof fn lemma_severity_partition(s: Seq<(ConsistencyViolationType, Seq<char>, ConsistencySeverity, Option<Seq<char>>)>)
    ensures
        s.filter(with_severity(ConsistencySeverity::Critical)).len() + s.filter(with_severity(ConsistencySeverity::Error)).len()
            + s.filter(with_severity(ConsistencySeverity::Warning)).len() + s.filter(with_severity(ConsistencySeverity::Minor)).len()
            == s.len(),
    decreases s.len(),
{
    if s.len() > 0 {
        let d = s.drop_last();
        lemma_severity_partition(d);
        assert(s =~= d.push(s.last()));
        d.lemma_filter_push(s.last(), with_severity(ConsistencySeverity::Critical));
        d.lemma_filter_push(s.last(), with_severity(ConsistencySeverity::Error));
        d.lemma_filter_push(s.last(), with_severity(ConsistencySeverity::Warning));
        d.lemma_filter_push(s.last(), with_severity(ConsistencySeverity::Minor));
    }
}

/// Critical and non-critical violations add up to all of them.
proof fn lemma_critical_partition(s: Seq<(V2InvariantViolationType, Seq<char>, Option<Seq<char>>, Option<Seq<char>>, bool)>)
    ensures
        s.filter(with_critical(true)).len() + s.filter(with_critical(false)).len() == s.len(),
    decreases s.len(),
{
    if s.len() > 0 {
        let d = s.drop_last();
        lemma_critical_partition(d);
        assert(s =~= d.push(s.last()));
        d.lemma_filter_push(s.last(), with_critical(true));
        d.lemma_filter_push(s.last(), with_critical(false));
    }
}

/// Utilities over validation reports.
pub struct ValidationReportUtils;

} // verus!
