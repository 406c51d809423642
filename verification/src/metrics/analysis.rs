//! Categories of performance analysis: issue severities, recommendation priorities,
//! implementation difficulties and trend directions, with their orders.
use std::cmp::Ordering;
use vstd::prelude::*;
use vstd::std_specs::cmp::PartialOrdSpecImpl;

verus! {

/// How severe a performance issue is; more severe issues compare greater.
#[derive(Debug, Clone, Copy, PartialEq, Eq, Structural)]
pub enum IssueSeverity {
    Critical,
    High,
    Medium,
    Low,
    Info,
}

/// The weight of a severity: Critical 4, High 3, Medium 2, Low 1, Info 0.
pub open spec fn issue_weight(s: IssueSeverity) -> u8 {
    match s {
        IssueSeverity::Critical => 4,
        IssueSeverity::High => 3,
        IssueSeverity::Medium => 2,
        IssueSeverity::Low => 1,
        IssueSeverity::Info => 0,
    }
}

/// The comparison of two weights.
pub open spec fn compare_weights(a: u8, b: u8) -> Option<Ordering> {
    if a < b {
        Some(Ordering::Less)
    } else if a > b {
        Some(Ordering::Greater)
    } else {
        Some(Ordering::Equal)
    }
}

fn compare_u8(a: u8, b: u8) -> (r: Option<Ordering>)
    ensures
        r == compare_weights(a, b),
{
    if a < b {
        Some(Ordering::Less)
    } else if a > b {
        Some(Ordering::Greater)
    } else {
        Some(Ordering::Equal)
    }
}

impl IssueSeverity {
    /// The weight of this severity: Critical 4, High 3, Medium 2, Low 1, Info 0.
    pub fn weight(&self) -> (w: u8)
        ensures
            w == issue_weight(*self),
    {
        match self {
            IssueSeverity::Critical => 4,
            IssueSeverity::High => 3,
            IssueSeverity::Medium => 2,
            IssueSeverity::Low => 1,
            IssueSeverity::Info => 0,
        }
    }
}

impl PartialOrd for IssueSeverity {
    fn partial_cmp(&self, other: &Self) -> (r: Option<Ordering>) {
        compare_u8(self.weight(), other.weight())
    }
}

impl PartialOrdSpecImpl for IssueSeverity {
    open spec fn obeys_partial_cmp_spec() -> bool {
        true
    }

    open spec fn partial_cmp_spec(&self, other: &Self) -> Option<Ordering> {
        compare_weights(issue_weight(*self), issue_weight(*other))
    }
}

/// How soon a recommendation should be acted on; more urgent ones compare greater.
#[derive(Debug, Clone, Copy, PartialEq, Eq, Structural)]
pub enum RecommendationPriority {
    Immediate,
    High,
    Medium,
    Low,
    Optional,
}

/// The weight of a priority: Immediate 4, High 3, Medium 2, Low 1, Optional 0.
pub open spec fn priority_weight(p: RecommendationPriority) -> u8 {
    match p {
        RecommendationPriority::Immediate => 4,
        RecommendationPriority::High => 3,
        RecommendationPriority::Medium => 2,
        RecommendationPriority::Low => 1,
        RecommendationPriority::Optional => 0,
    }
}

impl RecommendationPriority {
    /// The weight of this priority: Immediate 4, High 3, Medium 2, Low 1, Optional 0.
    pub fn weight(&self) -> (w: u8)
        ensures
            w == priority_weight(*self),
    {
        match self {
            RecommendationPriority::Immediate => 4,
            RecommendationPriority::High => 3,
            RecommendationPriority::Medium => 2,
            RecommendationPriority::Low => 1,
            RecommendationPriority::Optional => 0,
        }
    }
}

impl PartialOrd for RecommendationPriority {
    fn partial_cmp(&self, other: &Self) -> (r: Option<Ordering>) {
        compare_u8(self.weight(), other.weight())
    }
}

impl PartialOrdSpecImpl for RecommendationPriority {
    open spec fn obeys_partial_cmp_spec() -> bool {
        true
    }

    open spec fn partial_cmp_spec(&self, other: &Self) -> Option<Ordering> {
        compare_weights(priority_weight(*self), priority_weight(*other))
    }
}

/// How hard an optimization is to carry out; in declaration order, easiest first.
#[derive(Debug, Clone, Copy, PartialEq, Eq, PartialOrd, Ord, Structural)]
pub enum ImplementationDifficulty {
    Easy,
    Moderate,
    Hard,
    Expert,
}

/// Direction of a performance trend.
#[derive(Debug, Clone, Copy, PartialEq, Eq, Structural)]
pub enum TrendDirection {
    Improving,
    Degrading,
    Stable,
    Volatile,
}

/// A performance issue found by analysis.
#[derive(Debug, Clone)]
pub struct PerformanceIssue {
    /// How severe it is.
    pub severity: IssueSeverity,
    /// Its category.
    pub category: String,
    /// What the issue is.
    pub description: String,
    /// Its impact.
    pub impact: String,
    /// When it was detected.
    pub timestamp: u64,
    /// The metrics concerned.
    pub related_metrics: Vec<String>,
}

/// An action recommended by analysis.
#[derive(Debug, Clone)]
pub struct Recommendation {
    /// How soon to act.
    pub priority: RecommendationPriority,
    /// Category of the action.
    pub category: String,
    /// The action.
    pub action: String,
    /// The expected benefit.
    pub benefit: String,
    /// Notes on carrying it out.
    pub notes: Vec<String>,
}

/// A recommendation as text: priority, category, action, benefit and notes.
pub type RecommendationText = (RecommendationPriority, Seq<char>, Seq<char>, Seq<char>, Seq<Seq<char>>);

/// The recommendation that an issue of `category` calls for, if any: latency issues call
/// for optimizing write patterns, memory issues for memory optimization.
pub open spec fn recommendation_for(category: Seq<char>) -> Option<RecommendationText> {
    if category == "Latency"@ {
        Some((
            RecommendationPriority::High,
            "Performance"@,
            "Optimize write patterns and batch operations"@,
            "Reduced write latency and improved throughput"@,
            seq!["Consider increasing batch sizes"@, "Review disk I/O patterns"@],
        ))
    } else if category == "Memory"@ {
        Some((
            RecommendationPriority::Medium,
            "Resources"@,
            "Implement memory optimization strategies"@,
            "Reduced memory footprint and improved stability"@,
            seq!["Review memory allocation patterns"@, "Consider memory pool implementation"@],
        ))
    } else {
        None
    }
}

/// The recommendations that the issues call for, in the order of the issues.
pub open spec fn recommendations_for(issues: Seq<PerformanceIssue>) -> Seq<RecommendationText>
    decreases issues.len(),
{
    if issues.len() == 0 {
        Seq::empty()
    } else {
        let rest = recommendations_for(issues.drop_last());
        match recommendation_for(issues.last().category@) {
            Some(r) => rest.push(r),
            None => rest,
        }
    }
}

/// Whether `r` is the recommendation `t`.
pub open spec fn reads_as(r: Recommendation, t: RecommendationText) -> bool {
    &&& r.priority == t.0
    &&& r.category@ == t.1
    &&& r.action@ == t.2
    &&& r.benefit@ == t.3
    &&& r.notes@.map_values(|n: String| n@) == t.4
}

fn make_recommendation(
    priority: RecommendationPriority,
    category: &str,
    action: &str,
    benefit: &str,
    note1: &str,
    note2: &str,
) -> (r: Recommendation)
    ensures
        reads_as(r, (priority, category@, action@, benefit@, seq![note1@, note2@])),
{
    let mut notes: Vec<String> = Vec::new();
    notes.push(String::from_str(note1));
    notes.push(String::from_str(note2));
    let r = Recommendation {
        priority,
        category: String::from_str(category),
        action: String::from_str(action),
        benefit: String::from_str(benefit),
        notes,
    };
    assert(r.notes@.map_values(|n: String| n@) =~= seq![note1@, note2@]);
    r
}

/// The recommendations that the issues call for, one for each latency or memory issue, in
/// the order of the issues.
pub fn generate_recommendations(issues: &Vec<PerformanceIssue>) -> (out: Vec<Recommendation>)
    ensures
        out@.len() == recommendations_for(issues@).len(),
        forall|i: int| 0 <= i < out@.len() ==> reads_as(#[trigger] out@[i], recommendations_for(issues@)[i]),
{
    let latency = String::from_str("Latency");
    let memory = String::from_str("Memory");
    let mut out: Vec<Recommendation> = Vec::new();
    let mut i: usize = 0;
    while i < issues.len()
        invariant
            i <= issues@.len(),
            latency@ == "Latency"@,
            memory@ == "Memory"@,
            out@.len() == recommendations_for(issues@.subrange(0, i as int)).len(),
            forall|k: int| 0 <= k < out@.len() ==> reads_as(#[trigger] out@[k], recommendations_for(issues@.subrange(0, i as int))[k]),
        decreases issues@.len() - i,
    {
        proof {
            assert(issues@.subrange(0, i + 1).drop_last() =~= issues@.subrange(0, i as int));
        }
        if issues[i].category == latency {
            let r = make_recommendation(
                RecommendationPriority::High,
                "Performance",
                "Optimize write patterns and batch operations",
                "Reduced write latency and improved throughput",
                "Consider increasing batch sizes",
                "Review disk I/O patterns",
            );
            out.push(r);
        } else if issues[i].category == memory {
            let r = make_recommendation(
                RecommendationPriority::Medium,
                "Resources",
                "Implement memory optimization strategies",
                "Reduced memory footprint and improved stability",
                "Review memory allocation patterns",
                "Consider memory pool implementation",
            );
            out.push(r);
        }
        i = i + 1;
    }
    proof {
        assert(issues@.subrange(0, issues@.len() as int) =~= issues@);
    }
    out
}

} // verus!
