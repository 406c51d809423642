//! Checkpoint strategies: when a checkpoint is due, how a strategy is validated, and
//! what the observed log metrics recommend.
//!
//! The evaluation works on observed values (elapsed time, log size, committed LSN).
//! Reading them from disk is left to the caller; each observation is a `Result` whose
//! error text is the reason the value could not be read.
use vstd::prelude::*;
use crate::checkpoint::constants::strategies::{
    ADAPTIVE_MAX_TX_MULTIPLIER, ADAPTIVE_MAX_WAL_SIZE_MULTIPLIER, ADAPTIVE_MIN_INTERVAL_SECONDS,
    MAX_SIZE_THRESHOLD, MAX_TIME_INTERVAL_SECONDS, MAX_TRANSACTION_THRESHOLD, MIN_SIZE_THRESHOLD,
    MIN_TIME_INTERVAL_SECONDS, MIN_TRANSACTION_THRESHOLD,
};
use crate::checkpoint::constants::{
    DEFAULT_SIZE_THRESHOLD, DEFAULT_TIME_INTERVAL_SECONDS, DEFAULT_TRANSACTION_THRESHOLD,
};
use crate::checkpoint::errors::{made_by, system_now, CheckpointError, CheckpointErrorKind, CheckpointResult};
use crate::config::V2WALConfig;
use crate::duration::{duration_text, Duration};
use crate::text::{decimal, push_decimal};

verus! {

/// When checkpoints are triggered.
#[derive(Debug, Clone, Copy, PartialEq, Eq, Structural)]
pub enum CheckpointStrategy {
    /// When the log reaches this many bytes.
    SizeThreshold(u64),
    /// After this many transactions.
    TransactionCount(u64),
    /// After this much time.
    TimeInterval(Duration),
    /// When any of the three limits is reached.
    Adaptive {
        /// Time after which a checkpoint is due.
        min_interval: Duration,
        /// Log size after which a checkpoint is due.
        max_wal_size: u64,
        /// Transaction count after which a checkpoint is due.
        max_transactions: u64,
    },
}

impl Default for CheckpointStrategy {
    /// The adaptive strategy with the default interval, size and transaction limits.
    fn default() -> (s: Self)
        ensures
            s matches CheckpointStrategy::Adaptive { min_interval, max_wal_size, max_transactions }
                && min_interval@ == DEFAULT_TIME_INTERVAL_SECONDS * 1_000_000_000
                && max_wal_size == DEFAULT_SIZE_THRESHOLD
                && max_transactions == DEFAULT_TRANSACTION_THRESHOLD,
    {
        CheckpointStrategy::Adaptive {
            min_interval: Duration::from_secs(DEFAULT_TIME_INTERVAL_SECONDS),
            max_wal_size: DEFAULT_SIZE_THRESHOLD,
            max_transactions: DEFAULT_TRANSACTION_THRESHOLD,
        }
    }
}

/// Why and when a checkpoint was triggered.
#[derive(Debug, Clone)]
pub struct CheckpointTrigger {
    /// Name of the strategy that fired.
    pub strategy_type: String,
    /// What exceeded its limit.
    pub reason: String,
    /// Log size when triggered (0 when not observed).
    pub wal_size: u64,
    /// Transactions since the last checkpoint (0 when not observed).
    pub transaction_count: u64,
    /// Time since the last checkpoint (zero when not observed).
    pub time_since_last_checkpoint: Duration,
    /// When the trigger was raised.
    pub timestamp: std::time::SystemTime,
}

/// Checks strategy settings against the allowed bounds.
pub struct StrategyValidator;

/// `what`, the decimal `value`, `relation`, and the decimal `bound`.
pub open spec fn bound_text(what: Seq<char>, value: u64, relation: Seq<char>, bound: u64) -> Seq<char> {
    what + decimal(value as nat) + relation + decimal(bound as nat)
}

/// `what`, the rendering of `value`, `relation`, and the rendering of `bound`.
pub open spec fn span_text(what: Seq<char>, value: nat, relation: Seq<char>, bound: nat) -> Seq<char> {
    what + duration_text(value) + relation + duration_text(bound)
}

/// Nanoseconds in `secs` seconds.
pub open spec fn secs_nanos(secs: u64) -> nat {
    (secs * 1_000_000_000) as nat
}

/// The message of the first bound that `s` breaks, or `None` when it is within all bounds.
pub open spec fn strategy_fault(s: CheckpointStrategy) -> Option<Seq<char>> {
    match s {
        CheckpointStrategy::SizeThreshold(m) => if m < MIN_SIZE_THRESHOLD {
            Some(bound_text("Size threshold "@, m, " below minimum "@, MIN_SIZE_THRESHOLD))
        } else if m > MAX_SIZE_THRESHOLD {
            Some(bound_text("Size threshold "@, m, " above maximum "@, MAX_SIZE_THRESHOLD))
        } else {
            None
        },
        CheckpointStrategy::TransactionCount(m) => if m < MIN_TRANSACTION_THRESHOLD {
            Some(bound_text("Transaction threshold "@, m, " below minimum "@, MIN_TRANSACTION_THRESHOLD))
        } else if m > MAX_TRANSACTION_THRESHOLD {
            Some(bound_text("Transaction threshold "@, m, " above maximum "@, MAX_TRANSACTION_THRESHOLD))
        } else {
            None
        },
        CheckpointStrategy::TimeInterval(i) => if i@ < secs_nanos(MIN_TIME_INTERVAL_SECONDS) {
            Some(span_text("Time interval "@, i@, " below minimum "@, secs_nanos(MIN_TIME_INTERVAL_SECONDS)))
        } else if i@ > secs_nanos(MAX_TIME_INTERVAL_SECONDS) {
            Some(span_text("Time interval "@, i@, " above maximum "@, secs_nanos(MAX_TIME_INTERVAL_SECONDS)))
        } else {
            None
        },
        CheckpointStrategy::Adaptive { min_interval, max_wal_size, max_transactions } =>
            if min_interval@ < secs_nanos(ADAPTIVE_MIN_INTERVAL_SECONDS) {
                Some(span_text(
                    "Adaptive min interval "@,
                    min_interval@,
                    " below minimum "@,
                    secs_nanos(ADAPTIVE_MIN_INTERVAL_SECONDS),
                ))
            } else if max_wal_size < MIN_SIZE_THRESHOLD {
                Some(bound_text("Adaptive max WAL size "@, max_wal_size, " below minimum "@, MIN_SIZE_THRESHOLD))
            } else if max_wal_size > MAX_SIZE_THRESHOLD * ADAPTIVE_MAX_WAL_SIZE_MULTIPLIER {
                Some("Adaptive max WAL size "@ + decimal(max_wal_size as nat) + " too large"@)
            } else if max_transactions < MIN_TRANSACTION_THRESHOLD {
                Some(bound_text(
                    "Adaptive max transactions "@,
                    max_transactions,
                    " below minimum "@,
                    MIN_TRANSACTION_THRESHOLD,
                ))
            } else if max_transactions > MAX_TRANSACTION_THRESHOLD * ADAPTIVE_MAX_TX_MULTIPLIER {
                Some("Adaptive max transactions "@ + decimal(max_transactions as nat) + " too large"@)
            } else {
                None
            },
    }
}

/// The default strategy is within all bounds, so validation accepts it.
pub proof fn lemma_default_strategy_is_valid(s: CheckpointStrategy)
    requires
        s matches CheckpointStrategy::Adaptive { min_interval, max_wal_size, max_transactions }
            && min_interval@ == DEFAULT_TIME_INTERVAL_SECONDS * 1_000_000_000
            && max_wal_size == DEFAULT_SIZE_THRESHOLD
            && max_transactions == DEFAULT_TRANSACTION_THRESHOLD,
    ensures
        strategy_fault(s) is None,
{
}

fn bound_message(what: &str, value: u64, relation: &str, bound: u64) -> (s: String)
    ensures
        s@ == bound_text(what@, value, relation@, bound),
{
    let mut s = String::from_str(what);
    push_decimal(&mut s, value);
    s.append(relation);
    push_decimal(&mut s, bound);
    s
}

fn span_message(what: &str, value: &Duration, relation: &str, bound: &Duration) -> (s: String)
    ensures
        s@ == span_text(what@, value@, relation@, bound@),
{
    let mut s = String::from_str(what);
    let v = value.debug_text();
    s.append(v.as_str());
    s.append(relation);
    let b = bound.debug_text();
    s.append(b.as_str());
    s
}

fn too_large_message(what: &str, value: u64) -> (s: String)
    ensures
        s@ == what@ + decimal(value as nat) + " too large"@,
{
    let mut s = String::from_str(what);
    push_decimal(&mut s, value);
    proof { reveal_strlit(" too large"); }
    s.append(" too large");
    s
}

impl StrategyValidator {
    /// Accepts `strategy` when each of its settings lies within the allowed bounds; else
    /// fails with a configuration error naming the first bound broken.
    pub fn validate_strategy(strategy: &CheckpointStrategy) -> (r: CheckpointResult<()>)
        ensures
            match strategy_fault(*strategy) {
                None => r is Ok,
                Some(m) => r matches Err(e) && made_by(e, CheckpointErrorKind::Configuration, m),
            },
    {
        let msg: Option<String> = match strategy {
            CheckpointStrategy::SizeThreshold(m) => {
                if *m < MIN_SIZE_THRESHOLD {
                    Some(bound_message("Size threshold ", *m, " below minimum ", MIN_SIZE_THRESHOLD))
                } else if *m > MAX_SIZE_THRESHOLD {
                    Some(bound_message("Size threshold ", *m, " above maximum ", MAX_SIZE_THRESHOLD))
                } else {
                    None
                }
            },
            CheckpointStrategy::TransactionCount(m) => {
                if *m < MIN_TRANSACTION_THRESHOLD {
                    Some(bound_message("Transaction threshold ", *m, " below minimum ", MIN_TRANSACTION_THRESHOLD))
                } else if *m > MAX_TRANSACTION_THRESHOLD {
                    Some(bound_message("Transaction threshold ", *m, " above maximum ", MAX_TRANSACTION_THRESHOLD))
                } else {
                    None
                }
            },
            CheckpointStrategy::TimeInterval(i) => {
                let lo = Duration::from_secs(MIN_TIME_INTERVAL_SECONDS);
                let hi = Duration::from_secs(MAX_TIME_INTERVAL_SECONDS);
                if i.lt(&lo) {
                    Some(span_message("Time interval ", i, " below minimum ", &lo))
                } else if hi.lt(i) {
                    Some(span_message("Time interval ", i, " above maximum ", &hi))
                } else {
                    None
                }
            },
            CheckpointStrategy::Adaptive { min_interval, max_wal_size, max_transactions } => {
                let lo = Duration::from_secs(ADAPTIVE_MIN_INTERVAL_SECONDS);
                if min_interval.lt(&lo) {
                    Some(span_message("Adaptive min interval ", min_interval, " below minimum ", &lo))
                } else if *max_wal_size < MIN_SIZE_THRESHOLD {
                    Some(bound_message("Adaptive max WAL size ", *max_wal_size, " below minimum ", MIN_SIZE_THRESHOLD))
                } else if *max_wal_size > MAX_SIZE_THRESHOLD * ADAPTIVE_MAX_WAL_SIZE_MULTIPLIER {
                    Some(too_large_message("Adaptive max WAL size ", *max_wal_size))
                } else if *max_transactions < MIN_TRANSACTION_THRESHOLD {
                    Some(bound_message(
                        "Adaptive max transactions ",
                        *max_transactions,
                        " below minimum ",
                        MIN_TRANSACTION_THRESHOLD,
                    ))
                } else if *max_transactions > MAX_TRANSACTION_THRESHOLD * ADAPTIVE_MAX_TX_MULTIPLIER {
                    Some(too_large_message("Adaptive max transactions ", *max_transactions))
                } else {
                    None
                }
            },
        };
        match msg {
            Some(m) => Err(CheckpointError::configuration(m.as_str())),
            None => Ok(()),
        }
    }

    /// Every strategy is suitable for V2 workloads: always succeeds.
    pub fn validate_v2_suitability(strategy: &CheckpointStrategy) -> (r: CheckpointResult<()>)
        ensures
            r is Ok,
    {
        match strategy {
            CheckpointStrategy::SizeThreshold(_) => Ok(()),
            CheckpointStrategy::TransactionCount(_) => Ok(()),
            CheckpointStrategy::TimeInterval(_) => Ok(()),
            CheckpointStrategy::Adaptive { .. } => Ok(()),
        }
    }
}

/// Transactions since the checkpoint at `checkpointed`, with `committed` the last committed
/// LSN (zero when the checkpoint is ahead).
pub open spec fn pending(committed: u64, checkpointed: u64) -> u64 {
    if committed >= checkpointed {
        (committed - checkpointed) as u64
    } else {
        0
    }
}

/// The error that evaluating `s` on the given observations ends with, if any: an invalid
/// strategy first, then the first observation that the strategy needs and that could not
/// be read (elapsed time, then log size, then committed LSN).
pub open spec fn evaluation_fault(
    s: CheckpointStrategy,
    elapsed: Result<Duration, String>,
    wal_size: Result<u64, String>,
    committed_lsn: Result<u64, String>,
) -> Option<(CheckpointErrorKind, Seq<char>)> {
    match strategy_fault(s) {
        Some(m) => Some((CheckpointErrorKind::Configuration, m)),
        None => {
            let time_fault = match elapsed {
                Err(t) => Some((CheckpointErrorKind::State, "Invalid checkpoint time: "@ + t@)),
                Ok(_) => None,
            };
            let size_fault = match wal_size {
                Err(t) => Some((CheckpointErrorKind::Io, "Failed to get WAL file metadata: "@ + t@)),
                Ok(_) => None,
            };
            let lsn_fault = match committed_lsn {
                Err(t) => Some((CheckpointErrorKind::V2Integration, "Failed to open WAL reader: "@ + t@)),
                Ok(_) => None,
            };
            match s {
                CheckpointStrategy::SizeThreshold(_) => size_fault,
                CheckpointStrategy::TransactionCount(_) => lsn_fault,
                CheckpointStrategy::TimeInterval(_) => time_fault,
                CheckpointStrategy::Adaptive { .. } => if time_fault is Some {
                    time_fault
                } else if size_fault is Some {
                    size_fault
                } else {
                    lsn_fault
                },
            }
        },
    }
}

/// The reasons of the adaptive strategy, joined by "; ".
pub open spec fn adaptive_reason(
    min_interval: nat,
    max_wal_size: u64,
    max_transactions: u64,
    elapsed: nat,
    wal_size: u64,
    tx: u64,
) -> Seq<char> {
    let parts = (if elapsed >= min_interval {
        seq![span_text("Time interval "@, elapsed, " exceeded minimum "@, min_interval)]
    } else {
        Seq::empty()
    }) + (if wal_size >= max_wal_size {
        seq![bound_text("WAL size "@, wal_size, " exceeded maximum "@, max_wal_size)]
    } else {
        Seq::empty()
    }) + (if tx >= max_transactions {
        seq![bound_text("Transaction count "@, tx, " exceeded maximum "@, max_transactions)]
    } else {
        Seq::empty()
    });
    joined(parts)
}

/// The texts of `parts`, separated by "; ".
pub open spec fn joined(parts: Seq<Seq<char>>) -> Seq<char>
    decreases parts.len(),
{
    if parts.len() == 0 {
        Seq::empty()
    } else if parts.len() == 1 {
        parts[0]
    } else {
        joined(parts.drop_last()) + "; "@ + parts.last()
    }
}

/// Whether `t` is the trigger for strategy type `kind`, with `reason`, the given metrics,
/// raised at `now`.
pub open spec fn trigger_is(
    t: CheckpointTrigger,
    kind: Seq<char>,
    reason: Seq<char>,
    wal_size: u64,
    tx: u64,
    elapsed: nat,
    now: std::time::SystemTime,
) -> bool {
    &&& t.strategy_type@ == kind
    &&& t.reason@ == reason
    &&& t.wal_size == wal_size
    &&& t.transaction_count == tx
    &&& t.time_since_last_checkpoint@ == elapsed
    &&& t.timestamp == now
}

/// Whether `r` is the outcome of evaluating `s` on observations that could all be read,
/// with `checkpointed` the last checkpointed LSN and `now` the evaluation time.
pub open spec fn evaluation_outcome(
    s: CheckpointStrategy,
    elapsed: Duration,
    wal_size: u64,
    committed_lsn: u64,
    checkpointed: u64,
    now: std::time::SystemTime,
    r: (bool, Option<CheckpointTrigger>),
) -> bool {
    let tx = pending(committed_lsn, checkpointed);
    match s {
        CheckpointStrategy::SizeThreshold(m) => if wal_size >= m {
            r.0 && (r.1 matches Some(t) && trigger_is(
                t,
                "SizeThreshold"@,
                "WAL size "@ + decimal(wal_size as nat) + " bytes exceeded threshold "@ + decimal(m as nat),
                wal_size,
                0,
                0,
                now,
            ))
        } else {
            !r.0 && r.1 is None
        },
        CheckpointStrategy::TransactionCount(m) => if tx >= m {
            r.0 && (r.1 matches Some(t) && trigger_is(
                t,
                "TransactionCount"@,
                bound_text("Transaction count "@, tx, " exceeded threshold "@, m),
                0,
                tx,
                0,
                now,
            ))
        } else {
            !r.0 && r.1 is None
        },
        CheckpointStrategy::TimeInterval(i) => if elapsed@ >= i@ {
            r.0 && (r.1 matches Some(t) && trigger_is(
                t,
                "TimeInterval"@,
                span_text("Time interval "@, elapsed@, " exceeded threshold "@, i@),
                0,
                0,
                elapsed@,
                now,
            ))
        } else {
            !r.0 && r.1 is None
        },
        CheckpointStrategy::Adaptive { min_interval, max_wal_size, max_transactions } =>
            if elapsed@ >= min_interval@ || wal_size >= max_wal_size || tx >= max_transactions {
                r.0 && (r.1 matches Some(t) && trigger_is(
                    t,
                    "Adaptive"@,
                    adaptive_reason(min_interval@, max_wal_size, max_transactions, elapsed@, wal_size, tx),
                    wal_size,
                    tx,
                    elapsed@,
                    now,
                ))
            } else {
                !r.0 && r.1 is None
            },
    }
}

/// Whether `r` is what evaluating `s` on the given observations gives.
pub open spec fn evaluates_to(
    s: CheckpointStrategy,
    elapsed: Result<Duration, String>,
    wal_size: Result<u64, String>,
    committed_lsn: Result<u64, String>,
    checkpointed: u64,
    now: std::time::SystemTime,
    r: CheckpointResult<(bool, Option<CheckpointTrigger>)>,
) -> bool {
    match evaluation_fault(s, elapsed, wal_size, committed_lsn) {
        Some((k, m)) => r matches Err(e) && made_by(e, k, m),
        None => r matches Ok(v) && evaluation_outcome(
            s,
            elapsed->Ok_0,
            wal_size->Ok_0,
            committed_lsn->Ok_0,
            checkpointed,
            now,
            v,
        ),
    }
}

/// An adaptive strategy within its bounds, evaluated on observations that could all be
/// read, fires exactly when any one of its limits is reached: the time since the last
/// checkpoint reaches its minimum interval, or the log reaches its maximum size, or the
/// transactions since the last checkpoint reach their maximum. It then raises an "Adaptive"
/// trigger with the observed size, transaction count and elapsed time; when only the time
/// limit is reached, the reason names the time interval alone.
pub proof fn lemma_adaptive_fires_on_any_limit(
    min_interval: Duration,
    max_wal_size: u64,
    max_transactions: u64,
    elapsed: Duration,
    wal_size: u64,
    committed_lsn: u64,
    checkpointed_lsn: u64,
    now: std::time::SystemTime,
    r: CheckpointResult<(bool, Option<CheckpointTrigger>)>,
)
    requires
        min_interval@ >= ADAPTIVE_MIN_INTERVAL_SECONDS * 1_000_000_000,
        MIN_SIZE_THRESHOLD <= max_wal_size <= MAX_SIZE_THRESHOLD * ADAPTIVE_MAX_WAL_SIZE_MULTIPLIER,
        MIN_TRANSACTION_THRESHOLD <= max_transactions <= MAX_TRANSACTION_THRESHOLD * ADAPTIVE_MAX_TX_MULTIPLIER,
        evaluates_to(
            CheckpointStrategy::Adaptive { min_interval, max_wal_size, max_transactions },
            Ok::<Duration, String>(elapsed),
            Ok::<u64, String>(wal_size),
            Ok::<u64, String>(committed_lsn),
            checkpointed_lsn,
            now,
            r,
        ),
    ensures
        r matches Ok(v) && {
            &&& v.0 <==> (elapsed@ >= min_interval@ || wal_size >= max_wal_size
                || committed_lsn >= checkpointed_lsn + max_transactions)
            &&& v.0 <==> v.1 is Some
            &&& v.1 matches Some(t) ==> {
                &&& t.strategy_type@ == "Adaptive"@
                &&& t.wal_size == wal_size
                &&& t.time_since_last_checkpoint@ == elapsed@
                &&& t.timestamp == now
            }
            &&& (elapsed@ >= min_interval@ && wal_size < max_wal_size
                && committed_lsn < checkpointed_lsn + max_transactions) ==> (v.1 matches Some(t)
                && t.reason@ == "Time interval "@ + duration_text(elapsed@) + " exceeded minimum "@
                + duration_text(min_interval@))
        },
{
    let s = CheckpointStrategy::Adaptive { min_interval, max_wal_size, max_transactions };
    assert(secs_nanos(ADAPTIVE_MIN_INTERVAL_SECONDS) == ADAPTIVE_MIN_INTERVAL_SECONDS * 1_000_000_000);
    assert(strategy_fault(s) is None);
    let parts = seq![span_text("Time interval "@, elapsed@, " exceeded minimum "@, min_interval@)];
    if elapsed@ >= min_interval@ && wal_size < max_wal_size && committed_lsn < checkpointed_lsn + max_transactions {
        let tx = pending(committed_lsn, checkpointed_lsn);
        assert(tx < max_transactions);
        assert((seq![span_text("Time interval "@, elapsed@, " exceeded minimum "@, min_interval@)]
            + Seq::<Seq<char>>::empty()) + Seq::<Seq<char>>::empty() =~= parts);
        assert(joined(parts) == parts[0]);
    }
}

fn prefixed(prefix: &str, text: &String) -> (s: String)
    ensures
        s@ == prefix@ + text@,
{
    let mut s = String::from_str(prefix);
    s.append(text.as_str());
    s
}

fn new_trigger(
    kind: &str,
    reason: String,
    wal_size: u64,
    tx: u64,
    elapsed: Duration,
    now: std::time::SystemTime,
) -> (t: CheckpointTrigger)
    ensures
        trigger_is(t, kind@, reason@, wal_size, tx, elapsed@, now),
{
    CheckpointTrigger {
        strategy_type: String::from_str(kind),
        reason,
        wal_size,
        transaction_count: tx,
        time_since_last_checkpoint: elapsed,
        timestamp: now,
    }
}

/// Decides whether a checkpoint is due under `strategy`, given the time since the last
/// checkpoint, the log size and the last committed LSN as observed, the last checkpointed
/// LSN, and the current time for the trigger's timestamp.
pub fn evaluate_strategy(
    strategy: &CheckpointStrategy,
    elapsed: &Result<Duration, String>,
    wal_size: &Result<u64, String>,
    committed_lsn: &Result<u64, String>,
    checkpointed_lsn: u64,
    now: std::time::SystemTime,
) -> (r: CheckpointResult<(bool, Option<CheckpointTrigger>)>)
    ensures
        evaluates_to(*strategy, *elapsed, *wal_size, *committed_lsn, checkpointed_lsn, now, r),
{
    StrategyValidator::validate_strategy(strategy)?;
    match strategy {
        CheckpointStrategy::SizeThreshold(m) => {
            let size = match wal_size {
                Ok(n) => *n,
                Err(t) => {
                    return Err(CheckpointError::io(prefixed("Failed to get WAL file metadata: ", t).as_str()));
                },
            };
            if size >= *m {
                let mut reason = String::from_str("WAL size ");
                push_decimal(&mut reason, size);
                proof { reveal_strlit(" bytes exceeded threshold "); }
                reason.append(" bytes exceeded threshold ");
                push_decimal(&mut reason, *m);
                let t = new_trigger("SizeThreshold", reason, size, 0, Duration::zero(), now);
                Ok((true, Some(t)))
            } else {
                Ok((false, None))
            }
        },
        CheckpointStrategy::TransactionCount(m) => {
            let committed = match committed_lsn {
                Ok(n) => *n,
                Err(t) => {
                    return Err(CheckpointError::v2_integration(prefixed("Failed to open WAL reader: ", t).as_str()));
                },
            };
            let tx = committed.saturating_sub(checkpointed_lsn);
            if tx >= *m {
                let reason = bound_message("Transaction count ", tx, " exceeded threshold ", *m);
                let t = new_trigger("TransactionCount", reason, 0, tx, Duration::zero(), now);
                Ok((true, Some(t)))
            } else {
                Ok((false, None))
            }
        },
        CheckpointStrategy::TimeInterval(i) => {
            let el = match elapsed {
                Ok(d) => *d,
                Err(t) => {
                    return Err(CheckpointError::state(prefixed("Invalid checkpoint time: ", t).as_str()));
                },
            };
            if i.le(&el) {
                let reason = span_message("Time interval ", &el, " exceeded threshold ", i);
                let t = new_trigger("TimeInterval", reason, 0, 0, el, now);
                Ok((true, Some(t)))
            } else {
                Ok((false, None))
            }
        },
        CheckpointStrategy::Adaptive { min_interval, max_wal_size, max_transactions } => {
            let el = match elapsed {
                Ok(d) => *d,
                Err(t) => {
                    return Err(CheckpointError::state(prefixed("Invalid checkpoint time: ", t).as_str()));
                },
            };
            let size = match wal_size {
                Ok(n) => *n,
                Err(t) => {
                    return Err(CheckpointError::io(prefixed("Failed to get WAL file metadata: ", t).as_str()));
                },
            };
            let committed = match committed_lsn {
                Ok(n) => *n,
                Err(t) => {
                    return Err(CheckpointError::v2_integration(prefixed("Failed to open WAL reader: ", t).as_str()));
                },
            };
            let tx = committed.saturating_sub(checkpointed_lsn);
            let mut reasons: Vec<String> = Vec::new();
            if min_interval.le(&el) {
                reasons.push(span_message("Time interval ", &el, " exceeded minimum ", min_interval));
            }
            if size >= *max_wal_size {
                reasons.push(bound_message("WAL size ", size, " exceeded maximum ", *max_wal_size));
            }
            if tx >= *max_transactions {
                reasons.push(bound_message("Transaction count ", tx, " exceeded maximum ", *max_transactions));
            }
            let ghost parts = reasons@.map_values(|s: String| s@);
            proof {
                assert(parts =~= (if el@ >= min_interval@ {
                    seq![span_text("Time interval "@, el@, " exceeded minimum "@, min_interval@)]
                } else {
                    Seq::empty()
                }) + (if size >= *max_wal_size {
                    seq![bound_text("WAL size "@, size, " exceeded maximum "@, *max_wal_size)]
                } else {
                    Seq::empty()
                }) + (if tx >= *max_transactions {
                    seq![bound_text("Transaction count "@, tx, " exceeded maximum "@, *max_transactions)]
                } else {
                    Seq::empty()
                }));
            }
            if reasons.len() > 0 {
                let reason = join_texts(&reasons);
                let t = new_trigger("Adaptive", reason, size, tx, el, now);
                Ok((true, Some(t)))
            } else {
                Ok((false, None))
            }
        },
    }
}

/// The texts of `parts`, separated by "; ".
fn join_texts(parts: &Vec<String>) -> (s: String)
    ensures
        s@ == joined(parts@.map_values(|p: String| p@)),
{
    let ghost views = parts@.map_values(|p: String| p@);
    let mut s = String::new();
    let mut i: usize = 0;
    while i < parts.len()
        invariant
            0 <= i <= parts@.len(),
            views == parts@.map_values(|p: String| p@),
            s@ == joined(views.subrange(0, i as int)),
        decreases parts@.len() - i,
    {
        proof {
            assert(views.subrange(0, i as int + 1).drop_last() =~= views.subrange(0, i as int));
        }
        if i > 0 {
            proof { reveal_strlit("; "); }
            s.append("; ");
        } else {
            assert(s@ =~= Seq::<char>::empty());
        }
        s.append(parts[i].as_str());
        i = i + 1;
    }
    assert(views.subrange(0, parts@.len() as int) =~= views);
    s
}

/// Decides when checkpoints are due, for one log.
pub struct StrategyEvaluator {
    config: V2WALConfig,
}

/// Reads how much time has passed since `t`, as whole seconds and a sub-second part in
/// nanoseconds, or the reason it cannot be told (`t` is later than now).
#[verifier::external_body]
pub(crate) fn elapsed_since(t: &std::time::SystemTime) -> (r: Result<(u64, u32), String>)
    ensures
        r matches Ok(p) ==> p.1 < 1_000_000_000,
{
    match t.elapsed() {
        Ok(d) => Ok((d.as_secs(), d.subsec_nanos())),
        Err(e) => Err(format!("{}", e)),
    }
}

impl StrategyEvaluator {
    /// An evaluator for the log of `config`.
    pub fn new(config: V2WALConfig) -> (e: Self)
        ensures
            e.config() == config,
    {
        StrategyEvaluator { config }
    }

    /// The configuration of the log being evaluated.
    pub closed spec fn config(&self) -> V2WALConfig {
        self.config
    }

    /// Decides whether a checkpoint is due under `strategy`, the last checkpoint having
    /// been taken at `last_checkpoint_time` at LSN `checkpointed_lsn`; `wal_size` and
    /// `committed_lsn` are the log's size and last committed LSN as read from disk.
    /// The time since the last checkpoint and the trigger's timestamp come from the
    /// system clock, so this states what holds for every reading of it.
    pub fn should_checkpoint(
        &self,
        strategy: &CheckpointStrategy,
        last_checkpoint_time: std::time::SystemTime,
        checkpointed_lsn: u64,
        wal_size: Result<u64, String>,
        committed_lsn: Result<u64, String>,
    ) -> (r: CheckpointResult<(bool, Option<CheckpointTrigger>)>)
        ensures
            exists|elapsed: Result<Duration, String>, now: std::time::SystemTime|
                evaluates_to(*strategy, elapsed, wal_size, committed_lsn, checkpointed_lsn, now, r),
    {
        let elapsed: Result<Duration, String> = match elapsed_since(&last_checkpoint_time) {
            Ok((secs, nanos)) => Ok(Duration::new(secs, nanos)),
            Err(t) => Err(t),
        };
        let now = system_now();
        let r = evaluate_strategy(strategy, &elapsed, &wal_size, &committed_lsn, checkpointed_lsn, now);
        assert(evaluates_to(*strategy, elapsed, wal_size, committed_lsn, checkpointed_lsn, now, r));
        r
    }

    /// The metrics of the log for monitoring its strategy, the last checkpoint having been
    /// taken at `last_checkpoint_time` at LSN `checkpointed_lsn`; `wal_size` and
    /// `committed_lsn` are the log's size and last committed LSN as read from disk. The
    /// time since the last checkpoint comes from the system clock, so this states what
    /// holds for every reading of it.
    pub fn get_strategy_metrics(
        &self,
        checkpointed_lsn: u64,
        last_checkpoint_time: std::time::SystemTime,
        wal_size: Result<u64, String>,
        committed_lsn: Result<u64, String>,
    ) -> (r: CheckpointResult<StrategyMetrics>)
        ensures
            exists|elapsed: Result<Duration, String>|
                metrics_outcome(wal_size, committed_lsn, elapsed, checkpointed_lsn, r),
    {
        let elapsed: Result<Duration, String> = match elapsed_since(&last_checkpoint_time) {
            Ok((secs, nanos)) => Ok(Duration::new(secs, nanos)),
            Err(t) => Err(t),
        };
        let r = strategy_metrics(&wal_size, &committed_lsn, &elapsed, checkpointed_lsn);
        assert(metrics_outcome(wal_size, committed_lsn, elapsed, checkpointed_lsn, r));
        r
    }
}

/// Metrics of the log that a strategy is judged by.
#[derive(Debug, Clone, Copy)]
pub struct StrategyMetrics {
    /// Log size in bytes.
    pub wal_size: u64,
    /// Last committed LSN.
    pub committed_lsn: u64,
    /// Last checkpointed LSN.
    pub checkpointed_lsn: u64,
    /// Transactions waiting for a checkpoint.
    pub pending_transactions: u64,
    /// Time since the last checkpoint.
    pub time_since_last_checkpoint: Duration,
}

/// Whether `r` is what gathering the metrics gives on the given observations: the first
/// observation that could not be read (log size, then committed LSN, then elapsed time)
/// ends in its error, else the metrics hold what was read.
pub open spec fn metrics_outcome(
    wal_size: Result<u64, String>,
    committed_lsn: Result<u64, String>,
    elapsed: Result<Duration, String>,
    checkpointed: u64,
    r: CheckpointResult<StrategyMetrics>,
) -> bool {
    match (wal_size, committed_lsn, elapsed) {
        (Err(t), _, _) => r matches Err(e) && made_by(e, CheckpointErrorKind::Io, "Failed to get WAL file metadata: "@ + t@),
        (Ok(_), Err(t), _) => r matches Err(e) && made_by(e, CheckpointErrorKind::V2Integration, "Failed to open WAL reader: "@ + t@),
        (Ok(_), Ok(_), Err(t)) => r matches Err(e) && made_by(e, CheckpointErrorKind::State, "Invalid checkpoint time: "@ + t@),
        (Ok(size), Ok(committed), Ok(d)) => r == Ok::<StrategyMetrics, CheckpointError>(StrategyMetrics {
            wal_size: size,
            committed_lsn: committed,
            checkpointed_lsn: checkpointed,
            pending_transactions: pending(committed, checkpointed),
            time_since_last_checkpoint: d,
        }),
    }
}

/// Gathers the metrics of a log from its size, its last committed LSN and the time since
/// its last checkpoint as observed, and its last checkpointed LSN.
pub fn strategy_metrics(
    wal_size: &Result<u64, String>,
    committed_lsn: &Result<u64, String>,
    elapsed: &Result<Duration, String>,
    checkpointed_lsn: u64,
) -> (r: CheckpointResult<StrategyMetrics>)
    ensures
        metrics_outcome(*wal_size, *committed_lsn, *elapsed, checkpointed_lsn, r),
{
    let size = match wal_size {
        Ok(n) => *n,
        Err(t) => {
            return Err(CheckpointError::io(prefixed("Failed to get WAL file metadata: ", t).as_str()));
        },
    };
    let committed = match committed_lsn {
        Ok(n) => *n,
        Err(t) => {
            return Err(CheckpointError::v2_integration(prefixed("Failed to open WAL reader: ", t).as_str()));
        },
    };
    let d = match elapsed {
        Ok(d) => *d,
        Err(t) => {
            return Err(CheckpointError::state(prefixed("Invalid checkpoint time: ", t).as_str()));
        },
    };
    Ok(StrategyMetrics {
        wal_size: size,
        committed_lsn: committed,
        checkpointed_lsn,
        pending_transactions: committed.saturating_sub(checkpointed_lsn),
        time_since_last_checkpoint: d,
    })
}

/// Whether the metrics call for a checkpoint at once: more than twice the default log
/// size, pending transactions or interval.
pub open spec fn urgent(m: StrategyMetrics) -> bool {
    ||| m.wal_size > DEFAULT_SIZE_THRESHOLD * 2
    ||| m.pending_transactions > DEFAULT_TRANSACTION_THRESHOLD * 2
    ||| m.time_since_last_checkpoint@ > secs_nanos((DEFAULT_TIME_INTERVAL_SECONDS * 2) as u64)
}

/// The adjustment recommended for `s` under metrics `m`.
pub open spec fn recommendation(m: StrategyMetrics, s: CheckpointStrategy) -> Option<Seq<char>> {
    match s {
        CheckpointStrategy::SizeThreshold(max) => if m.wal_size > max * 2 {
            Some("Consider reducing size threshold"@)
        } else if m.wal_size < max / 4 {
            Some("Consider increasing size threshold"@)
        } else {
            None
        },
        CheckpointStrategy::TransactionCount(max) => if m.pending_transactions > max * 2 {
            Some("Consider reducing transaction threshold"@)
        } else if m.pending_transactions < max / 4 {
            Some("Consider increasing transaction threshold"@)
        } else {
            None
        },
        CheckpointStrategy::TimeInterval(i) => if m.time_since_last_checkpoint@ > i@ * 2 {
            Some("Consider reducing time interval"@)
        } else if m.time_since_last_checkpoint@ < i@ / 4 {
            Some("Consider increasing time interval"@)
        } else {
            None
        },
        CheckpointStrategy::Adaptive { .. } => if urgent(m) {
            Some("Consider adjusting adaptive parameters"@)
        } else {
            None
        },
    }
}

/// Whether doubling the limit of `s` stays within range, as the comparison needs.
pub open spec fn doubling_fits(s: CheckpointStrategy) -> bool {
    match s {
        CheckpointStrategy::SizeThreshold(max) => max * 2 <= u64::MAX,
        CheckpointStrategy::TransactionCount(max) => max * 2 <= u64::MAX,
        CheckpointStrategy::TimeInterval(i) => i@ * 2 <= crate::duration::max_duration_nanos(),
        CheckpointStrategy::Adaptive { .. } => true,
    }
}

impl StrategyMetrics {
    /// Whether a checkpoint is urgent: the log size, the pending transactions or the time
    /// since the last checkpoint exceeds twice its default limit.
    pub fn is_urgent(&self) -> (b: bool)
        ensures
            b == urgent(*self),
    {
        self.wal_size > DEFAULT_SIZE_THRESHOLD * 2
            || self.pending_transactions > DEFAULT_TRANSACTION_THRESHOLD * 2
            || Duration::from_secs(DEFAULT_TIME_INTERVAL_SECONDS * 2).lt(&self.time_since_last_checkpoint)
    }

    /// The adjustment of `current_strategy` that these metrics suggest: reduce its limit
    /// when the metric is over twice the limit, raise it when under a quarter of it.
    pub fn recommend_adjustment(&self, current_strategy: &CheckpointStrategy) -> (r: Option<String>)
        requires
            doubling_fits(*current_strategy),
        ensures
            match recommendation(*self, *current_strategy) {
                None => r is None,
                Some(t) => r matches Some(s) && s@ == t,
            },
    {
        let text: Option<&str> = match current_strategy {
            CheckpointStrategy::SizeThreshold(max) => {
                if self.wal_size > *max * 2 {
                    Some("Consider reducing size threshold")
                } else if self.wal_size < *max / 4 {
                    Some("Consider increasing size threshold")
                } else {
                    None
                }
            },
            CheckpointStrategy::TransactionCount(max) => {
                if self.pending_transactions > *max * 2 {
                    Some("Consider reducing transaction threshold")
                } else if self.pending_transactions < *max / 4 {
                    Some("Consider increasing transaction threshold")
                } else {
                    None
                }
            },
            CheckpointStrategy::TimeInterval(i) => {
                if i.mul(2).lt(&self.time_since_last_checkpoint) {
                    Some("Consider reducing time interval")
                } else if self.time_since_last_checkpoint.lt(&i.div(4)) {
                    Some("Consider increasing time interval")
                } else {
                    None
                }
            },
            CheckpointStrategy::Adaptive { .. } => {
                if self.is_urgent() {
                    Some("Consider adjusting adaptive parameters")
                } else {
                    None
                }
            },
        };
        match text {
            Some(t) => Some(String::from_str(t)),
            None => None,
        }
    }
}

} // verus!
