//! Errors of the checkpoint subsystem, with their classification, recovery advice and
//! diagnostic reports.
use vstd::prelude::*;
use crate::native_error::{native_error_text, NativeBackendError};
use crate::text::{decimal, hex, push_decimal, push_hex, push_signed_decimal, signed_decimal};

verus! {

#[verifier::external_type_specification]
#[verifier::external_body]
pub struct ExSystemTime(std::time::SystemTime);

/// `SystemTime::clone`: a point in time is `Copy`, so its clone is the same point in time.
pub assume_specification[ <std::time::SystemTime as Clone>::clone ](t: &std::time::SystemTime) -> (r: std::time::SystemTime)
    ensures
        r == *t,
;

/// Reads the system clock.
#[verifier::external_body]
pub(crate) fn system_now() -> (t: std::time::SystemTime) {
    std::time::SystemTime::now()
}

/// The Debug rendering of a point in time, which depends on the point in time alone.
pub uninterp spec fn spec_time_text(t: std::time::SystemTime) -> Seq<char>;

/// Renders `t` as `format!("{:?}", t)` does. The contract names the text without saying
/// what it is: std does not document the Debug format of `SystemTime`.
#[verifier::external_body]
pub(crate) fn system_time_text(t: &std::time::SystemTime) -> (s: String)
    ensures
        s@ == spec_time_text(*t),
{
    format!("{:?}", t)
}

/// The Debug rendering of a string: quoted, with special characters escaped.
pub uninterp spec fn spec_debug_str(s: Seq<char>) -> Seq<char>;

/// Renders `text` as `format!("{:?}", text)` does.
#[verifier::external_body]
pub(crate) fn debug_str(text: &str) -> (s: String)
    ensures
        s@ == spec_debug_str(text@),
{
    format!("{:?}", text)
}

/// Category of a checkpoint error.
#[derive(Debug, Clone, Copy, PartialEq, Eq, Structural)]
pub enum CheckpointErrorKind {
    Configuration,
    Io,
    V2Integration,
    Strategy,
    State,
    Validation,
    Resource,
    Timeout,
    Concurrency,
    Corruption,
    Unknown,
}

/// The name of an error kind, as Debug prints it.
pub open spec fn kind_name(k: CheckpointErrorKind) -> Seq<char> {
    match k {
        CheckpointErrorKind::Configuration => "Configuration"@,
        CheckpointErrorKind::Io => "Io"@,
        CheckpointErrorKind::V2Integration => "V2Integration"@,
        CheckpointErrorKind::Strategy => "Strategy"@,
        CheckpointErrorKind::State => "State"@,
        CheckpointErrorKind::Validation => "Validation"@,
        CheckpointErrorKind::Resource => "Resource"@,
        CheckpointErrorKind::Timeout => "Timeout"@,
        CheckpointErrorKind::Concurrency => "Concurrency"@,
        CheckpointErrorKind::Corruption => "Corruption"@,
        CheckpointErrorKind::Unknown => "Unknown"@,
    }
}

fn push_kind_name(s: &mut String, k: CheckpointErrorKind)
    ensures
        final(s)@ == old(s)@ + kind_name(k),
{
    match k {
        CheckpointErrorKind::Configuration => s.append("Configuration"),
        CheckpointErrorKind::Io => s.append("Io"),
        CheckpointErrorKind::V2Integration => s.append("V2Integration"),
        CheckpointErrorKind::Strategy => s.append("Strategy"),
        CheckpointErrorKind::State => s.append("State"),
        CheckpointErrorKind::Validation => s.append("Validation"),
        CheckpointErrorKind::Resource => s.append("Resource"),
        CheckpointErrorKind::Timeout => s.append("Timeout"),
        CheckpointErrorKind::Concurrency => s.append("Concurrency"),
        CheckpointErrorKind::Corruption => s.append("Corruption"),
        CheckpointErrorKind::Unknown => s.append("Unknown"),
    }
}

/// Context of an error, for diagnostics.
#[derive(Debug, Clone)]
pub struct ErrorContext {
    /// LSN range of the checkpoint when the error occurred.
    pub lsn_range: Option<(u64, u64)>,
    /// Records processed when the error occurred.
    pub records_processed: Option<u64>,
    /// Dirty blocks when the error occurred.
    pub dirty_blocks: Option<u64>,
    /// Checkpoint file path.
    pub checkpoint_path: Option<String>,
    /// Log file path.
    pub wal_path: Option<String>,
    /// Operation under way.
    pub operation: Option<String>,
    /// Further key-value pairs, in the order they were added.
    pub metadata: Vec<(String, String)>,
}

impl Default for ErrorContext {
    fn default() -> (c: Self)
        ensures
            c.lsn_range is None,
            c.records_processed is None,
            c.dirty_blocks is None,
            c.checkpoint_path is None,
            c.wal_path is None,
            c.operation is None,
            c.metadata@.len() == 0,
    {
        ErrorContext {
            lsn_range: None,
            records_processed: None,
            dirty_blocks: None,
            checkpoint_path: None,
            wal_path: None,
            operation: None,
            metadata: Vec::new(),
        }
    }
}

/// Advice on how to recover from an error.
#[derive(Debug, Clone, PartialEq, Eq)]
pub enum RecoverySuggestion {
    /// No recovery needed (Debug prints it as "None").
    NoneNeeded,
    Retry { max_attempts: u32, backoff_ms: u64 },
    Restart,
    CheckDiskSpace,
    ValidateV2File,
    ReduceBatchSize,
    IncreaseTimeout,
    ManualIntervention(String),
    Custom(String),
}

/// The Debug rendering of a recovery suggestion.
pub open spec fn recovery_text(r: RecoverySuggestion) -> Seq<char> {
    match r {
        RecoverySuggestion::NoneNeeded => "None"@,
        RecoverySuggestion::Retry { max_attempts, backoff_ms } =>
            "Retry { max_attempts: "@ + decimal(max_attempts as nat) + ", backoff_ms: "@
                + decimal(backoff_ms as nat) + " }"@,
        RecoverySuggestion::Restart => "Restart"@,
        RecoverySuggestion::CheckDiskSpace => "CheckDiskSpace"@,
        RecoverySuggestion::ValidateV2File => "ValidateV2File"@,
        RecoverySuggestion::ReduceBatchSize => "ReduceBatchSize"@,
        RecoverySuggestion::IncreaseTimeout => "IncreaseTimeout"@,
        RecoverySuggestion::ManualIntervention(m) =>
            "ManualIntervention("@ + spec_debug_str(m@) + ")"@,
        RecoverySuggestion::Custom(m) => "Custom("@ + spec_debug_str(m@) + ")"@,
    }
}

fn push_recovery_text(s: &mut String, r: &RecoverySuggestion)
    ensures
        final(s)@ == old(s)@ + recovery_text(*r),
{
    match r {
        RecoverySuggestion::NoneNeeded => s.append("None"),
        RecoverySuggestion::Retry { max_attempts, backoff_ms } => {
            s.append("Retry { max_attempts: ");
            push_decimal(s, *max_attempts as u64);
            s.append(", backoff_ms: ");
            push_decimal(s, *backoff_ms);
            s.append(" }");
        },
        RecoverySuggestion::Restart => s.append("Restart"),
        RecoverySuggestion::CheckDiskSpace => s.append("CheckDiskSpace"),
        RecoverySuggestion::ValidateV2File => s.append("ValidateV2File"),
        RecoverySuggestion::ReduceBatchSize => s.append("ReduceBatchSize"),
        RecoverySuggestion::IncreaseTimeout => s.append("IncreaseTimeout"),
        RecoverySuggestion::ManualIntervention(m) => {
            s.append("ManualIntervention(");
            let d = debug_str(m.as_str());
            s.append(d.as_str());
            s.append(")");
        },
        RecoverySuggestion::Custom(m) => {
            s.append("Custom(");
            let d = debug_str(m.as_str());
            s.append(d.as_str());
            s.append(")");
        },
    }
}

/// Severity of an error; Warning < Error < Critical.
#[derive(Debug, Clone, Copy, PartialEq, Eq, PartialOrd, Ord, Structural)]
pub enum ErrorSeverity {
    Warning,
    Error,
    Critical,
}

/// The rank of a severity in its order.
pub open spec fn severity_rank(s: ErrorSeverity) -> nat {
    match s {
        ErrorSeverity::Warning => 0,
        ErrorSeverity::Error => 1,
        ErrorSeverity::Critical => 2,
    }
}

/// The name of a severity, as Debug prints it.
pub open spec fn severity_name(s: ErrorSeverity) -> Seq<char> {
    match s {
        ErrorSeverity::Warning => "Warning"@,
        ErrorSeverity::Error => "Error"@,
        ErrorSeverity::Critical => "Critical"@,
    }
}

impl ErrorSeverity {
    /// The rank of this severity in its order (Warning 0, Error 1, Critical 2).
    pub fn rank(&self) -> (r: u8)
        ensures
            r == severity_rank(*self),
    {
        match self {
            ErrorSeverity::Warning => 0,
            ErrorSeverity::Error => 1,
            ErrorSeverity::Critical => 2,
        }
    }
}

/// The severity that errors of kind `k` carry.
pub open spec fn kind_severity(k: CheckpointErrorKind) -> ErrorSeverity {
    match k {
        CheckpointErrorKind::Configuration | CheckpointErrorKind::Strategy => ErrorSeverity::Warning,
        CheckpointErrorKind::V2Integration | CheckpointErrorKind::Corruption => ErrorSeverity::Critical,
        _ => ErrorSeverity::Error,
    }
}

/// A checkpoint error with its diagnostics.
#[derive(Debug, Clone)]
pub struct CheckpointError {
    /// Category of the error.
    pub kind: CheckpointErrorKind,
    /// Human-readable message.
    pub message: String,
    /// Description of the underlying error, if any.
    pub source: Option<String>,
    /// Diagnostic context.
    pub context: ErrorContext,
    /// Recovery advice.
    pub recovery: RecoverySuggestion,
    /// When the error was created.
    pub timestamp: std::time::SystemTime,
}

/// Result type of checkpoint operations.
pub type CheckpointResult<T> = Result<T, CheckpointError>;

/// Whether `e` is a fresh error of kind `k` with message `m`, no source, an empty context and
/// recovery advice `r`.
pub open spec fn fresh_error(e: CheckpointError, k: CheckpointErrorKind, m: Seq<char>, r: RecoverySuggestion) -> bool {
    &&& e.kind == k
    &&& e.message@ == m
    &&& e.source is None
    &&& empty_context(e.context)
    &&& e.recovery == r
}

/// Whether a context carries no information.
pub open spec fn empty_context(c: ErrorContext) -> bool {
    &&& c.lsn_range is None
    &&& c.records_processed is None
    &&& c.dirty_blocks is None
    &&& c.checkpoint_path is None
    &&& c.wal_path is None
    &&& c.operation is None
    &&& c.metadata@.len() == 0
}

/// The recovery advice that the constructor for kind `k` attaches.
pub open spec fn default_recovery(k: CheckpointErrorKind) -> RecoverySuggestion {
    match k {
        CheckpointErrorKind::Configuration => RecoverySuggestion::CheckDiskSpace,
        CheckpointErrorKind::Io => RecoverySuggestion::Retry { max_attempts: 3, backoff_ms: 100 },
        CheckpointErrorKind::V2Integration => RecoverySuggestion::ValidateV2File,
        CheckpointErrorKind::State => RecoverySuggestion::Restart,
        CheckpointErrorKind::Validation => RecoverySuggestion::ValidateV2File,
        CheckpointErrorKind::Resource => RecoverySuggestion::ReduceBatchSize,
        CheckpointErrorKind::Timeout => RecoverySuggestion::IncreaseTimeout,
        _ => RecoverySuggestion::NoneNeeded,
    }
}

/// Whether `e` is what the constructor for kind `k` builds from message `m`.
pub open spec fn made_by(e: CheckpointError, k: CheckpointErrorKind, m: Seq<char>) -> bool {
    &&& e.kind == k
    &&& e.message@ == m
    &&& e.source is None
    &&& empty_context(e.context)
    &&& standard_recovery(e.recovery, k)
}

/// Whether `r` is the recovery advice that the constructor for kind `k` attaches.
pub open spec fn standard_recovery(r: RecoverySuggestion, k: CheckpointErrorKind) -> bool {
    match k {
        CheckpointErrorKind::Strategy => r matches RecoverySuggestion::Custom(t)
            && t@ == "Review checkpoint strategy configuration"@,
        CheckpointErrorKind::Corruption => r matches RecoverySuggestion::ManualIntervention(t)
            && t@ == "Data corruption detected"@,
        _ => r == default_recovery(k),
    }
}

/// The Display rendering of an error: "[Kind] message".
pub open spec fn error_text(e: CheckpointError) -> Seq<char> {
    "["@ + kind_name(e.kind) + "] "@ + e.message@
}

/// The text "true" or "false".
pub open spec fn bool_text(b: bool) -> Seq<char> {
    if b { "true"@ } else { "false"@ }
}

/// The "LSN Range", "Records Processed", "Dirty Blocks" and "Operation" lines of a report.
pub open spec fn context_lines(c: ErrorContext) -> Seq<char> {
    lsn_line(c) + records_line(c) + blocks_line(c) + operation_line(c)
}

/// The "LSN Range" line of a report, if the context has a range.
pub open spec fn lsn_line(c: ErrorContext) -> Seq<char> {
    match c.lsn_range {
        Some((a, b)) => "LSN Range: "@ + decimal(a as nat) + "-"@ + decimal(b as nat) + "\n"@,
        None => Seq::empty(),
    }
}

/// The "Records Processed" line of a report, if the context has a count.
pub open spec fn records_line(c: ErrorContext) -> Seq<char> {
    match c.records_processed {
        Some(n) => "Records Processed: "@ + decimal(n as nat) + "\n"@,
        None => Seq::empty(),
    }
}

/// The "Dirty Blocks" line of a report, if the context has a count.
pub open spec fn blocks_line(c: ErrorContext) -> Seq<char> {
    match c.dirty_blocks {
        Some(n) => "Dirty Blocks: "@ + decimal(n as nat) + "\n"@,
        None => Seq::empty(),
    }
}

/// The "Operation" line of a report, if the context names one.
pub open spec fn operation_line(c: ErrorContext) -> Seq<char> {
    match c.operation {
        Some(op) => "Operation: "@ + op@ + "\n"@,
        None => Seq::empty(),
    }
}

/// The "Additional Context" section of a report (empty when there is no metadata).
pub open spec fn metadata_section(c: ErrorContext) -> Seq<char> {
    if c.metadata@.len() == 0 {
        Seq::empty()
    } else {
        "Additional Context:\n"@ + metadata_lines(c.metadata@)
    }
}

/// The lines of a diagnostic report that follow the timestamp.
pub open spec fn report_tail(e: CheckpointError) -> Seq<char> {
    "Recoverable: "@ + bool_text(e.kind != CheckpointErrorKind::Corruption) + "\n"@
        + context_lines(e.context) + "Recovery: "@ + recovery_text(e.recovery) + "\n"@
        + metadata_section(e.context)
}

/// The lines of a diagnostic report that precede the timestamp.
pub open spec fn report_head(e: CheckpointError) -> Seq<char> {
    "Checkpoint Error Report\n"@ + "=====================\n"@ + "Error Kind: "@ + kind_name(e.kind)
        + "\n"@ + "Severity: "@ + severity_name(kind_severity(e.kind)) + "\n"@ + "Message: "@
        + e.message@ + "\n"@ + match e.source {
        Some(s) => "Source: "@ + s@ + "\n"@,
        None => Seq::empty(),
    }
}

/// One "  key: value" line per metadata pair.
pub open spec fn metadata_lines(m: Seq<(String, String)>) -> Seq<char>
    decreases m.len(),
{
    if m.len() == 0 {
        Seq::empty()
    } else {
        metadata_lines(m.drop_last()) + "  "@ + m.last().0@ + ": "@ + m.last().1@ + "\n"@
    }
}

/// The diagnostic report of `e`, given the rendering `ts` of its timestamp.
pub open spec fn diagnostic_report_text(e: CheckpointError, ts: Seq<char>) -> Seq<char> {
    report_head(e) + "Timestamp: "@ + ts + "\n"@ + report_tail(e)
}

fn push_lsn_line(r: &mut String, c: &ErrorContext)
    ensures
        final(r)@ == old(r)@ + lsn_line(*c),
{
    let ghost s0 = r@;
    if let Some(lsn_range) = c.lsn_range {
        r.append("LSN Range: ");
        push_decimal(r, lsn_range.0);
        r.append("-");
        push_decimal(r, lsn_range.1);
        r.append("\n");
    }
    assert(r@ =~= s0 + lsn_line(*c));
}

fn push_count_line(r: &mut String, label: &str, count: Option<u64>)
    ensures
        final(r)@ == old(r)@ + match count {
            Some(n) => label@ + decimal(n as nat) + "\n"@,
            None => Seq::empty(),
        },
{
    let ghost s0 = r@;
    if let Some(n) = count {
        r.append(label);
        push_decimal(r, n);
        r.append("\n");
    }
    assert(r@ =~= s0 + match count {
        Some(n) => label@ + decimal(n as nat) + "\n"@,
        None => Seq::empty(),
    });
}

fn push_context_lines(r: &mut String, c: &ErrorContext)
    ensures
        final(r)@ == old(r)@ + context_lines(*c),
{
    let ghost s0 = r@;
    push_lsn_line(r, c);
    let ghost s1 = r@;
    push_count_line(r, "Records Processed: ", c.records_processed);
    let ghost s2 = r@;
    push_count_line(r, "Dirty Blocks: ", c.dirty_blocks);
    let ghost s3 = r@;
    if let Some(operation) = &c.operation {
        r.append("Operation: ");
        r.append(operation.as_str());
        r.append("\n");
    }
    assert(r@ =~= s3 + operation_line(*c));
    assert(r@ =~= s0 + context_lines(*c));
}

fn push_report_head(r: &mut String, e: &CheckpointError)
    ensures
        final(r)@ == old(r)@ + report_head(*e),
{
    let ghost s0 = r@;
    r.append("Checkpoint Error Report\n");
    r.append("=====================\n");
    r.append("Error Kind: ");
    push_kind_name(r, e.kind);
    r.append("\n");
    r.append("Severity: ");
    match e.severity() {
        ErrorSeverity::Warning => r.append("Warning"),
        ErrorSeverity::Error => r.append("Error"),
        ErrorSeverity::Critical => r.append("Critical"),
    }
    r.append("\n");
    r.append("Message: ");
    r.append(e.message.as_str());
    r.append("\n");
    if let Some(source) = &e.source {
        r.append("Source: ");
        r.append(source.as_str());
        r.append("\n");
    }
    assert(r@ =~= s0 + report_head(*e));
}

fn push_report_tail(r: &mut String, e: &CheckpointError)
    ensures
        final(r)@ == old(r)@ + report_tail(*e),
{
    let ghost s0 = r@;
    r.append("Recoverable: ");
    if e.is_recoverable() {
        r.append("true");
    } else {
        r.append("false");
    }
    r.append("\n");
    push_context_lines(r, &e.context);
    r.append("Recovery: ");
    push_recovery_text(r, &e.recovery);
    r.append("\n");
    let ghost s1 = r@;
    if e.context.metadata.len() != 0 {
        r.append("Additional Context:\n");
        push_metadata_lines(r, &e.context.metadata);
    }
    assert(r@ =~= s1 + metadata_section(e.context));
    assert(r@ =~= s0 + report_tail(*e));
}

impl CheckpointError {
    /// A new error of kind `kind` with message `message`, no source, an empty context, no
    /// recovery advice, stamped with the current time.
    pub fn new(kind: CheckpointErrorKind, message: &str) -> (e: Self)
        ensures
            fresh_error(e, kind, message@, RecoverySuggestion::NoneNeeded),
    {
        CheckpointError {
            kind,
            message: message.to_owned(),
            source: None,
            context: ErrorContext::default(),
            recovery: RecoverySuggestion::NoneNeeded,
            timestamp: system_now(),
        }
    }

    /// The error with its context replaced by `context`.
    pub fn with_context(self, context: ErrorContext) -> (e: Self)
        ensures
            e == (CheckpointError { context, ..self }),
    {
        CheckpointError { context, ..self }
    }

    /// The error with its recovery advice replaced by `recovery`.
    pub fn with_recovery(self, recovery: RecoverySuggestion) -> (e: Self)
        ensures
            e == (CheckpointError { recovery, ..self }),
    {
        CheckpointError { recovery, ..self }
    }

    /// The error with its source set to `source`.
    pub fn with_source(self, source: &str) -> (e: Self)
        ensures
            e.source matches Some(s) && s@ == source@,
            e.kind == self.kind,
            e.message == self.message,
            e.context == self.context,
            e.recovery == self.recovery,
    {
        CheckpointError { source: Some(source.to_owned()), ..self }
    }

    /// A configuration error; advice: check disk space.
    pub fn configuration(message: &str) -> (e: Self)
        ensures
            made_by(e, CheckpointErrorKind::Configuration, message@),
    {
        Self::new(CheckpointErrorKind::Configuration, message).with_recovery(
            RecoverySuggestion::CheckDiskSpace,
        )
    }

    /// An I/O error; advice: retry up to 3 times, 100ms apart.
    pub fn io(message: &str) -> (e: Self)
        ensures
            made_by(e, CheckpointErrorKind::Io, message@),
    {
        Self::new(CheckpointErrorKind::Io, message).with_recovery(
            RecoverySuggestion::Retry { max_attempts: 3, backoff_ms: 100 },
        )
    }

    /// A graph-file integration error; advice: validate the graph file.
    pub fn v2_integration(message: &str) -> (e: Self)
        ensures
            made_by(e, CheckpointErrorKind::V2Integration, message@),
    {
        Self::new(CheckpointErrorKind::V2Integration, message).with_recovery(
            RecoverySuggestion::ValidateV2File,
        )
    }

    /// A strategy error; advice: review the strategy configuration.
    pub fn strategy(message: &str) -> (e: Self)
        ensures
            made_by(e, CheckpointErrorKind::Strategy, message@),
    {
        Self::new(CheckpointErrorKind::Strategy, message).with_recovery(
            RecoverySuggestion::Custom(String::from_str("Review checkpoint strategy configuration")),
        )
    }

    /// A state error; advice: restart.
    pub fn state(message: &str) -> (e: Self)
        ensures
            made_by(e, CheckpointErrorKind::State, message@),
    {
        Self::new(CheckpointErrorKind::State, message).with_recovery(RecoverySuggestion::Restart)
    }

    /// A validation error; advice: validate the graph file.
    pub fn validation(message: &str) -> (e: Self)
        ensures
            made_by(e, CheckpointErrorKind::Validation, message@),
    {
        Self::new(CheckpointErrorKind::Validation, message).with_recovery(
            RecoverySuggestion::ValidateV2File,
        )
    }

    /// A resource error; advice: reduce the batch size.
    pub fn resource(message: &str) -> (e: Self)
        ensures
            made_by(e, CheckpointErrorKind::Resource, message@),
    {
        Self::new(CheckpointErrorKind::Resource, message).with_recovery(
            RecoverySuggestion::ReduceBatchSize,
        )
    }

    /// A timeout error; advice: increase timeouts.
    pub fn timeout(message: &str) -> (e: Self)
        ensures
            made_by(e, CheckpointErrorKind::Timeout, message@),
    {
        Self::new(CheckpointErrorKind::Timeout, message).with_recovery(
            RecoverySuggestion::IncreaseTimeout,
        )
    }

    /// A corruption error; advice: manual intervention.
    pub fn corruption(message: &str) -> (e: Self)
        ensures
            made_by(e, CheckpointErrorKind::Corruption, message@),
    {
        Self::new(CheckpointErrorKind::Corruption, message).with_recovery(
            RecoverySuggestion::ManualIntervention(String::from_str("Data corruption detected")),
        )
    }

    /// An unknown error; no advice.
    pub fn unknown(message: &str) -> (e: Self)
        ensures
            made_by(e, CheckpointErrorKind::Unknown, message@),
    {
        Self::new(CheckpointErrorKind::Unknown, message)
    }

    /// The severity of the error, which its kind decides.
    pub fn severity(&self) -> (s: ErrorSeverity)
        ensures
            s == kind_severity(self.kind),
    {
        match self.kind {
            CheckpointErrorKind::Configuration | CheckpointErrorKind::Strategy => ErrorSeverity::Warning,
            CheckpointErrorKind::Io | CheckpointErrorKind::Resource | CheckpointErrorKind::Timeout => ErrorSeverity::Error,
            CheckpointErrorKind::State | CheckpointErrorKind::Validation => ErrorSeverity::Error,
            CheckpointErrorKind::V2Integration | CheckpointErrorKind::Corruption => ErrorSeverity::Critical,
            CheckpointErrorKind::Concurrency | CheckpointErrorKind::Unknown => ErrorSeverity::Error,
        }
    }

    /// Whether the error is recoverable: every kind but corruption is.
    pub fn is_recoverable(&self) -> (b: bool)
        ensures
            b == (self.kind != CheckpointErrorKind::Corruption),
    {
        !matches!(self.kind, CheckpointErrorKind::Corruption)
    }

    /// The suggested retry delay in milliseconds: the backoff of a retry advice, 5000 for
    /// "increase timeout", none otherwise.
    pub fn retry_delay_ms(&self) -> (d: Option<u64>)
        ensures
            d == retry_delay(self.recovery),
            forall|a: u32, b: u64| self.recovery == (RecoverySuggestion::Retry { max_attempts: a, backoff_ms: b })
                ==> d == Some(b),
            self.recovery == RecoverySuggestion::IncreaseTimeout ==> d == Some(5000u64),
            !(self.recovery is Retry) && self.recovery != RecoverySuggestion::IncreaseTimeout ==> d is None,
    {
        match &self.recovery {
            RecoverySuggestion::Retry { backoff_ms, .. } => Some(*backoff_ms),
            RecoverySuggestion::IncreaseTimeout => Some(5000),
            _ => None,
        }
    }

    /// The Display rendering of the error: "[Kind] message".
    pub fn to_string(&self) -> (s: String)
        ensures
            s@ == error_text(*self),
    {
        let mut s = String::new();
        s.append("[");
        push_kind_name(&mut s, self.kind);
        s.append("] ");
        s.append(self.message.as_str());
        s
    }

    /// The multi-line diagnostic report of the error.
    pub fn diagnostic_report(&self) -> (r: String)
        ensures
            r@ == diagnostic_report_text(*self, spec_time_text(self.timestamp)),
    {
        let mut r = String::new();
        push_report_head(&mut r, self);
        r.append("Timestamp: ");
        let ts = system_time_text(&self.timestamp);
        r.append(ts.as_str());
        r.append("\n");
        push_report_tail(&mut r, self);
        proof {
            assert(r@ =~= diagnostic_report_text(*self, ts@));
        }
        r
    }
}

fn push_metadata_lines(s: &mut String, m: &Vec<(String, String)>)
    ensures
        final(s)@ == old(s)@ + metadata_lines(m@),
{
    let ghost start = s@;
    let mut i: usize = 0;
    while i < m.len()
        invariant
            0 <= i <= m@.len(),
            s@ == start + metadata_lines(m@.subrange(0, i as int)),
        decreases m@.len() - i,
    {
        s.append("  ");
        s.append(m[i].0.as_str());
        s.append(": ");
        s.append(m[i].1.as_str());
        s.append("\n");
        proof {
            let sub = m@.subrange(0, i as int + 1);
            assert(sub.drop_last() =~= m@.subrange(0, i as int));
        }
        i = i + 1;
    }
    assert(m@.subrange(0, m@.len() as int) =~= m@);
}

/// The checkpoint error that a backend error converts to, apart from its timestamp:
/// I/O errors become I/O errors, header, parameter and configuration errors become
/// configuration errors, corrupt records, bad magic and detected corruption become
/// corruption errors, validation failures become validation errors, state errors become
/// state errors, anything else an unknown error. The message is the backend error's
/// description; the source names the backend error.
pub open spec fn converted_kind(e: NativeBackendError) -> CheckpointErrorKind {
    match e {
        NativeBackendError::Io(_) => CheckpointErrorKind::Io,
        NativeBackendError::InvalidHeader { .. } => CheckpointErrorKind::Configuration,
        NativeBackendError::CorruptNodeRecord { .. } => CheckpointErrorKind::Corruption,
        NativeBackendError::CorruptEdgeRecord { .. } => CheckpointErrorKind::Corruption,
        NativeBackendError::InvalidMagic { .. } => CheckpointErrorKind::Corruption,
        NativeBackendError::ValidationFailed { .. } => CheckpointErrorKind::Validation,
        NativeBackendError::InvalidParameter { .. } => CheckpointErrorKind::Configuration,
        NativeBackendError::InvalidState { .. } => CheckpointErrorKind::State,
        NativeBackendError::CorruptionDetected { .. } => CheckpointErrorKind::Corruption,
        _ => CheckpointErrorKind::Unknown,
    }
}

/// The source text recorded for a converted backend error.
pub open spec fn converted_source(e: NativeBackendError) -> Seq<char> {
    let prefix = "NativeBackendError: "@;
    match e {
        NativeBackendError::Io(_) => prefix + native_error_text(e),
        NativeBackendError::InvalidHeader { field, reason } =>
            prefix + "Invalid header "@ + field@ + ": "@ + reason@,
        NativeBackendError::CorruptNodeRecord { node_id, reason } =>
            prefix + "Corrupt node "@ + signed_decimal(node_id as int) + ": "@ + reason@,
        NativeBackendError::CorruptEdgeRecord { edge_id, reason } =>
            prefix + "Corrupt edge "@ + signed_decimal(edge_id as int) + ": "@ + reason@,
        NativeBackendError::InvalidMagic { expected, found } =>
            prefix + "Invalid magic expected "@ + hex(expected as nat) + ", found "@ + hex(found as nat),
        NativeBackendError::ValidationFailed { metric, expected, actual } =>
            prefix + "Validation failed for "@ + metric@ + ": expected "@ + expected@ + ", found "@ + actual@,
        NativeBackendError::InvalidParameter { context } => prefix + context@,
        NativeBackendError::InvalidState { context } => prefix + context@,
        NativeBackendError::CorruptionDetected { context } => prefix + context@,
        _ => "NativeBackendError"@,
    }
}

impl CheckpointError {
    /// Converts a backend error into a checkpoint error.
    pub fn from_native(error: NativeBackendError) -> (e: CheckpointError)
        ensures
            e.kind == converted_kind(error),
            e.message@ == native_error_text(error),
            e.source matches Some(s) && s@ == converted_source(error),
            empty_context(e.context),
            standard_recovery(e.recovery, converted_kind(error)),
    {
        let message = error.to_string();
        let m = message.as_str();
        let mut src = String::from_str("NativeBackendError: ");
        match &error {
            NativeBackendError::Io(_) => {
                src.append(m);
                Self::io(m).with_source(src.as_str())
            },
            NativeBackendError::InvalidHeader { field, reason } => {
                src.append("Invalid header ");
                src.append(field.as_str());
                src.append(": ");
                src.append(reason.as_str());
                Self::configuration(m).with_source(src.as_str())
            },
            NativeBackendError::CorruptNodeRecord { node_id, reason } => {
                src.append("Corrupt node ");
                push_signed_decimal(&mut src, *node_id);
                src.append(": ");
                src.append(reason.as_str());
                Self::corruption(m).with_source(src.as_str())
            },
            NativeBackendError::CorruptEdgeRecord { edge_id, reason } => {
                src.append("Corrupt edge ");
                push_signed_decimal(&mut src, *edge_id);
                src.append(": ");
                src.append(reason.as_str());
                Self::corruption(m).with_source(src.as_str())
            },
            NativeBackendError::InvalidMagic { expected, found } => {
                src.append("Invalid magic expected ");
                push_hex(&mut src, *expected);
                src.append(", found ");
                push_hex(&mut src, *found);
                Self::corruption(m).with_source(src.as_str())
            },
            NativeBackendError::ValidationFailed { metric, expected, actual } => {
                src.append("Validation failed for ");
                src.append(metric.as_str());
                src.append(": expected ");
                src.append(expected.as_str());
                src.append(", found ");
                src.append(actual.as_str());
                Self::validation(m).with_source(src.as_str())
            },
            NativeBackendError::InvalidParameter { context } => {
                src.append(context.as_str());
                Self::configuration(m).with_source(src.as_str())
            },
            NativeBackendError::InvalidState { context } => {
                src.append(context.as_str());
                Self::state(m).with_source(src.as_str())
            },
            NativeBackendError::CorruptionDetected { context } => {
                src.append(context.as_str());
                Self::corruption(m).with_source(src.as_str())
            },
            _ => Self::unknown(m).with_source("NativeBackendError"),
        }
    }
}

impl From<NativeBackendError> for CheckpointError {
    /// Converts a backend error as `CheckpointError::from_native` does.
    fn from(error: NativeBackendError) -> (e: Self) {
        Self::from_native(error)
    }
}

impl vstd::std_specs::convert::FromSpecImpl<NativeBackendError> for CheckpointError {
    /// A converted error carries the time of its conversion, so no single value describes
    /// it; `from_native` states what the conversion produces.
    open spec fn obeys_from_spec() -> bool {
        false
    }

    open spec fn from_spec(v: NativeBackendError) -> Self {
        vstd::pervasive::arbitrary()
    }
}

/// The number of errors in `s` whose kind carries severity `sev`.
pub open spec fn count_severity(s: Seq<CheckpointError>, sev: ErrorSeverity) -> nat
    decreases s.len(),
{
    if s.len() == 0 {
        0
    } else {
        count_severity(s.drop_last(), sev) + if kind_severity(s.last().kind) == sev { 1nat } else { 0nat }
    }
}

/// The number of unrecoverable (corruption) errors in `s`.
pub open spec fn count_unrecoverable(s: Seq<CheckpointError>) -> nat
    decreases s.len(),
{
    if s.len() == 0 {
        0
    } else {
        count_unrecoverable(s.drop_last()) + if s.last().kind == CheckpointErrorKind::Corruption { 1nat } else { 0nat }
    }
}

/// Every error is a warning, an error or critical.
pub proof fn lemma_severity_counts_partition(s: Seq<CheckpointError>)
    ensures
        count_severity(s, ErrorSeverity::Warning) + count_severity(s, ErrorSeverity::Error)
            + count_severity(s, ErrorSeverity::Critical) == s.len(),
        count_unrecoverable(s) <= count_severity(s, ErrorSeverity::Critical),
    decreases s.len(),
{
    if s.len() > 0 {
        lemma_severity_counts_partition(s.drop_last());
    }
}

/// The summary report text, given the rendering `ts` of the collection's timestamp.
pub open spec fn summary_text(errors: Seq<CheckpointError>, ts: Seq<char>) -> Seq<char> {
    if errors.len() == 0 {
        "No checkpoint errors"@
    } else {
        "Checkpoint Error Summary\n========================\nTotal Errors: "@ + decimal(errors.len())
            + "\nWarnings: "@ + decimal(count_severity(errors, ErrorSeverity::Warning))
            + "\nErrors: "@ + decimal(count_severity(errors, ErrorSeverity::Error))
            + "\nCritical: "@ + decimal(count_severity(errors, ErrorSeverity::Critical))
            + "\nRecoverable: "@ + decimal((errors.len() - count_unrecoverable(errors)) as nat)
            + "\nTimestamp: "@ + ts
    }
}

/// A retry advice suggests waiting its own backoff, "increase timeout" suggests 5000 ms, and
/// no other advice suggests a delay.
pub proof fn lemma_retry_delay_follows_advice(r: RecoverySuggestion)
    ensures
        forall|a: u32, b: u64| r == (RecoverySuggestion::Retry { max_attempts: a, backoff_ms: b })
            ==> retry_delay(r) == Some(b),
        r == RecoverySuggestion::IncreaseTimeout ==> retry_delay(r) == Some(5000u64),
        !(r is Retry) && r != RecoverySuggestion::IncreaseTimeout ==> retry_delay(r) is None,
{
}

/// The summary report of a collection: its summary text with its own timestamp rendered.
pub open spec fn summary_report_text(c: CheckpointErrorCollection) -> Seq<char> {
    summary_text(c.errors@, spec_time_text(c.timestamp))
}

/// The retry delay in milliseconds that a recovery advice suggests: the backoff of a retry,
/// 5000 for "increase timeout", none otherwise.
pub open spec fn retry_delay(r: RecoverySuggestion) -> Option<u64> {
    match r {
        RecoverySuggestion::Retry { backoff_ms, .. } => Some(backoff_ms),
        RecoverySuggestion::IncreaseTimeout => Some(5000u64),
        _ => None,
    }
}

/// The per-error lines of the detailed report, numbered from `first`.
pub open spec fn detail_lines(errors: Seq<CheckpointError>) -> Seq<char>
    decreases errors.len(),
{
    if errors.len() == 0 {
        Seq::empty()
    } else {
        let e = errors.last();
        detail_lines(errors.drop_last()) + "\n"@ + decimal(errors.len()) + ". "@ + error_text(e)
            + "\n"@ + match retry_delay(e.recovery) {
            Some(d) => "   Retry delay: "@ + decimal(d as nat) + "ms\n"@,
            None => Seq::empty(),
        }
    }
}

/// A collection of checkpoint errors.
#[derive(Debug, Clone)]
pub struct CheckpointErrorCollection {
    /// The errors, in the order they were added.
    pub errors: Vec<CheckpointError>,
    /// When the collection was created.
    pub timestamp: std::time::SystemTime,
}

impl Default for CheckpointErrorCollection {
    fn default() -> (c: Self)
        ensures
            c.errors@.len() == 0,
    {
        Self::new()
    }
}

impl CheckpointErrorCollection {
    /// An empty collection, stamped with the current time.
    pub fn new() -> (c: Self)
        ensures
            c.errors@.len() == 0,
    {
        CheckpointErrorCollection { errors: Vec::new(), timestamp: system_now() }
    }

    /// Adds one error at the end.
    pub fn add_error(&mut self, error: CheckpointError)
        ensures
            final(self).errors@ == old(self).errors@.push(error),
            final(self).timestamp == old(self).timestamp,
    {
        self.errors.push(error);
    }

    /// Adds the errors of `errors` at the end, in order.
    pub fn add_errors(&mut self, errors: Vec<CheckpointError>)
        ensures
            final(self).errors@ == old(self).errors@ + errors@,
            final(self).timestamp == old(self).timestamp,
    {
        let mut errors = errors;
        self.errors.append(&mut errors);
    }

    /// Whether the collection holds any error.
    pub fn has_errors(&self) -> (b: bool)
        ensures
            b == (self.errors@.len() > 0),
    {
        self.errors.len() != 0
    }

    /// The highest severity among the errors; none for an empty collection.
    pub fn highest_severity(&self) -> (r: Option<ErrorSeverity>)
        ensures
            r is None <==> self.errors@.len() == 0,
            r matches Some(m) ==> (exists|i: int| 0 <= i < self.errors@.len()
                && kind_severity(#[trigger] self.errors@[i].kind) == m),
            r matches Some(m) ==> (forall|i: int| 0 <= i < self.errors@.len()
                ==> severity_rank(kind_severity(#[trigger] self.errors@[i].kind)) <= severity_rank(m)),
    {
        let mut best: Option<ErrorSeverity> = None;
        let mut i: usize = 0;
        while i < self.errors.len()
            invariant
                0 <= i <= self.errors@.len(),
                best is None <==> i == 0,
                best matches Some(m) ==> (exists|j: int| 0 <= j < i
                    && kind_severity(#[trigger] self.errors@[j].kind) == m),
                best matches Some(m) ==> (forall|j: int| 0 <= j < i
                    ==> severity_rank(kind_severity(#[trigger] self.errors@[j].kind)) <= severity_rank(m)),
            decreases self.errors@.len() - i,
        {
            let s = self.errors[i].severity();
            match best {
                None => {
                    best = Some(s);
                    assert(kind_severity(self.errors@[i as int].kind) == s);
                },
                Some(m) => {
                    if s.rank() >= m.rank() {
                        best = Some(s);
                        assert(kind_severity(self.errors@[i as int].kind) == s);
                    }
                },
            }
            i = i + 1;
        }
        best
    }

    /// The numbers of warnings, errors and critical errors in the collection.
    pub fn count_by_severity(&self) -> (r: (usize, usize, usize))
        ensures
            r.0 == count_severity(self.errors@, ErrorSeverity::Warning),
            r.1 == count_severity(self.errors@, ErrorSeverity::Error),
            r.2 == count_severity(self.errors@, ErrorSeverity::Critical),
    {
        let mut warning: usize = 0;
        let mut error_count: usize = 0;
        let mut critical: usize = 0;
        let mut i: usize = 0;
        while i < self.errors.len()
            invariant
                0 <= i <= self.errors@.len(),
                warning == count_severity(self.errors@.subrange(0, i as int), ErrorSeverity::Warning),
                error_count == count_severity(self.errors@.subrange(0, i as int), ErrorSeverity::Error),
                critical == count_severity(self.errors@.subrange(0, i as int), ErrorSeverity::Critical),
            decreases self.errors@.len() - i,
        {
            proof {
                let sub = self.errors@.subrange(0, i as int + 1);
                assert(sub.drop_last() =~= self.errors@.subrange(0, i as int));
                lemma_severity_counts_partition(self.errors@.subrange(0, i as int));
            }
            match self.errors[i].severity() {
                ErrorSeverity::Warning => warning = warning + 1,
                ErrorSeverity::Error => error_count = error_count + 1,
                ErrorSeverity::Critical => critical = critical + 1,
            }
            i = i + 1;
        }
        assert(self.errors@.subrange(0, self.errors@.len() as int) =~= self.errors@);
        (warning, error_count, critical)
    }

    fn count_unrecoverable_errors(&self) -> (n: usize)
        ensures
            n == count_unrecoverable(self.errors@),
    {
        let mut n: usize = 0;
        let mut i: usize = 0;
        while i < self.errors.len()
            invariant
                0 <= i <= self.errors@.len(),
                n == count_unrecoverable(self.errors@.subrange(0, i as int)),
            decreases self.errors@.len() - i,
        {
            proof {
                let sub = self.errors@.subrange(0, i as int + 1);
                assert(sub.drop_last() =~= self.errors@.subrange(0, i as int));
                lemma_severity_counts_partition(self.errors@.subrange(0, i as int));
            }
            if !self.errors[i].is_recoverable() {
                n = n + 1;
            }
            i = i + 1;
        }
        assert(self.errors@.subrange(0, self.errors@.len() as int) =~= self.errors@);
        n
    }

    /// Whether any error is unrecoverable.
    pub fn has_unrecoverable_errors(&self) -> (b: bool)
        ensures
            b == (exists|i: int| 0 <= i < self.errors@.len()
                && #[trigger] self.errors@[i].kind == CheckpointErrorKind::Corruption),
    {
        let mut i: usize = 0;
        while i < self.errors.len()
            invariant
                0 <= i <= self.errors@.len(),
                forall|j: int| 0 <= j < i ==> #[trigger] self.errors@[j].kind != CheckpointErrorKind::Corruption,
            decreases self.errors@.len() - i,
        {
            if !self.errors[i].is_recoverable() {
                return true;
            }
            i = i + 1;
        }
        false
    }

    /// A summary of the collection: totals by severity, the number of recoverable errors and
    /// the collection's timestamp; "No checkpoint errors" when empty.
    pub fn summary_report(&self) -> (r: String)
        ensures
            r@ == summary_report_text(*self),
    {
        if !self.has_errors() {
            let r = String::from_str("No checkpoint errors");
            assert(r@ == summary_report_text(*self));
            return r;
        }
        let (warning, error, critical) = self.count_by_severity();
        let total = self.errors.len();
        let unrecoverable = self.count_unrecoverable_errors();
        proof {
            lemma_severity_counts_partition(self.errors@);
        }
        let mut r = String::from_str("Checkpoint Error Summary\n========================\nTotal Errors: ");
        push_decimal(&mut r, total as u64);
        r.append("\nWarnings: ");
        push_decimal(&mut r, warning as u64);
        r.append("\nErrors: ");
        push_decimal(&mut r, error as u64);
        r.append("\nCritical: ");
        push_decimal(&mut r, critical as u64);
        r.append("\nRecoverable: ");
        push_decimal(&mut r, (total - unrecoverable) as u64);
        r.append("\nTimestamp: ");
        let ts = system_time_text(&self.timestamp);
        r.append(ts.as_str());
        assert(r@ =~= summary_text(self.errors@, ts@));
        r
    }

    /// The summary report followed by one numbered line per error (its Display rendering) and,
    /// where the error suggests one, its retry delay; "No checkpoint errors" when empty.
    pub fn detailed_report(&self) -> (r: String)
        ensures
            self.errors@.len() == 0 ==> r@ == "No checkpoint errors"@,
            self.errors@.len() > 0 ==> r@ == summary_report_text(*self) + "\n\nDetailed Errors:\n"@
                + detail_lines(self.errors@),
    {
        if !self.has_errors() {
            return String::from_str("No checkpoint errors");
        }
        let mut r = self.summary_report();
        let ghost summary = r@;
        r.append("\n\nDetailed Errors:\n");
        let ghost start = r@;
        let mut i: usize = 0;
        while i < self.errors.len()
            invariant
                0 <= i <= self.errors@.len(),
                r@ == start + detail_lines(self.errors@.subrange(0, i as int)),
            decreases self.errors@.len() - i,
        {
            let ghost before = r@;
            r.append("\n");
            push_decimal(&mut r, (i + 1) as u64);
            r.append(". ");
            let line = self.errors[i].to_string();
            r.append(line.as_str());
            r.append("\n");
            if let Some(retry_delay) = self.errors[i].retry_delay_ms() {
                r.append("   Retry delay: ");
                push_decimal(&mut r, retry_delay);
                r.append("ms\n");
            }
            proof {
                let sub = self.errors@.subrange(0, i as int + 1);
                assert(sub.drop_last() =~= self.errors@.subrange(0, i as int));
                assert(sub.last() == self.errors@[i as int]);
                assert(r@ =~= start + detail_lines(sub));
            }
            i = i + 1;
        }
        assert(self.errors@.subrange(0, self.errors@.len() as int) =~= self.errors@);
        r
    }
}

} // verus!
