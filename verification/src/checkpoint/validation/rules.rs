//! Validation rules for checkpoint files, the engine that holds them, and the checks of
//! a checkpoint file's size, magic and version.
use vstd::prelude::*;
use crate::bytes::u32_at;
use crate::checkpoint::constants::{MAX_CHECKPOINT_SIZE, MIN_CHECKPOINT_SIZE};
use crate::checkpoint::errors::{made_by, CheckpointError, CheckpointErrorKind, CheckpointResult};
use crate::checkpoint::io::checkpoint_writer::checkpoint_magic;
use crate::checkpoint::io::multi_file::eof_text;
use crate::bytes::read_u32_le;
use crate::config::V2WALConfig;
use crate::duration::Duration;
use crate::text::{byte_list_text, decimal, push_byte_list, push_decimal};

verus! {

broadcast use vstd::seq_lib::group_seq_properties;

/// How serious a failed validation rule is.
#[derive(Debug, Clone, Copy, PartialEq, Eq, PartialOrd, Ord, Hash, Structural)]
pub enum ValidationSeverity {
    /// Informational.
    Info,
    /// Does not prevent the checkpoint.
    Warning,
    /// Prevents the checkpoint.
    Error,
    /// Needs immediate attention.
    Critical,
}

/// The rank of a severity (Info 0, Warning 1, Error 2, Critical 3).
pub open spec fn validation_rank(s: ValidationSeverity) -> nat {
    match s {
        ValidationSeverity::Info => 0,
        ValidationSeverity::Warning => 1,
        ValidationSeverity::Error => 2,
        ValidationSeverity::Critical => 3,
    }
}

impl ValidationSeverity {
    /// The rank of this severity (Info 0, Warning 1, Error 2, Critical 3).
    pub fn rank(&self) -> (r: u8)
        ensures
            r == validation_rank(*self),
    {
        match self {
            ValidationSeverity::Info => 0,
            ValidationSeverity::Warning => 1,
            ValidationSeverity::Error => 2,
            ValidationSeverity::Critical => 3,
        }
    }
}

/// A validation rule.
#[derive(Debug)]
pub struct ValidationRule {
    /// Identifier.
    pub id: String,
    /// What the rule checks.
    pub description: String,
    /// How serious a failure is.
    pub severity: ValidationSeverity,
    /// Whether the rule is applied.
    pub enabled: bool,
}

impl Clone for ValidationRule {
    /// An equal rule.
    fn clone(&self) -> (r: Self)
        ensures
            r == *self,
    {
        ValidationRule {
            id: self.id.clone(),
            description: self.description.clone(),
            severity: self.severity,
            enabled: self.enabled,
        }
    }
}

/// A rule as plain values: identifier, description, severity, enabled.
pub open spec fn rule_view(r: ValidationRule) -> (Seq<char>, Seq<char>, ValidationSeverity, bool) {
    (r.id@, r.description@, r.severity, r.enabled)
}

/// Rules as plain values.
pub open spec fn rules_view(s: Seq<ValidationRule>) -> Seq<(Seq<char>, Seq<char>, ValidationSeverity, bool)> {
    s.map_values(|r: ValidationRule| rule_view(r))
}

/// The rules an engine starts with.
pub open spec fn default_rules() -> Seq<(Seq<char>, Seq<char>, ValidationSeverity, bool)> {
    seq![
        ("file_exists"@, "Checkpoint file must exist"@, ValidationSeverity::Critical, true),
        ("file_not_empty"@, "Checkpoint file must not be empty"@, ValidationSeverity::Error, true),
        ("min_file_size"@, "Checkpoint file must meet minimum size requirements"@, ValidationSeverity::Error, true),
        ("max_file_size"@, "Checkpoint file must not exceed maximum size limits"@, ValidationSeverity::Error, true),
        ("magic_number"@, "Checkpoint file must have correct magic number"@, ValidationSeverity::Critical, true),
        ("version_compatibility"@, "Checkpoint file version must be supported"@, ValidationSeverity::Critical, true),
        ("v2_metadata"@, "V2-specific metadata must be valid"@, ValidationSeverity::Error, true),
        ("lsn_range_valid"@, "LSN range must be valid and contiguous"@, ValidationSeverity::Error, true),
        ("block_size_valid"@, "V2 block size must match expected value"@, ValidationSeverity::Critical, true),
        ("cluster_alignment"@, "Cluster alignment must be correct"@, ValidationSeverity::Error, true),
    ]
}

/// The position of the first rule of `v`, from position `from` on, with identifier `id`.
pub open spec fn first_rule(v: Seq<(Seq<char>, Seq<char>, ValidationSeverity, bool)>, id: Seq<char>, from: nat) -> Option<nat>
    decreases v.len() - from,
{
    if from >= v.len() {
        None
    } else if v[from as int].0 == id {
        Some(from)
    } else {
        first_rule(v, id, from + 1)
    }
}

proof fn lemma_first_rule_bounds(v: Seq<(Seq<char>, Seq<char>, ValidationSeverity, bool)>, id: Seq<char>, from: nat)
    ensures
        first_rule(v, id, from) matches Some(i) ==> from <= i < v.len() && v[i as int].0 == id,
    decreases v.len() - from,
{
    if from < v.len() && v[from as int].0 != id {
        lemma_first_rule_bounds(v, id, from + 1);
    }
}

/// Whether a rule is enabled and at least as serious as `min`.
pub open spec fn selected(min: ValidationSeverity) -> spec_fn((Seq<char>, Seq<char>, ValidationSeverity, bool)) -> bool {
    |r: (Seq<char>, Seq<char>, ValidationSeverity, bool)| r.3 && validation_rank(r.2) >= validation_rank(min)
}

/// A set of validation rules, in order.
#[derive(Debug, Clone)]
pub struct ValidationRuleEngine {
    rules: Vec<ValidationRule>,
}

impl View for ValidationRuleEngine {
    type V = Seq<(Seq<char>, Seq<char>, ValidationSeverity, bool)>;

    /// The rules, as plain values.
    closed spec fn view(&self) -> Self::V {
        rules_view(self.rules@)
    }
}

fn make_rule(id: &str, description: &str, severity: ValidationSeverity) -> (r: ValidationRule)
    ensures
        rule_view(r) == (id@, description@, severity, true),
{
    ValidationRule { id: String::from_str(id), description: String::from_str(description), severity, enabled: true }
}

fn find_rule(rules: &Vec<ValidationRule>, rule_id: &str) -> (r: Option<usize>)
    ensures
        r matches Some(p) ==> first_rule(rules_view(rules@), rule_id@, 0) == Some(p as nat) && p < rules@.len(),
        r is None ==> first_rule(rules_view(rules@), rule_id@, 0) is None,
{
    proof { lemma_first_rule_bounds(rules_view(rules@), rule_id@, 0); }
    let ghost v = rules_view(rules@);
    let target = String::from_str(rule_id);
    let mut i: usize = 0;
    while i < rules.len()
        invariant
            0 <= i <= rules@.len(),
            v == rules_view(rules@),
            target@ == rule_id@,
            first_rule(v, rule_id@, 0) == first_rule(v, rule_id@, i as nat),
        decreases rules@.len() - i,
    {
        if rules[i].id == target {
            return Some(i);
        }
        i = i + 1;
    }
    None
}

impl ValidationRuleEngine {
    /// An engine holding the default rules: file existence, emptiness, minimum and maximum
    /// size, magic number, version, V2 metadata, LSN range, block size and cluster alignment.
    pub fn new() -> (e: Self)
        ensures
            e@ == default_rules(),
    {
        let mut rules: Vec<ValidationRule> = Vec::new();
        rules.push(make_rule("file_exists", "Checkpoint file must exist", ValidationSeverity::Critical));
        rules.push(make_rule("file_not_empty", "Checkpoint file must not be empty", ValidationSeverity::Error));
        rules.push(make_rule(
            "min_file_size",
            "Checkpoint file must meet minimum size requirements",
            ValidationSeverity::Error,
        ));
        rules.push(make_rule(
            "max_file_size",
            "Checkpoint file must not exceed maximum size limits",
            ValidationSeverity::Error,
        ));
        rules.push(make_rule(
            "magic_number",
            "Checkpoint file must have correct magic number",
            ValidationSeverity::Critical,
        ));
        rules.push(make_rule(
            "version_compatibility",
            "Checkpoint file version must be supported",
            ValidationSeverity::Critical,
        ));
        rules.push(make_rule("v2_metadata", "V2-specific metadata must be valid", ValidationSeverity::Error));
        rules.push(make_rule("lsn_range_valid", "LSN range must be valid and contiguous", ValidationSeverity::Error));
        rules.push(make_rule(
            "block_size_valid",
            "V2 block size must match expected value",
            ValidationSeverity::Critical,
        ));
        rules.push(make_rule("cluster_alignment", "Cluster alignment must be correct", ValidationSeverity::Error));
        let e = ValidationRuleEngine { rules };
        assert(e@ =~= default_rules());
        e
    }

    /// Appends `rule`.
    pub fn add_rule(&mut self, rule: ValidationRule)
        ensures
            final(self)@ == old(self)@.push(rule_view(rule)),
    {
        self.rules.push(rule);
        assert(final(self)@ =~= old(self)@.push(rule_view(rule)));
    }

    /// Removes the first rule with identifier `rule_id`; tells whether there was one.
    pub fn remove_rule(&mut self, rule_id: &str) -> (removed: bool)
        ensures
            match first_rule(old(self)@, rule_id@, 0) {
                Some(i) => removed && final(self)@ == old(self)@.remove(i as int),
                None => !removed && final(self)@ == old(self)@,
            },
    {
        match find_rule(&self.rules, rule_id) {
            Some(pos) => {
                let ghost before = self.rules@;
                self.rules.remove(pos);
                assert(self@ =~= old(self)@.remove(pos as int));
                true
            },
            None => false,
        }
    }

    /// Sets whether the first rule with identifier `rule_id` is applied; tells whether
    /// there was one.
    pub fn set_rule_enabled(&mut self, rule_id: &str, enabled: bool) -> (found: bool)
        ensures
            match first_rule(old(self)@, rule_id@, 0) {
                Some(i) => found && final(self)@ == old(self)@.update(
                    i as int,
                    (old(self)@[i as int].0, old(self)@[i as int].1, old(self)@[i as int].2, enabled),
                ),
                None => !found && final(self)@ == old(self)@,
            },
    {
        match find_rule(&self.rules, rule_id) {
            Some(pos) => {
                let mut rule = self.rules.remove(pos);
                rule.enabled = enabled;
                self.rules.insert(pos, rule);
                proof {
                    let i = pos as int;
                    let v0 = old(self)@;
                    assert(self@ =~= v0.update(i, (v0[i].0, v0[i].1, v0[i].2, enabled)));
                }
                true
            },
            None => false,
        }
    }

    /// The enabled rules at least as serious as `min_severity`, in order.
    pub fn get_enabled_rules(&self, min_severity: ValidationSeverity) -> (r: Vec<&ValidationRule>)
        ensures
            r@.map_values(|x: &ValidationRule| rule_view(*x)) == self@.filter(selected(min_severity)),
    {
        let ghost v = self@;
        let ghost pred = selected(min_severity);
        let min_rank = min_severity.rank();
        let mut out: Vec<&ValidationRule> = Vec::new();
        let mut i: usize = 0;
        while i < self.rules.len()
            invariant
                0 <= i <= self.rules@.len(),
                v == self@,
                v == rules_view(self.rules@),
                pred == selected(min_severity),
                min_rank == validation_rank(min_severity),
                out@.map_values(|x: &ValidationRule| rule_view(*x)) == v.subrange(0, i as int).filter(pred),
            decreases self.rules@.len() - i,
        {
            let rule = &self.rules[i];
            proof {
                assert(v.subrange(0, i as int + 1) =~= v.subrange(0, i as int).push(v[i as int]));
                v.subrange(0, i as int).lemma_filter_push(v[i as int], pred);
            }
            let ghost before = out@;
            if rule.enabled && rule.severity.rank() >= min_rank {
                out.push(rule);
                assert(out@.map_values(|x: &ValidationRule| rule_view(*x))
                    =~= before.map_values(|x: &ValidationRule| rule_view(*x)).push(v[i as int]));
            }
            i = i + 1;
        }
        assert(v.subrange(0, v.len() as int) =~= v);
        out
    }

    /// The first rule with identifier `rule_id`, if any.
    pub fn get_rule(&self, rule_id: &str) -> (r: Option<&ValidationRule>)
        ensures
            match first_rule(self@, rule_id@, 0) {
                Some(i) => r matches Some(x) && rule_view(*x) == self@[i as int],
                None => r is None,
            },
    {
        match find_rule(&self.rules, rule_id) {
            Some(pos) => {
                assert(rule_view(self.rules@[pos as int]) == self@[pos as int]);
                Some(&self.rules[pos])
            },
            None => None,
        }
    }

    /// All rules, in order.
    pub fn get_all_rules(&self) -> (r: &[ValidationRule])
        ensures
            rules_view(r@) == self@,
    {
        self.rules.as_slice()
    }
}

/// Checks of a checkpoint file. Each takes what the caller read of the file.
pub struct FileValidationRules;

/// Why a checkpoint file of the observed size fails the size rules, if it does.
pub open spec fn file_size_fault(len: Result<u64, String>) -> Option<Seq<char>> {
    match len {
        Err(t) => Some("Failed to read checkpoint metadata: "@ + t@),
        Ok(n) => if n == 0 {
            Some("Checkpoint file is empty"@)
        } else if n < MIN_CHECKPOINT_SIZE {
            Some("Checkpoint file too small: "@ + decimal(n as nat) + " bytes (minimum: "@
                + decimal(MIN_CHECKPOINT_SIZE as nat) + ")"@)
        } else if n > MAX_CHECKPOINT_SIZE {
            Some("Checkpoint file too large: "@ + decimal(n as nat) + " bytes (maximum: "@
                + decimal(MAX_CHECKPOINT_SIZE as nat) + ")"@)
        } else {
            None
        },
    }
}

/// Why the first bytes `b` of a checkpoint file do not hold its magic, if they do not.
pub open spec fn magic_fault(b: Seq<u8>) -> Option<Seq<char>> {
    if b.len() < 4 {
        Some("Failed to read checkpoint magic: "@ + eof_text())
    } else if b.subrange(0, 4) != checkpoint_magic() {
        Some("Invalid checkpoint magic: expected "@ + byte_list_text(checkpoint_magic()) + ", got "@
            + byte_list_text(b.subrange(0, 4)))
    } else {
        None
    }
}

/// Why the bytes `b`, read where a checkpoint version stands, do not hold a supported one.
pub open spec fn version_fault(b: Seq<u8>) -> Option<Seq<char>> {
    if b.len() < 4 {
        Some("Failed to read checkpoint version: "@ + eof_text())
    } else if u32_at(b, 0) != 1 {
        Some("Unsupported checkpoint version: "@ + decimal(u32_at(b, 0) as nat) + " (supported: 1)"@)
    } else {
        None
    }
}

impl FileValidationRules {
    /// Whether the checkpoint file exists, as the caller found: never an error.
    pub fn validate_file_exists(file_exists: bool) -> (r: CheckpointResult<bool>)
        ensures
            r matches Ok(b) && b == file_exists,
    {
        Ok(file_exists)
    }

    /// Accepts a checkpoint file of `len` bytes (or the reason its size could not be read)
    /// when it is not empty and lies between the minimum and maximum checkpoint sizes.
    pub fn validate_file_size(len: &Result<u64, String>) -> (r: CheckpointResult<()>)
        ensures
            match file_size_fault(*len) {
                None => r is Ok,
                Some(m) => r matches Err(e) && made_by(e, CheckpointErrorKind::Validation, m),
            },
    {
        match len {
            Err(t) => {
                let mut m = String::from_str("Failed to read checkpoint metadata: ");
                m.append(t.as_str());
                Err(CheckpointError::validation(m.as_str()))
            },
            Ok(n) => {
                let n = *n;
                if n == 0 {
                    Err(CheckpointError::validation("Checkpoint file is empty"))
                } else if n < MIN_CHECKPOINT_SIZE {
                    let mut m = String::from_str("Checkpoint file too small: ");
                    push_decimal(&mut m, n);
                    m.append(" bytes (minimum: ");
                    push_decimal(&mut m, MIN_CHECKPOINT_SIZE);
                    m.append(")");
                    Err(CheckpointError::validation(m.as_str()))
                } else if n > MAX_CHECKPOINT_SIZE {
                    let mut m = String::from_str("Checkpoint file too large: ");
                    push_decimal(&mut m, n);
                    m.append(" bytes (maximum: ");
                    push_decimal(&mut m, MAX_CHECKPOINT_SIZE);
                    m.append(")");
                    Err(CheckpointError::validation(m.as_str()))
                } else {
                    Ok(())
                }
            },
        }
    }

    /// Accepts the first bytes of a checkpoint file when they start with its magic "CKPT".
    pub fn validate_magic_number(bytes: &[u8]) -> (r: CheckpointResult<()>)
        ensures
            match magic_fault(bytes@) {
                None => r is Ok,
                Some(m) => r matches Err(e) && made_by(e, CheckpointErrorKind::Validation, m),
            },
    {
        if bytes.len() < 4 {
            let mut m = String::from_str("Failed to read checkpoint magic: ");
            m.append("failed to fill whole buffer");
            return Err(CheckpointError::validation(m.as_str()));
        }
        let magic: [u8; 4] = [67u8, 75u8, 80u8, 84u8];
        let found: [u8; 4] = [bytes[0], bytes[1], bytes[2], bytes[3]];
        proof {
            assert(magic@ =~= checkpoint_magic());
            assert(found@ =~= bytes@.subrange(0, 4));
        }
        if bytes[0] != 67u8 || bytes[1] != 75u8 || bytes[2] != 80u8 || bytes[3] != 84u8 {
            proof {
                assert(bytes@.subrange(0, 4) != checkpoint_magic()) by {
                    if bytes@.subrange(0, 4) == checkpoint_magic() {
                        assert(bytes@.subrange(0, 4)[0] == bytes@[0]);
                        assert(bytes@.subrange(0, 4)[1] == bytes@[1]);
                        assert(bytes@.subrange(0, 4)[2] == bytes@[2]);
                        assert(bytes@.subrange(0, 4)[3] == bytes@[3]);
                    }
                }
            }
            let mut m = String::from_str("Invalid checkpoint magic: expected ");
            push_byte_list(&mut m, magic.as_slice());
            m.append(", got ");
            push_byte_list(&mut m, found.as_slice());
            return Err(CheckpointError::validation(m.as_str()));
        }
        assert(bytes@.subrange(0, 4) =~= checkpoint_magic());
        Ok(())
    }

    /// Reads the version at the start of `bytes` and accepts it when it is 1, returning it.
    pub fn validate_version(bytes: &[u8]) -> (r: CheckpointResult<u32>)
        ensures
            match version_fault(bytes@) {
                None => r == Ok::<u32, CheckpointError>(1),
                Some(m) => r matches Err(e) && made_by(e, CheckpointErrorKind::Validation, m),
            },
    {
        if bytes.len() < 4 {
            let mut m = String::from_str("Failed to read checkpoint version: ");
            m.append("failed to fill whole buffer");
            return Err(CheckpointError::validation(m.as_str()));
        }
        let version = read_u32_le(bytes, 0);
        if version != 1 {
            let mut m = String::from_str("Unsupported checkpoint version: ");
            push_decimal(&mut m, version as u64);
            m.append(" (supported: 1)");
            return Err(CheckpointError::validation(m.as_str()));
        }
        Ok(version)
    }
}

/// How strictly rules are applied.
#[derive(Debug, Clone, Copy)]
pub struct ValidationConfig {
    /// Apply every enabled rule.
    pub strict_mode: bool,
    /// Least severity of the rules applied outside strict mode.
    pub min_error_severity: ValidationSeverity,
    /// Also apply warnings outside strict mode.
    pub allow_warnings: bool,
    /// Time allowed for a validation.
    pub validation_timeout: Duration,
}

impl Default for ValidationConfig {
    /// Not strict, errors and above, warnings allowed, 30 seconds.
    fn default() -> (c: Self)
        ensures
            !c.strict_mode,
            c.min_error_severity == ValidationSeverity::Error,
            c.allow_warnings,
            c.validation_timeout@ == 30_000_000_000,
    {
        ValidationConfig {
            strict_mode: false,
            min_error_severity: ValidationSeverity::Error,
            allow_warnings: true,
            validation_timeout: Duration::from_secs(30),
        }
    }
}

/// Whether `rule` is applied under `c`: an enabled rule is applied in strict mode, or when
/// it is at least as serious as the configured least severity, or when it is a warning and
/// warnings are allowed.
pub open spec fn executes(c: ValidationConfig, rule: ValidationRule) -> bool {
    rule.enabled && (c.strict_mode || validation_rank(rule.severity) >= validation_rank(c.min_error_severity)
        || (c.allow_warnings && rule.severity == ValidationSeverity::Warning))
}

/// What a validation runs with: the log configuration, how strictly rules apply, the
/// checkpoint file's path and the rules.
#[derive(Debug)]
pub struct ValidationContext<'a> {
    /// Log configuration.
    pub config: &'a V2WALConfig,
    /// How strictly rules apply.
    pub validation_config: ValidationConfig,
    /// Path of the checkpoint file.
    pub checkpoint_path: &'a str,
    /// The rules.
    pub rule_engine: &'a ValidationRuleEngine,
}

impl<'a> ValidationContext<'a> {
    /// A context with the default strictness.
    pub fn new(config: &'a V2WALConfig, checkpoint_path: &'a str, rule_engine: &'a ValidationRuleEngine) -> (c: Self)
        ensures
            c.config == config,
            c.checkpoint_path == checkpoint_path,
            c.rule_engine == rule_engine,
            !c.validation_config.strict_mode,
            c.validation_config.min_error_severity == ValidationSeverity::Error,
            c.validation_config.allow_warnings,
            c.validation_config.validation_timeout@ == 30_000_000_000,
    {
        ValidationContext { config, validation_config: ValidationConfig::default(), checkpoint_path, rule_engine }
    }

    /// A context with the given strictness.
    pub fn with_validation_config(
        config: &'a V2WALConfig,
        checkpoint_path: &'a str,
        rule_engine: &'a ValidationRuleEngine,
        validation_config: ValidationConfig,
    ) -> (c: Self)
        ensures
            c.config == config,
            c.checkpoint_path == checkpoint_path,
            c.rule_engine == rule_engine,
            c.validation_config == validation_config,
    {
        ValidationContext { config, validation_config, checkpoint_path, rule_engine }
    }

    /// Whether `rule` is applied in this context.
    pub fn should_execute_rule(&self, rule: &ValidationRule) -> (b: bool)
        ensures
            b == executes(self.validation_config, *rule),
    {
        if !rule.enabled {
            return false;
        }
        if self.validation_config.strict_mode {
            return true;
        }
        if rule.severity.rank() >= self.validation_config.min_error_severity.rank() {
            return true;
        }
        if self.validation_config.allow_warnings && rule.severity.rank() == 1 {
            return true;
        }
        false
    }
}

} // verus!
