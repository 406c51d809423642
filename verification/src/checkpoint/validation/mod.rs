//! Validation of checkpoints: rules, consistency, V2 invariants and reports, and the
//! validator and cleanup components built from them.
pub mod consistency;
pub mod invariants;
pub mod reporting;
pub mod retention;
pub mod rules;

use vstd::prelude::*;
use crate::bytes::tail_bytes;
use crate::checkpoint::constants::{DEFAULT_CHECKPOINT_TIMEOUT_MS, MAX_GLOBAL_DIRTY_BLOCKS};
use crate::checkpoint::errors::{made_by, CheckpointError, CheckpointErrorKind, CheckpointResult};
use crate::checkpoint::strategies::{elapsed_since};
use crate::checkpoint::tracking::{cleared_clusters, CheckpointState, DirtyBlockTracker};
use crate::seqs::not_in;
use crate::checkpoint::validation::consistency::{
    lsn_violations, tolerable, violations_view, CheckpointConsistencyValidator,
};
use crate::checkpoint::validation::invariants::V2InvariantValidator;
use crate::checkpoint::validation::reporting::CheckpointValidationReporter;
use crate::checkpoint::validation::rules::{
    file_size_fault, magic_fault, rules_view, version_fault, FileValidationRules, ValidationRule,
    ValidationRuleEngine, default_rules,
};
use crate::config::V2WALConfig;
use crate::duration::Duration;
use crate::text::{decimal, push_decimal};

verus! {

/// Why a checkpoint file, as observed, fails the file checks, if it does: its size, then
/// opening it, then its magic, then its version.
pub open spec fn file_check_fault(len: Result<u64, String>, head: Result<Vec<u8>, String>) -> Option<Seq<char>> {
    if file_size_fault(len) is Some {
        file_size_fault(len)
    } else {
        match head {
            Err(t) => Some("Failed to open checkpoint file: "@ + t@),
            Ok(b) => if magic_fault(b@) is Some {
                magic_fault(b@)
            } else {
                version_fault(b@.subrange(4, b@.len() as int))
            },
        }
    }
}

/// Validates checkpoints with all validation components.
pub struct CheckpointValidator {
    config: V2WALConfig,
    rule_engine: ValidationRuleEngine,
    consistency_validator: CheckpointConsistencyValidator,
    invariants_validator: V2InvariantValidator,
    reporter: CheckpointValidationReporter,
}

impl CheckpointValidator {
    /// A validator for the log of `config`, with the default rules.
    pub fn new(config: V2WALConfig) -> (v: Self)
        ensures
            v.config() == config,
            v.wf(),
            v.rule_engine_spec()@ == default_rules(),
    {
        let rule_engine = ValidationRuleEngine::new();
        let consistency_validator = CheckpointConsistencyValidator::new(config.clone());
        let invariants_validator = V2InvariantValidator::new(config.clone());
        let reporter = CheckpointValidationReporter::new(config.clone());
        CheckpointValidator { config, rule_engine, consistency_validator, invariants_validator, reporter }
    }

    /// The parts all serve the validator's log.
    #[verifier::type_invariant]
    pub closed spec fn wf(&self) -> bool {
        &&& self.consistency_validator.config() == self.config
        &&& self.invariants_validator.config() == self.config
        &&& self.reporter.config() == self.config
    }

    /// The configuration of the log.
    pub closed spec fn config(&self) -> V2WALConfig {
        self.config
    }

    /// Validates the checkpoint file as the caller observed it: whether it exists, its size
    /// (or why it could not be read) and its first bytes (or why it could not be opened).
    /// A missing file is not valid; an existing one must pass the size, magic and version
    /// checks, or the first failing check is reported.
    pub fn validate_checkpoint_file(
        &self,
        exists: bool,
        len: &Result<u64, String>,
        head: &Result<Vec<u8>, String>,
    ) -> (r: CheckpointResult<bool>)
        ensures
            !exists ==> r == Ok::<bool, CheckpointError>(false),
            exists ==> match file_check_fault(*len, *head) {
                None => r == Ok::<bool, CheckpointError>(true),
                Some(m) => r matches Err(e) && made_by(e, CheckpointErrorKind::Validation, m),
            },
    {
        if !exists {
            return Ok(false);
        }
        FileValidationRules::validate_file_size(len)?;
        let b = match head {
            Err(t) => {
                let mut m = String::from_str("Failed to open checkpoint file: ");
                m.append(t.as_str());
                return Err(CheckpointError::validation(m.as_str()));
            },
            Ok(b) => b,
        };
        FileValidationRules::validate_magic_number(b.as_slice())?;
        let rest = tail_bytes(b.as_slice(), 4);
        FileValidationRules::validate_version(rest.as_slice())?;
        Ok(true)
    }

    /// Accepts a checkpoint over `checkpoint_lsn_range` after the last checkpoint at
    /// `last_checkpointed_lsn` when it has no violation worse than a warning; else fails
    /// with the description of its first violation.
    pub fn validate_checkpoint_consistency(
        &self,
        checkpoint_lsn_range: (u64, u64),
        last_checkpointed_lsn: u64,
    ) -> (r: CheckpointResult<()>)
        ensures
            ({
                let v = lsn_violations(checkpoint_lsn_range, last_checkpointed_lsn);
                &&& tolerable(v) ==> r is Ok
                &&& !tolerable(v) ==> (r matches Err(e) && made_by(e, CheckpointErrorKind::Validation, v[0].1))
            }),
    {
        let result = self.consistency_validator.validate_checkpoint_consistency(
            checkpoint_lsn_range,
            last_checkpointed_lsn,
        );
        if !result.is_consistent {
            if result.violations.len() > 0 {
                return Err(CheckpointError::validation(result.violations[0].description.as_str()));
            }
            return Err(CheckpointError::validation("Consistency validation failed"));
        }
        Ok(())
    }

    /// Accepts the dirty blocks of `dirty_blocks` when they number at most
    /// `max_pending_blocks` in all and the global ones at most their absolute limit.
    pub fn validate_dirty_block_consistency(
        &self,
        dirty_blocks: &DirtyBlockTracker,
        max_pending_blocks: u64,
    ) -> (r: CheckpointResult<()>)
        requires
            dirty_blocks.wf(),
        ensures
            ({
                let total = dirty_blocks.cluster_block_count() + dirty_blocks.global_size();
                let global = dirty_blocks.global_size();
                &&& total > max_pending_blocks ==> (r matches Err(e) && made_by(
                    e,
                    CheckpointErrorKind::Validation,
                    "Too many pending dirty blocks: "@ + decimal(total) + " (maximum: "@ + decimal(max_pending_blocks as nat)
                        + ")"@,
                ))
                &&& total <= max_pending_blocks && global > MAX_GLOBAL_DIRTY_BLOCKS ==> (r matches Err(e) && made_by(
                    e,
                    CheckpointErrorKind::Validation,
                    "Too many global dirty blocks: "@ + decimal(global) + " (maximum: "@ + decimal(
                        MAX_GLOBAL_DIRTY_BLOCKS as nat,
                    ) + ")"@,
                ))
                &&& total <= max_pending_blocks && global <= MAX_GLOBAL_DIRTY_BLOCKS ==> r is Ok
            }),
    {
        let (cluster_blocks, global_blocks) = dirty_blocks.get_statistics();
        proof { dirty_blocks.lemma_views(); }
        let total = (cluster_blocks + global_blocks) as u64;
        if total > max_pending_blocks {
            let mut m = String::from_str("Too many pending dirty blocks: ");
            push_decimal(&mut m, total);
            m.append(" (maximum: ");
            push_decimal(&mut m, max_pending_blocks);
            m.append(")");
            return Err(CheckpointError::validation(m.as_str()));
        }
        if global_blocks > MAX_GLOBAL_DIRTY_BLOCKS {
            let mut m = String::from_str("Too many global dirty blocks: ");
            push_decimal(&mut m, global_blocks as u64);
            m.append(" (maximum: ");
            push_decimal(&mut m, MAX_GLOBAL_DIRTY_BLOCKS as u64);
            m.append(")");
            return Err(CheckpointError::validation(m.as_str()));
        }
        Ok(())
    }

    /// The rule engine.
    pub fn rule_engine(&self) -> (r: &ValidationRuleEngine)
        ensures
            *r == self.rule_engine_spec(),
    {
        &self.rule_engine
    }

    /// The rule engine.
    pub closed spec fn rule_engine_spec(&self) -> ValidationRuleEngine {
        self.rule_engine
    }

    /// The consistency validator.
    pub fn consistency_validator(&self) -> (r: &CheckpointConsistencyValidator)
        ensures
            r.config() == self.config(),
    {
        proof {
            use_type_invariant(self);
        }
        &self.consistency_validator
    }

    /// The V2 invariant validator.
    pub fn invariants_validator(&self) -> (r: &V2InvariantValidator)
        ensures
            r.config() == self.config(),
    {
        proof {
            use_type_invariant(self);
        }
        &self.invariants_validator
    }

    /// The report builder.
    pub fn reporter(&self) -> (r: &CheckpointValidationReporter)
        ensures
            r.config() == self.config(),
    {
        proof {
            use_type_invariant(self);
        }
        &self.reporter
    }

    /// Adds `rule` to the validator's rules.
    pub fn add_rule(&mut self, rule: ValidationRule)
        ensures
            final(self).rule_engine_spec()@ == old(self).rule_engine_spec()@.push(
                crate::checkpoint::validation::rules::rule_view(rule),
            ),
            final(self).config() == old(self).config(),
            old(self).wf() ==> final(self).wf(),
    {
        proof {
            use_type_invariant(&*self);
        }
        let mut engine = ValidationRuleEngine::new();
        std::mem::swap(&mut engine, &mut self.rule_engine);
        engine.add_rule(rule);
        std::mem::swap(&mut engine, &mut self.rule_engine);
    }
}

/// Whether a checkpoint is overdue: more than `max_wait` has passed since the last one, or
/// a checkpoint has been running (initializing, collecting, processing or flushing) for
/// longer than the default checkpoint timeout.
pub open spec fn overdue(state: CheckpointState, since: nat, max_wait: nat) -> bool {
    since > max_wait || (match state {
        CheckpointState::Initializing | CheckpointState::Collecting | CheckpointState::Processing
        | CheckpointState::Flushing => since > DEFAULT_CHECKPOINT_TIMEOUT_MS * 1_000_000,
        _ => false,
    })
}

/// Maintenance of checkpoint tracking.
pub struct CheckpointCleanup {
    config: V2WALConfig,
}

impl CheckpointCleanup {
    /// A cleanup utility for the log of `config`.
    pub fn new(config: V2WALConfig) -> (c: Self)
        ensures
            c.config() == config,
    {
        CheckpointCleanup { config }
    }

    /// The configuration of the log.
    pub closed spec fn config(&self) -> V2WALConfig {
        self.config
    }

    /// Cleans the checkpointed blocks out of tracking, as
    /// `DirtyBlockTracker::clear_checkpointed_blocks` does: they leave the global set, every
    /// cluster and the timestamp, access-count and metadata records. Always succeeds.
    pub fn clear_checkpointed_blocks(
        &self,
        dirty_blocks: &mut DirtyBlockTracker,
        checkpointed_blocks: &[u64],
    ) -> (r: CheckpointResult<()>)
        requires
            old(dirty_blocks).wf(),
        ensures
            r is Ok,
            final(dirty_blocks).wf(),
            final(dirty_blocks).cluster_limit() == old(dirty_blocks).cluster_limit(),
            final(dirty_blocks).global_limit() == old(dirty_blocks).global_limit(),
            final(dirty_blocks).global() == old(dirty_blocks).global().difference(checkpointed_blocks@.to_set()),
            final(dirty_blocks).clusters() == cleared_clusters(old(dirty_blocks).clusters(), checkpointed_blocks@.to_set()),
            final(dirty_blocks).dirty_blocks() == old(dirty_blocks).dirty_blocks().filter(not_in(checkpointed_blocks@)),
            final(dirty_blocks).timestamps() == old(dirty_blocks).timestamps().remove_keys(checkpointed_blocks@.to_set()),
            final(dirty_blocks).access_counts() == old(dirty_blocks).access_counts().remove_keys(checkpointed_blocks@.to_set()),
            final(dirty_blocks).metadata() == old(dirty_blocks).metadata().remove_keys(checkpointed_blocks@.to_set()),
    {
        dirty_blocks.clear_checkpointed_blocks(checkpointed_blocks);
        Ok(())
    }

    /// Whether a checkpoint should be forced, `time_since_last` after the last one, with the
    /// checkpoint machine in `state`.
    pub fn checkpoint_overdue(&self, state: &CheckpointState, time_since_last: Duration, max_wait_time: Duration) -> (b: bool)
        ensures
            b == overdue(*state, time_since_last@, max_wait_time@),
    {
        if max_wait_time.lt(&time_since_last) {
            return true;
        }
        match state {
            CheckpointState::Initializing | CheckpointState::Collecting | CheckpointState::Processing
            | CheckpointState::Flushing => {
                Duration::from_millis(DEFAULT_CHECKPOINT_TIMEOUT_MS).lt(&time_since_last)
            },
            _ => false,
        }
    }

    /// Whether a checkpoint should be forced, the last having been taken at
    /// `last_checkpoint_time`; a last checkpoint in the future counts as just taken. The
    /// elapsed time comes from the system clock, so this states what holds for every
    /// reading of it.
    pub fn force_checkpoint_if_needed(
        &self,
        state: &CheckpointState,
        last_checkpoint_time: std::time::SystemTime,
        max_wait_time: Duration,
    ) -> (r: CheckpointResult<bool>)
        ensures
            r matches Ok(b) && exists|since: nat| b == overdue(*state, since, max_wait_time@),
    {
        let since = match elapsed_since(&last_checkpoint_time) {
            Ok((secs, nanos)) => Duration::new(secs, nanos),
            Err(_) => Duration::zero(),
        };
        let b = self.checkpoint_overdue(state, since, max_wait_time);
        assert(b == overdue(*state, since@, max_wait_time@));
        Ok(b)
    }
}

/// Builds validation components.
pub struct CheckpointValidatorFactory;

impl CheckpointValidatorFactory {
    /// A validator with the default rules.
    pub fn create_default_validator(config: V2WALConfig) -> (r: CheckpointResult<CheckpointValidator>)
        ensures
            r matches Ok(v) && v.config() == config && v.wf() && v.rule_engine_spec()@ == default_rules(),
    {
        Ok(CheckpointValidator::new(config))
    }

    /// A validator with the default rules followed by `rules`.
    pub fn create_validator_with_rules(config: V2WALConfig, rules: Vec<ValidationRule>) -> (r: CheckpointResult<
        CheckpointValidator,
    >)
        ensures
            r matches Ok(v) && v.config() == config && v.wf() && v.rule_engine_spec()@ == default_rules() + rules_view(rules@),
    {
        let mut validator = CheckpointValidator::new(config);
        let mut i: usize = 0;
        while i < rules.len()
            invariant
                0 <= i <= rules@.len(),
                validator.config() == config,
                validator.wf(),
                validator.rule_engine_spec()@ == default_rules() + rules_view(rules@.subrange(0, i as int)),
            decreases rules@.len() - i,
        {
            validator.add_rule(rules[i].clone());
            proof {
                assert(rules_view(rules@.subrange(0, i as int + 1)) =~= rules_view(rules@.subrange(0, i as int)).push(
                    crate::checkpoint::validation::rules::rule_view(rules@[i as int]),
                ));
            }
            i = i + 1;
        }
        assert(rules@.subrange(0, rules@.len() as int) =~= rules@);
        Ok(validator)
    }

    /// A cleanup utility.
    pub fn create_cleanup(config: V2WALConfig) -> (r: CheckpointResult<CheckpointCleanup>)
        ensures
            r matches Ok(c) && c.config() == config,
    {
        Ok(CheckpointCleanup::new(config))
    }
}

} // verus!
