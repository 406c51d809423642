use sqlitegraph_wal::checkpoint::io::checkpoint_writer::CheckpointWriter;
use sqlitegraph_wal::checkpoint::tracking::{CheckpointManagerState, CheckpointState, DirtyBlockTracker};
use sqlitegraph_wal::checkpoint::validation::consistency::{
    check_progress_counts, merge_violations, CheckpointConsistencyValidator, ConsistencyResult, ConsistencySeverity, ConsistencyUtils, ConsistencyViolation,
    ConsistencyViolationType,
};
use sqlitegraph_wal::checkpoint::validation::invariants::{
    V2InvariantSeverity, V2InvariantUtils, V2InvariantValidator, V2InvariantViolation, V2InvariantViolationType,
};
use sqlitegraph_wal::checkpoint::validation::rules::{
    FileValidationRules, ValidationConfig, ValidationContext, ValidationRule, ValidationRuleEngine,
    ValidationSeverity,
};
use sqlitegraph_wal::checkpoint::validation::{CheckpointCleanup, CheckpointValidator};
use sqlitegraph_wal::config::V2WALConfig;
use sqlitegraph_wal::duration::Duration;
use std::time::SystemTime;

fn test_config() -> V2WALConfig {
    V2WALConfig {
        wal_path: "test.wal".to_string(),
        checkpoint_path: "test.checkpoint".to_string(),
        ..Default::default()
    }
}

fn create_test_dirty_block_tracker() -> DirtyBlockTracker {
    let mut dirty_blocks = DirtyBlockTracker::new(10, 10);
    let timestamp = SystemTime::now().duration_since(SystemTime::UNIX_EPOCH).unwrap().as_secs();
    dirty_blocks.mark_global_block_dirty(1000, timestamp).unwrap();
    dirty_blocks.mark_global_block_dirty(2000, timestamp).unwrap();
    dirty_blocks.mark_cluster_block_dirty(1, 1000, timestamp).unwrap();
    dirty_blocks.mark_cluster_block_dirty(1, 3000, timestamp).unwrap();
    dirty_blocks.update_block_access(1000, timestamp);
    dirty_blocks
}

#[test]
fn test_consistency_validator_creation() {
    let _validator = CheckpointConsistencyValidator::new(test_config());
}

#[test]
fn test_consistency_validator_valid_lsn_range() {
    let validator = CheckpointConsistencyValidator::new(test_config());
    let result = validator.validate_checkpoint_consistency((1000, 2000), 1000);

    assert!(result.is_consistent);
    assert!(result.violations.is_empty());
    assert_eq!(result.lsn_range, Some((1000, 2000)));
}

#[test]
fn test_consistency_validator_lsn_discontinuity() {
    let validator = CheckpointConsistencyValidator::new(test_config());
    let result = validator.validate_checkpoint_consistency((1500, 2000), 1000);

    assert!(!result.is_consistent);
    assert_eq!(result.violations.len(), 1);
    assert!(matches!(result.violations[0].violation_type, ConsistencyViolationType::LsnRangeDiscontinuity));
    assert_eq!(result.violations[0].severity, ConsistencySeverity::Critical);
}

#[test]
fn test_consistency_validator_invalid_lsn_range() {
    let validator = CheckpointConsistencyValidator::new(test_config());
    let result = validator.validate_checkpoint_consistency((2000, 1000), 1000);

    assert!(!result.is_consistent);
    assert!(!result.violations.is_empty());
    assert!(result.violations.iter().any(|v| matches!(v.violation_type, ConsistencyViolationType::InvalidLsnRange)));
}

#[test]
fn test_consistency_validator_dirty_blocks() {
    let validator = CheckpointConsistencyValidator::new(test_config());
    let dirty_blocks = create_test_dirty_block_tracker();
    let result = validator.validate_dirty_block_consistency(&dirty_blocks, 100);

    assert!(result.is_consistent);
}

#[test]
fn dirty_blocks_over_the_pending_limit_are_an_error() {
    let validator = CheckpointConsistencyValidator::new(test_config());
    let dirty_blocks = create_test_dirty_block_tracker();
    let result = validator.validate_dirty_block_consistency(&dirty_blocks, 3);
    assert!(!result.is_consistent);
    assert_eq!(result.violations.len(), 1);
    assert_eq!(result.violations[0].violation_type, ConsistencyViolationType::ExcessDirtyBlocks);
    assert_eq!(result.violations[0].description, "Too many pending dirty blocks: 4 (maximum: 3)");
}

#[test]
fn test_consistency_utils_requires_action() {
    let minor_violation = ConsistencyResult {
        is_consistent: true,
        violations: vec![ConsistencyViolation {
            violation_type: ConsistencyViolationType::InvalidTimestamp,
            description: "Minor issue".to_string(),
            severity: ConsistencySeverity::Warning,
            entity_id: None,
        }],
        validation_timestamp: SystemTime::now(),
        lsn_range: None,
    };

    assert!(!ConsistencyUtils::requires_action(&minor_violation));

    let critical_violation = ConsistencyResult {
        is_consistent: false,
        violations: vec![ConsistencyViolation {
            violation_type: ConsistencyViolationType::LsnRangeDiscontinuity,
            description: "Critical issue".to_string(),
            severity: ConsistencySeverity::Critical,
            entity_id: None,
        }],
        validation_timestamp: SystemTime::now(),
        lsn_range: None,
    };

    assert!(ConsistencyUtils::requires_action(&critical_violation));
}

#[test]
fn test_consistency_utils_group_violations() {
    let violations = vec![
        ConsistencyViolation {
            violation_type: ConsistencyViolationType::InvalidLsnRange,
            description: "LSN issue".to_string(),
            severity: ConsistencySeverity::Error,
            entity_id: Some("lsn1".to_string()),
        },
        ConsistencyViolation {
            violation_type: ConsistencyViolationType::InvalidTimestamp,
            description: "Time issue".to_string(),
            severity: ConsistencySeverity::Warning,
            entity_id: Some("time1".to_string()),
        },
        ConsistencyViolation {
            violation_type: ConsistencyViolationType::InvalidLsnRange,
            description: "Another LSN issue".to_string(),
            severity: ConsistencySeverity::Error,
            entity_id: Some("lsn2".to_string()),
        },
    ];

    let grouped = ConsistencyUtils::group_violations_by_type(&violations);
    assert_eq!(grouped.get(&ConsistencyViolationType::InvalidLsnRange).unwrap().len(), 2);
    assert_eq!(grouped.get(&ConsistencyViolationType::InvalidTimestamp).unwrap().len(), 1);
}

#[test]
fn test_consistency_severity_ordering() {
    assert!(ConsistencySeverity::Minor < ConsistencySeverity::Warning);
    assert!(ConsistencySeverity::Warning < ConsistencySeverity::Error);
    assert!(ConsistencySeverity::Error < ConsistencySeverity::Critical);
}

#[test]
fn test_v2_invariant_validator_creation() {
    let _validator = V2InvariantValidator::new(test_config());
}

#[test]
fn test_cluster_alignment_invariants() {
    let validator = V2InvariantValidator::new(test_config());
    let dirty_blocks = DirtyBlockTracker::default();

    let result = validator.validate_cluster_alignment_invariants(&dirty_blocks);
    assert!(result.is_ok());
    let invariant_result = result.unwrap();
    assert!(invariant_result.invariants_held);
    assert!(invariant_result.violations.is_empty());
}

#[test]
fn test_checkpoint_state_invariants() {
    let validator = V2InvariantValidator::new(test_config());
    let state = CheckpointState::default();
    let manager_state = CheckpointManagerState::default();

    let result = validator.validate_checkpoint_state_invariants(&state, &manager_state);
    assert!(result.is_ok());
    let invariant_result = result.unwrap();
    assert!(invariant_result.invariants_held);
}

#[test]
fn test_v2_invariant_utils_severity() {
    let critical_violation = V2InvariantViolation {
        violation_type: V2InvariantViolationType::InvalidV2Version,
        description: "Invalid version".to_string(),
        expected: Some("2".to_string()),
        actual: Some("1".to_string()),
        critical: true,
    };

    assert!(V2InvariantUtils::is_critical_violation(&critical_violation));
    assert_eq!(V2InvariantUtils::get_violation_severity(&critical_violation), V2InvariantSeverity::Critical);

    let warning_violation = V2InvariantViolation {
        violation_type: V2InvariantViolationType::BlockAlignmentViolation,
        description: "Block not aligned".to_string(),
        expected: None,
        actual: None,
        critical: false,
    };

    assert!(!V2InvariantUtils::is_critical_violation(&warning_violation));
    assert_eq!(V2InvariantUtils::get_violation_severity(&warning_violation), V2InvariantSeverity::Warning);
}

#[test]
fn test_v2_invariant_severity_ordering() {
    assert!(V2InvariantSeverity::Info < V2InvariantSeverity::Warning);
    assert!(V2InvariantSeverity::Warning < V2InvariantSeverity::Error);
    assert!(V2InvariantSeverity::Error < V2InvariantSeverity::Critical);
}

#[test]
fn test_v2_graph_file_invariants() {
    let validator = V2InvariantValidator::new(test_config());
    let result = validator.validate_v2_graph_file_invariants("test.graph");
    assert!(result.is_ok());
    let invariant_result = result.unwrap();
    assert!(invariant_result.invariants_held);
    assert!(invariant_result.violations.is_empty());
}

#[test]
fn written_header_padded_to_minimum_passes_format_check() {
    let validator = V2InvariantValidator::new(test_config());
    let mut file = Vec::new();
    CheckpointWriter::write_header(&mut file, (1, 2), 3, 4).unwrap();
    file.resize(1024, 0);
    let result = validator.validate_v2_format_compatibility(&Ok(file), &Ok(1024)).unwrap();
    assert!(result.invariants_held);
    assert!(result.violations.is_empty());
    assert_eq!(result.v2_version, Some(1));
}

#[test]
fn short_file_fails_format_check() {
    let validator = V2InvariantValidator::new(test_config());
    let result = validator.validate_v2_format_compatibility(&Ok(b"CKP".to_vec()), &Ok(3));
    let e = result.unwrap_err();
    assert_eq!(e.message, "Failed to read checkpoint magic: failed to fill whole buffer");
}

#[test]
fn metadata_check_reads_at_its_offset() {
    let validator = V2InvariantValidator::new(test_config());
    let mut file = vec![0u8; 40];
    file.extend_from_slice(&2u32.to_le_bytes());
    file.extend_from_slice(&4096u64.to_le_bytes());
    file.extend_from_slice(&65536u64.to_le_bytes());
    let result = validator.validate_v2_metadata(&Ok(file)).unwrap();
    assert!(result.invariants_held);
    assert!(result.violations.is_empty());
    assert_eq!(result.v2_version, Some(2));
}

#[test]
fn test_validation_rule_engine_creation() {
    let engine = ValidationRuleEngine::new();
    let rules = engine.get_all_rules();
    assert!(!rules.is_empty(), "Engine should have default rules registered");

    assert!(engine.get_rule("file_exists").is_some());
    assert!(engine.get_rule("magic_number").is_some());
    assert!(engine.get_rule("version_compatibility").is_some());
}

#[test]
fn test_validation_rule_management() {
    let mut engine = ValidationRuleEngine::new();

    let custom_rule = ValidationRule {
        id: "test_rule".to_string(),
        description: "Test rule".to_string(),
        severity: ValidationSeverity::Warning,
        enabled: true,
    };
    engine.add_rule(custom_rule.clone());

    assert!(engine.get_rule("test_rule").is_some());

    assert!(engine.set_rule_enabled("test_rule", false));
    assert!(!engine.get_rule("test_rule").unwrap().enabled);

    assert!(engine.remove_rule("test_rule"));
    assert!(engine.get_rule("test_rule").is_none());
}

#[test]
fn test_validation_severity_ordering() {
    assert!(ValidationSeverity::Info < ValidationSeverity::Warning);
    assert!(ValidationSeverity::Warning < ValidationSeverity::Error);
    assert!(ValidationSeverity::Error < ValidationSeverity::Critical);
}

#[test]
fn test_file_validation_rules_file_not_exists() {
    let result = FileValidationRules::validate_file_exists(false);
    assert!(result.unwrap() == false);
}

#[test]
fn test_file_validation_rules_empty_file() {
    let result = FileValidationRules::validate_file_size(&Ok(0));
    assert!(result.is_err());
    assert!(result.unwrap_err().to_string().contains("empty"));
}

#[test]
fn test_file_validation_rules_size_limits() {
    let result = FileValidationRules::validate_file_size(&Ok(100));
    assert!(result.is_err());
    assert!(result.unwrap_err().to_string().contains("too small"));
}

#[test]
fn file_rules_on_a_written_header() {
    let mut file = Vec::new();
    CheckpointWriter::write_header(&mut file, (1, 2), 3, 4).unwrap();
    assert!(FileValidationRules::validate_magic_number(&file).is_ok());
    assert_eq!(FileValidationRules::validate_version(&file[4..]).unwrap(), 1);
    assert!(FileValidationRules::validate_magic_number(b"XXXX").is_err());
}

#[test]
fn test_validation_config() {
    let config = ValidationConfig::default();
    assert!(!config.strict_mode);
    assert_eq!(config.min_error_severity, ValidationSeverity::Error);
    assert!(config.allow_warnings);

    let strict_config = ValidationConfig {
        strict_mode: true,
        min_error_severity: ValidationSeverity::Warning,
        allow_warnings: false,
        validation_timeout: Duration::from_secs(60),
    };
    assert!(strict_config.strict_mode);
    assert_eq!(strict_config.min_error_severity, ValidationSeverity::Warning);
    assert!(!strict_config.allow_warnings);
}

#[test]
fn test_validation_context() {
    let config = test_config();
    let engine = ValidationRuleEngine::new();
    let checkpoint_path = "test.checkpoint";

    let context = ValidationContext::new(&config, checkpoint_path, &engine);
    assert!(!context.validation_config.strict_mode);

    let strict_context = ValidationContext::with_validation_config(
        &config,
        checkpoint_path,
        &engine,
        ValidationConfig { strict_mode: true, ..Default::default() },
    );
    assert!(strict_context.validation_config.strict_mode);
}

#[test]
fn test_validation_context_rule_execution() {
    let config = test_config();
    let engine = ValidationRuleEngine::new();
    let checkpoint_path = "test.checkpoint";

    let context = ValidationContext::new(&config, checkpoint_path, &engine);

    let critical_rule = ValidationRule {
        id: "critical_test".to_string(),
        description: "Critical test rule".to_string(),
        severity: ValidationSeverity::Critical,
        enabled: true,
    };

    let warning_rule = ValidationRule {
        id: "warning_test".to_string(),
        description: "Warning test rule".to_string(),
        severity: ValidationSeverity::Warning,
        enabled: true,
    };

    assert!(context.should_execute_rule(&critical_rule));
    assert!(context.should_execute_rule(&warning_rule));

    let no_warnings_config = ValidationConfig { allow_warnings: false, ..Default::default() };
    let no_warnings_context =
        ValidationContext::with_validation_config(&config, checkpoint_path, &engine, no_warnings_config);

    assert!(no_warnings_context.should_execute_rule(&critical_rule));
    assert!(!no_warnings_context.should_execute_rule(&warning_rule));
}

#[test]
fn test_checkpoint_validator_creation() {
    let _validator = CheckpointValidator::new(test_config());
}

#[test]
fn test_checkpoint_cleanup_creation() {
    let _cleanup = CheckpointCleanup::new(test_config());
}

fn listed(name: &str, time: i128) -> (String, i128) {
    (name.to_string(), time)
}

#[test]
fn cleanup_names_the_oldest_checkpoints_beyond_those_kept() {
    let cleanup = CheckpointCleanup::new(V2WALConfig {
        wal_path: "dir/test.wal".to_string(),
        checkpoint_path: "dir/test.checkpoint".to_string(),
        ..Default::default()
    });
    let files = vec![
        listed("c.checkpoint", 30),
        listed("test.checkpoint", 1),
        listed("a.checkpoint", 10),
        listed("notes.txt", 0),
        listed("b.checkpoint", 20),
        listed("d.checkpoint", 10),
    ];
    assert_eq!(cleanup.old_checkpoints(&files, 2), vec!["a.checkpoint".to_string(), "d.checkpoint".to_string()]);
    assert_eq!(cleanup.old_checkpoints(&files, 4), Vec::<String>::new());
    assert_eq!(cleanup.old_checkpoints(&files, 0).len(), 4);
    assert_eq!(cleanup.old_checkpoints(&files, 0)[3], "c.checkpoint");
}

#[test]
fn cleanup_ignores_names_that_only_contain_the_suffix() {
    let cleanup = CheckpointCleanup::new(test_config());
    let files = vec![listed("x.checkpoint.bak", 1), listed(".checkpoint", -5), listed("checkpoint", 2)];
    assert_eq!(cleanup.old_checkpoints(&files, 0), vec![".checkpoint".to_string()]);
}

fn found(kind: ConsistencyViolationType, text: &str, severity: ConsistencySeverity) -> ConsistencyViolation {
    ConsistencyViolation { violation_type: kind, description: text.to_string(), severity, entity_id: None }
}

#[test]
fn merged_violations_come_most_severe_first() {
    let all = vec![
        found(ConsistencyViolationType::InvalidTimestamp, "a", ConsistencySeverity::Warning),
        found(ConsistencyViolationType::ExcessDirtyBlocks, "b", ConsistencySeverity::Error),
        found(ConsistencyViolationType::EmptyLsnRange, "c", ConsistencySeverity::Minor),
        found(ConsistencyViolationType::InvalidLsnRange, "d", ConsistencySeverity::Critical),
        found(ConsistencyViolationType::GlobalDirtyBlockLimitExceeded, "e", ConsistencySeverity::Error),
    ];
    let r = merge_violations(&all, (5, 9));
    let order: Vec<&str> = r.violations.iter().map(|v| v.description.as_str()).collect();
    assert_eq!(order, vec!["d", "b", "e", "a", "c"]);
    assert!(!r.is_consistent);
    assert_eq!(r.lsn_range, Some((5, 9)));
    let mild = vec![found(ConsistencyViolationType::EmptyLsnRange, "x", ConsistencySeverity::Minor)];
    assert!(merge_violations(&mild, (0, 0)).is_consistent);
    assert!(merge_violations(&Vec::new(), (1, 2)).violations.is_empty());
}

#[test]
fn old_checkpoint_names_keep_the_newest() {
    let files = vec![listed("x.checkpoint", 5), listed("cur.checkpoint", 1), listed("y.checkpoint", 3)];
    let names = sqlitegraph_wal::checkpoint::validation::retention::old_checkpoint_names(&files, &"cur.checkpoint".to_string(), 1);
    assert_eq!(names, vec!["y.checkpoint".to_string()]);
}

#[test]
fn cleanup_clears_checkpointed_blocks_from_tracking() {
    let cleanup = CheckpointCleanup::new(test_config());
    let mut tracker = DirtyBlockTracker::new(10, 10);
    tracker.mark_global_block_dirty(1000, 1).unwrap();
    tracker.mark_global_block_dirty(2000, 2).unwrap();
    tracker.mark_cluster_block_dirty(7, 3000, 3).unwrap();
    tracker.mark_cluster_block_dirty(7, 4000, 4).unwrap();
    assert!(cleanup.clear_checkpointed_blocks(&mut tracker, &[1000, 3000]).is_ok());
    let mut left = tracker.get_dirty_blocks_for_checkpoint();
    left.sort();
    assert_eq!(left, vec![2000, 4000]);
    assert_eq!(tracker.get_statistics(), (1, 1));
    assert!(tracker.block_timestamps().iter().all(|(b, _)| *b != 1000 && *b != 3000));
}

#[test]
fn progress_counts_report_backward_ranges_and_overcounts() {
    assert!(check_progress_counts((100, 200), 50, 100).is_empty());
    let v = check_progress_counts((300, 200), 120, 100);
    assert_eq!(v.len(), 2);
    assert_eq!(v[0].violation_type, ConsistencyViolationType::InvalidLsnRange);
    assert_eq!(v[0].description, "Invalid progress LSN range: start 300 > end 200");
    assert_eq!(v[0].severity, ConsistencySeverity::Error);
    assert_eq!(v[0].entity_id, Some("300-200".to_string()));
    assert_eq!(v[1].violation_type, ConsistencyViolationType::DirtyBlockTrackingInconsistency);
    assert_eq!(v[1].description, "Processed records (120) exceeds total records (100)");
    assert_eq!(v[1].severity, ConsistencySeverity::Error);
    assert_eq!(v[1].entity_id, Some("record_count".to_string()));
    let only_count = check_progress_counts((5, 5), 2, 1);
    assert_eq!(only_count.len(), 1);
    assert_eq!(only_count[0].entity_id, Some("record_count".to_string()));
}

#[test]
fn written_header_passes_metadata_check() {
    let validator = V2InvariantValidator::new(test_config());
    let mut file = Vec::new();
    CheckpointWriter::write_header(&mut file, (1000, 2000), 1234567890, 42).unwrap();
    let result = validator.validate_v2_metadata(&Ok(file)).unwrap();
    assert_eq!(result.v2_version, Some(2));
    assert!(result.violations.is_empty());
    assert!(result.invariants_held);
}

#[test]
fn metadata_check_needs_the_whole_v2_block() {
    let validator = V2InvariantValidator::new(test_config());
    let e = validator.validate_v2_metadata(&Ok(vec![0u8; 43])).unwrap_err();
    assert_eq!(e.message, "Failed to read V2 version: failed to fill whole buffer");
    let e = validator.validate_v2_metadata(&Ok(vec![0u8; 59])).unwrap_err();
    assert_eq!(e.message, "Failed to read V2 cluster alignment: failed to fill whole buffer");
}
