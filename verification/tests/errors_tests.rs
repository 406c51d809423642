use sqlitegraph_wal::checkpoint::errors::{
    CheckpointError, CheckpointErrorCollection, CheckpointErrorKind, ErrorContext, ErrorSeverity,
    RecoverySuggestion,
};
use sqlitegraph_wal::native_error::NativeBackendError;

#[test]
fn test_checkpoint_error_creation() {
    let error = CheckpointError::configuration("Invalid path");
    assert_eq!(error.kind, CheckpointErrorKind::Configuration);
    assert_eq!(error.message, "Invalid path");
    assert_eq!(error.severity(), ErrorSeverity::Warning);
    assert!(error.is_recoverable());
}

#[test]
fn test_checkpoint_error_with_context() {
    let context = ErrorContext {
        lsn_range: Some((1000, 2000)),
        records_processed: Some(500),
        ..Default::default()
    };

    let error = CheckpointError::io("File write failed").with_context(context);

    assert_eq!(error.context.lsn_range, Some((1000, 2000)));
    assert_eq!(error.context.records_processed, Some(500));
}

#[test]
fn test_checkpoint_error_recovery() {
    let error = CheckpointError::timeout("Operation timed out").with_recovery(RecoverySuggestion::IncreaseTimeout);

    assert!(matches!(error.recovery, RecoverySuggestion::IncreaseTimeout));
    assert_eq!(error.retry_delay_ms(), Some(5000));
}

#[test]
fn errors_test_checkpoint_error_from_native() {
    let native_error = NativeBackendError::Io("test".to_string());

    let checkpoint_error: CheckpointError = native_error.into();
    assert_eq!(checkpoint_error.kind, CheckpointErrorKind::Io);
    assert!(checkpoint_error.message.contains("I/O error"));
}

#[test]
fn test_error_collection() {
    let mut collection = CheckpointErrorCollection::new();

    collection.add_error(CheckpointError::configuration("Bad config"));
    collection.add_error(CheckpointError::io("Disk error"));
    collection.add_error(CheckpointError::corruption("Data corrupted"));

    assert!(collection.has_errors());
    assert!(collection.has_unrecoverable_errors());
    assert_eq!(collection.errors.len(), 3);

    let (warning, error, critical) = collection.count_by_severity();
    assert_eq!(warning, 1);
    assert_eq!(error, 1);
    assert_eq!(critical, 1);
}

#[test]
fn test_error_severity_levels() {
    let config_error = CheckpointError::configuration("test");
    let io_error = CheckpointError::io("test");
    let corruption_error = CheckpointError::corruption("test");

    assert_eq!(config_error.severity(), ErrorSeverity::Warning);
    assert_eq!(io_error.severity(), ErrorSeverity::Error);
    assert_eq!(corruption_error.severity(), ErrorSeverity::Critical);

    assert!(config_error.severity() < io_error.severity());
    assert!(io_error.severity() < corruption_error.severity());
}

#[test]
fn test_diagnostic_report() {
    let context = ErrorContext {
        lsn_range: Some((1000, 2000)),
        records_processed: Some(500),
        operation: Some("test_operation".to_string()),
        ..Default::default()
    };

    let error = CheckpointError::io("Test error")
        .with_context(context)
        .with_recovery(RecoverySuggestion::Retry { max_attempts: 3, backoff_ms: 100 });

    let report = error.diagnostic_report();
    assert!(report.contains("Test error"));
    assert!(report.contains("1000-2000"));
    assert!(report.contains("Records Processed: 500"));
    assert!(report.contains("test_operation"));
}

#[test]
fn test_macro_usage() {
    let error = CheckpointError::new(CheckpointErrorKind::Io, "Test error")
        .with_context(ErrorContext { operation: Some("test".to_string()), ..Default::default() })
        .with_recovery(RecoverySuggestion::Retry { max_attempts: 1, backoff_ms: 50 });

    assert_eq!(error.kind, CheckpointErrorKind::Io);
    assert_eq!(error.message, "Test error");
    assert_eq!(error.context.operation, Some("test".to_string()));
}

#[test]
fn test_checkpoint_error_display() {
    let error = CheckpointError::configuration("Invalid configuration");
    let display = error.to_string();
    assert!(display.contains("Configuration"));
    assert!(display.contains("Invalid configuration"));
}

#[test]
fn mod_test_checkpoint_error_from_native() {
    let native_error = NativeBackendError::Io("test".to_string());
    let checkpoint_error: CheckpointError = native_error.into();
    assert_eq!(checkpoint_error.kind, CheckpointErrorKind::Io);
    assert!(checkpoint_error.message.contains("I/O error"));
}

#[test]
fn error_display_is_kind_then_message() {
    let error = CheckpointError::corruption("bad block");
    assert_eq!(error.to_string(), "[Corruption] bad block");
}

#[test]
fn native_error_conversion_keeps_text() {
    let error: CheckpointError = NativeBackendError::InvalidParameter { context: "x".to_string() }.into();
    assert_eq!(error.message, "Invalid parameter: x");
}

#[test]
fn diagnostic_report_quotes_custom_recovery_advice() {
    let error = CheckpointError::io("disk")
        .with_recovery(RecoverySuggestion::Custom("run \"fsck\"\n".to_string()));
    let report = error.diagnostic_report();
    assert!(report.contains("Recovery: Custom(\"run \\\"fsck\\\"\\n\")\n"));
    let manual = CheckpointError::io("disk").with_recovery(RecoverySuggestion::ManualIntervention("call ops".to_string()));
    assert!(manual.diagnostic_report().contains("Recovery: ManualIntervention(\"call ops\")"));
}

#[test]
fn detailed_report_starts_with_the_summary() {
    let mut collection = CheckpointErrorCollection::new();
    collection.add_error(CheckpointError::io("Disk error"));
    let summary = collection.summary_report();
    let detailed = collection.detailed_report();
    assert!(detailed.starts_with(&summary));
    assert!(detailed[summary.len()..].starts_with("\n\nDetailed Errors:\n\n1. [Io] Disk error\n"));
    assert_eq!(collection.summary_report(), summary);
    let timestamp_line = format!("Timestamp: {:?}", collection.timestamp);
    assert!(summary.ends_with(&timestamp_line));
}
