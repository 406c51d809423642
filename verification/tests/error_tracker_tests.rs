use sqlitegraph_wal::metrics::reporting::{ErrorEntry, ErrorTracker};

fn entry(error_type: &str, message: &str, timestamp: u64, context: &str, recovery: &str) -> ErrorEntry {
    ErrorEntry {
        error_type: error_type.to_string(),
        message: message.to_string(),
        timestamp,
        operation_context: context.to_string(),
        recovery_action: recovery.to_string(),
    }
}

#[test]
fn test_error_tracker_new() {
    let tracker = ErrorTracker::new();
    assert!(tracker.error_counts.is_empty());
    assert!(tracker.recent_errors.is_empty());
    assert_eq!(tracker.max_recent_errors, 1000);
}

#[test]
fn test_error_tracker_record() {
    let mut tracker = ErrorTracker::new();
    tracker.record_error(entry("TestError", "Test message", 1234567890, "Test context", "Test recovery"));
    assert_eq!(tracker.error_count("TestError"), Some(1));
    assert_eq!(tracker.recent_errors.len(), 1);
}

#[test]
fn test_error_tracker_multiple() {
    let mut tracker = ErrorTracker::new();
    tracker.record_error(entry("Error1", "Message1", 1234567890, "Context1", "Recovery1"));
    tracker.record_error(entry("Error2", "Message2", 1234567891, "Context2", "Recovery2"));
    tracker.record_error(entry("Error1", "Message1 again", 1234567892, "Context1 again", "Recovery1 again"));
    assert_eq!(tracker.error_count("Error1"), Some(2));
    assert_eq!(tracker.error_count("Error2"), Some(1));
    assert_eq!(tracker.recent_errors.len(), 3);
}

#[test]
fn test_error_tracker_summary() {
    let mut tracker = ErrorTracker::new();
    assert_eq!(tracker.get_summary(), "No errors recorded");
    tracker.record_error(entry("TestError", "Test message", 1234567890, "Test context", "Test recovery"));
    let summary = tracker.get_summary();
    assert!(summary.contains("Total Errors: 1"));
    assert!(summary.contains("Types: 1"));
}

#[test]
fn test_error_tracker_top_errors() {
    let mut tracker = ErrorTracker::new();
    for _ in 0..5 {
        tracker.record_error(entry("FrequentError", "Frequent message", 1234567890, "Frequent context", "Frequent recovery"));
    }
    for _ in 0..2 {
        tracker.record_error(entry("RareError", "Rare message", 1234567890, "Rare context", "Rare recovery"));
    }
    let top_errors = tracker.get_top_errors(2);
    assert_eq!(top_errors.len(), 2);
    assert_eq!(top_errors[0].0, "FrequentError");
    assert_eq!(top_errors[0].1, 5);
    assert_eq!(top_errors[1].0, "RareError");
    assert_eq!(top_errors[1].1, 2);
}

#[test]
fn test_error_tracker_reset() {
    let mut tracker = ErrorTracker::new();
    tracker.record_error(entry("TestError", "Test message", 1234567890, "Test context", "Test recovery"));
    assert!(!tracker.error_counts.is_empty());
    tracker.reset();
    assert!(tracker.error_counts.is_empty());
    assert!(tracker.recent_errors.is_empty());
}

#[test]
fn error_tracker_keeps_only_the_newest_recent_errors() {
    let mut tracker = ErrorTracker::new();
    tracker.max_recent_errors = 2;
    tracker.record_error(entry("A", "first", 1, "c", "r"));
    tracker.record_error(entry("B", "second", 2, "c", "r"));
    tracker.record_error(entry("A", "third", 3, "c", "r"));
    assert_eq!(tracker.recent_errors.len(), 2);
    assert_eq!(tracker.recent_errors[0].message, "second");
    assert_eq!(tracker.recent_errors[1].message, "third");
    assert_eq!(tracker.error_count("A"), Some(2));
    assert_eq!(tracker.error_count("C"), None);
    assert_eq!(tracker.get_summary(), "Total Errors: 3, Types: 2, Recent: 2");
}

#[test]
fn error_tracker_orders_ties_by_first_occurrence() {
    let mut tracker = ErrorTracker::new();
    tracker.record_error(entry("X", "m", 1, "c", "r"));
    tracker.record_error(entry("Y", "m", 1, "c", "r"));
    tracker.record_error(entry("Z", "m", 1, "c", "r"));
    tracker.record_error(entry("Z", "m", 1, "c", "r"));
    let top = tracker.get_top_errors(10);
    let names: Vec<&str> = top.iter().map(|(n, _)| n.as_str()).collect();
    assert_eq!(names, vec!["Z", "X", "Y"]);
    assert_eq!(tracker.get_top_errors(0).len(), 0);
}

#[test]
fn error_tracker_with_no_room_keeps_no_recent_errors() {
    let mut tracker = ErrorTracker::new();
    tracker.max_recent_errors = 0;
    tracker.record_error(entry("A", "m", 1, "c", "r"));
    assert!(tracker.recent_errors.is_empty());
    assert_eq!(tracker.error_count("A"), Some(1));
}
