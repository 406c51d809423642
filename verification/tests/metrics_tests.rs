use sqlitegraph_wal::metrics::aggregation::{LatencyHistogram, ThroughputTracker};
use sqlitegraph_wal::metrics::analysis::{ImplementationDifficulty, IssueSeverity, RecommendationPriority};
use sqlitegraph_wal::metrics::counters::{ClusterOperationCounters, GlobalCounters};
use sqlitegraph_wal::metrics::defaults;
use sqlitegraph_wal::metrics::METRICS_VERSION;
use std::sync::atomic::Ordering;

#[test]
fn test_latency_histogram_new() {
    let histogram = LatencyHistogram::new();
    assert_eq!(histogram.write_buckets().len(), 10);
    assert_eq!(histogram.read_buckets().len(), 10);
    assert_eq!(histogram.flush_buckets().len(), 10);
    assert_eq!(histogram.checkpoint_buckets().len(), 10);
}

#[test]
fn test_latency_histogram_reset() {
    let mut histogram = LatencyHistogram::new();

    histogram.record_write_latency(1000);
    histogram.record_read_latency(500);

    assert!(histogram.write_buckets().iter().sum::<u64>() > 0);
    assert!(histogram.read_buckets().iter().sum::<u64>() > 0);

    histogram.reset();

    assert_eq!(histogram.write_buckets().iter().sum::<u64>(), 0);
    assert_eq!(histogram.read_buckets().iter().sum::<u64>(), 0);
}

#[test]
fn test_throughput_tracker_new() {
    let tracker = ThroughputTracker::new();
    assert_eq!(tracker.time_window_seconds(), 60);
    assert_eq!(tracker.max_samples(), 300);
    assert!(tracker.records_per_second().is_empty());
    assert!(tracker.bytes_per_second().is_empty());
    assert!(tracker.transactions_per_second().is_empty());
}

#[test]
fn test_throughput_tracker_reset() {
    let mut tracker = ThroughputTracker::new();

    tracker.record_write_operation(100);
    tracker.record_transaction();

    assert!(!tracker.records_per_second().is_empty());
    assert!(!tracker.transactions_per_second().is_empty());

    tracker.reset();

    assert!(tracker.records_per_second().is_empty());
    assert!(tracker.bytes_per_second().is_empty());
    assert!(tracker.transactions_per_second().is_empty());
}

#[test]
fn test_comprehensive_latency_stats() {
    let mut histogram = LatencyHistogram::new();

    for i in 1..=50 {
        histogram.record_write_latency(i * 10);
        histogram.record_read_latency(i * 5);
    }

    let (p50_write, p95_write, p99_write, p50_read, p95_read, p99_read) = histogram.get_comprehensive_stats();

    assert!(p50_write <= p95_write);
    assert!(p95_write <= p99_write);
    assert!(p50_read <= p95_read);
    assert!(p95_read <= p99_read);
}

#[test]
fn test_bucket_index_calculation() {
    let histogram = LatencyHistogram::new();

    assert_eq!(histogram.get_bucket_index(0), 0);
    assert_eq!(histogram.get_bucket_index(1), 0);
    assert_eq!(histogram.get_bucket_index(10), 1);
    assert_eq!(histogram.get_bucket_index(1000), 5);
    assert_eq!(histogram.get_bucket_index(100000), 9);
}

#[test]
fn recording_adds_one_to_the_right_bucket() {
    let mut histogram = LatencyHistogram::new();
    histogram.record_write_latency(5);
    histogram.record_write_latency(15);
    histogram.record_write_latency(5000);
    assert_eq!(histogram.write_buckets(), &vec![0, 1, 1, 0, 0, 0, 1, 0, 0, 0]);
    assert_eq!(histogram.write_buckets().iter().sum::<u64>(), 3);
}

#[test]
fn percentiles_interpolate_within_buckets() {
    let mut histogram = LatencyHistogram::new();
    for _ in 0..4 {
        histogram.record_write_latency(30);
    }
    let (p50, p95, p99, r50, _, _) = histogram.get_comprehensive_stats();
    // All four samples lie in the bucket (10, 50]: the median is halfway through it.
    assert_eq!(p50, 30);
    assert_eq!(p95, 40);
    assert_eq!(p99, 40);
    assert_eq!(r50, 0);
}

#[test]
fn test_issue_severity_ordering() {
    assert!(IssueSeverity::Critical > IssueSeverity::High);
    assert!(IssueSeverity::High > IssueSeverity::Medium);
    assert!(IssueSeverity::Medium > IssueSeverity::Low);
    assert!(IssueSeverity::Low > IssueSeverity::Info);
}

#[test]
fn test_recommendation_priority_ordering() {
    assert!(RecommendationPriority::Immediate > RecommendationPriority::High);
    assert!(RecommendationPriority::High > RecommendationPriority::Medium);
    assert!(RecommendationPriority::Medium > RecommendationPriority::Low);
    assert!(RecommendationPriority::Low > RecommendationPriority::Optional);
}

#[test]
fn test_implementation_difficulty_ordering() {
    assert!(ImplementationDifficulty::Easy < ImplementationDifficulty::Moderate);
    assert!(ImplementationDifficulty::Moderate < ImplementationDifficulty::Hard);
    assert!(ImplementationDifficulty::Hard < ImplementationDifficulty::Expert);
}

#[test]
fn test_cluster_operation_counters_default() {
    let cluster_ops = ClusterOperationCounters::default();
    assert_eq!(cluster_ops.creates, 0);
    assert_eq!(cluster_ops.reads, 0);
    assert_eq!(cluster_ops.updates, 0);
    assert_eq!(cluster_ops.bytes_processed, 0);
    assert_eq!(cluster_ops.avg_latency_us, 0);
}

#[test]
fn test_global_counters_atomic_operations() {
    let counters = GlobalCounters::default();

    counters.records_written.store(100, Ordering::Relaxed);
    counters.records_read.store(50, Ordering::Relaxed);

    assert_eq!(counters.records_written.load(Ordering::Relaxed), 100);
    assert_eq!(counters.records_read.load(Ordering::Relaxed), 50);
}

#[test]
fn test_metrics_configuration() {
    assert_eq!(METRICS_VERSION, "1.0.0");
    assert_eq!(defaults::DEFAULT_THROUGHPUT_WINDOW, 60);
    assert_eq!(defaults::DEFAULT_LATENCY_BUCKETS, 10);
    assert_eq!(defaults::DEFAULT_MAX_RECENT_ERRORS, 1000);
    assert_eq!(defaults::DEFAULT_BUFFER_UTILIZATION_THRESHOLD as f64, 80.0);
    assert_eq!(defaults::DEFAULT_LATENCY_PERCENTILES.len(), 3);
}
