use sqlitegraph_wal::bulk_ingest::BulkIngestConfig;
use sqlitegraph_wal::checkpoint::errors::CheckpointErrorKind;
use sqlitegraph_wal::checkpoint::record::V2GraphIntegrator;
use sqlitegraph_wal::graph_integration::{GraphOperationResult, GraphWALIntegrationConfig, OperationMetrics};
use sqlitegraph_wal::native_error::NativeBackendError;
use sqlitegraph_wal::performance::codecs::{
    compress_lz4, compress_rle, compress_snappy, compress_zstd, decompress_lz4, decompress_rle, decompress_snappy,
    decompress_zstd,
};
use sqlitegraph_wal::performance::compressor::WALRecordCompressor;
use sqlitegraph_wal::duration::Duration;
use sqlitegraph_wal::performance::{
    batch_due, AdaptivePerformanceTuner, CompressionAlgorithm, PerformanceAdjustment, PerformanceConfig,
};

#[test]
fn test_compression_algorithm_validation() {
    assert!(CompressionAlgorithm::LZ4.validate_level(5));
    assert!(!CompressionAlgorithm::LZ4.validate_level(10));
    assert!(CompressionAlgorithm::NoCompression.validate_level(0));
    assert!(!CompressionAlgorithm::NoCompression.validate_level(1));
}

#[test]
fn test_rle_compression() {
    let mut compressor = WALRecordCompressor::new(CompressionAlgorithm::RLE, 1).unwrap();

    let data = vec![1, 1, 1, 2, 2, 3, 3, 3, 3];
    let compressed = compressor.compress(&data).unwrap();

    assert!(compressed.len() < data.len());

    let decompressed = compressor.decompress(&compressed).unwrap();
    assert_eq!(decompressed, data);
}

#[test]
fn test_adaptive_performance_tuner() {
    let config = PerformanceConfig::default();
    let tuner = AdaptivePerformanceTuner::new(config, 5);

    let new_config = tuner.get_config();
    assert_eq!(new_config.max_batch_size, 1000);
}

#[test]
fn default_levels() {
    assert_eq!(CompressionAlgorithm::NoCompression.default_level(), 0);
    assert_eq!(CompressionAlgorithm::LZ4.default_level(), 3);
    assert_eq!(CompressionAlgorithm::Zstd.default_level(), 3);
    assert_eq!(CompressionAlgorithm::Snappy.default_level(), 1);
    assert_eq!(CompressionAlgorithm::RLE.default_level(), 1);
    assert!(CompressionAlgorithm::Zstd.validate_level(19));
    assert!(!CompressionAlgorithm::Zstd.validate_level(20));
    assert!(!CompressionAlgorithm::Snappy.validate_level(2));
    assert!(!CompressionAlgorithm::RLE.validate_level(4));
}

#[test]
fn invalid_level_is_a_configuration_error() {
    match WALRecordCompressor::new(CompressionAlgorithm::LZ4, 12) {
        Err(NativeBackendError::InvalidConfiguration { parameter, reason }) => {
            assert_eq!(parameter, "compression_level");
            assert_eq!(reason, "Invalid compression level 12 for algorithm LZ4");
        }
        _ => panic!("expected a configuration error"),
    }
}

#[test]
fn rle_encoding_is_byte_count_pairs() {
    assert_eq!(compress_rle(&[1, 1, 1, 2, 2, 3, 3, 3, 3]), vec![1, 3, 2, 2, 3, 4]);
    assert_eq!(compress_rle(&[]), Vec::<u8>::new());
    let long = vec![7u8; 300];
    assert_eq!(compress_rle(&long), vec![7, 255, 7, 45]);
    assert_eq!(decompress_rle(&[7, 255, 7, 45]).unwrap(), long);
}

#[test]
fn rle_odd_input_is_corrupt() {
    match decompress_rle(&[1, 2, 3]) {
        Err(NativeBackendError::CorruptionDetected { context }) => {
            assert_eq!(context, "RLE compressed data length is not even")
        }
        _ => panic!("expected corruption"),
    }
}

#[test]
fn lz4_style_round_trip_and_layout() {
    let data = vec![5, 5, 5, 5, 5, 1, 2, 0, 9, 9];
    let c = compress_lz4(&data);
    assert_eq!(c, vec![0, 5, 5, 1, 2, 0, 1, 0, 9, 9]);
    assert_eq!(decompress_lz4(&c), data);
}

#[test]
fn zstd_style_round_trip_and_layout() {
    let data = vec![3, 1, 3];
    let c = compress_zstd(&data);
    assert_eq!(c, vec![8, 1, 8, 3, 255, 3, 1, 3]);
    assert_eq!(decompress_zstd(&c), data);
    assert_eq!(compress_zstd(&[]), Vec::<u8>::new());
}

#[test]
fn zstd_style_keeps_data_holding_the_end_marker() {
    let data = vec![255, 1];
    let c = compress_zstd(&data);
    assert_eq!(c, vec![8, 1, 8, 255, 255, 255, 1]);
    assert_eq!(decompress_zstd(&c), data);
    assert_eq!(decompress_zstd(&compress_zstd(&[255])), vec![255]);
    let many: Vec<u8> = vec![255; 150];
    let c = compress_zstd(&many);
    assert_eq!(&c[0..3], &[4, 255, 255]);
    assert_eq!(decompress_zstd(&c), many);
}

#[test]
fn snappy_style_literals_and_copies() {
    let data = vec![1, 2, 3, 1, 2, 3, 1, 2, 3];
    let c = compress_snappy(&data);
    // The first command is always a literal: here all nine bytes.
    let mut expected = vec![0xF8];
    expected.extend_from_slice(&data);
    assert_eq!(c, expected);
    assert_eq!(decompress_snappy(&c).unwrap(), data);

    let mut long: Vec<u8> = (0..16).collect();
    long.extend_from_slice(&[8, 9, 10, 11, 12, 13, 14]);
    let c = compress_snappy(&long);
    // A literal of 16 bytes, a copy of six bytes from eight back, then a literal of one.
    assert_eq!(c.len(), 20);
    assert_eq!(c[0], 0xFF);
    assert_eq!(&c[1..17], &long[0..16]);
    assert_eq!(c[17], 4 * 7 + 3);
    assert_eq!(&c[18..20], &[0xF0, 14]);
    assert_eq!(decompress_snappy(&c).unwrap(), long);
}

#[test]
fn snappy_style_round_trips_long_records() {
    for n in 0..200usize {
        let data: Vec<u8> = (0..n).map(|i| ((i * 7) % 13 + (i / 40) * 50) as u8).collect();
        let c = compress_snappy(&data);
        assert_eq!(decompress_snappy(&c).unwrap(), data);
    }
    let same = vec![7u8; 100];
    let c = compress_snappy(&same);
    assert!(c.len() < same.len());
    assert_eq!(decompress_snappy(&c).unwrap(), same);
}

#[test]
fn snappy_style_errors() {
    match decompress_snappy(&[0xF3, 1]) {
        Err(NativeBackendError::CorruptionDetected { context }) => {
            assert_eq!(context, "Invalid literal length in Snappy decompression")
        }
        _ => panic!("expected corruption"),
    }
    match decompress_snappy(&[0x00]) {
        Err(NativeBackendError::CorruptionDetected { context }) => {
            assert_eq!(context, "Invalid copy command in Snappy decompression")
        }
        _ => panic!("expected corruption"),
    }
}

#[test]
fn compressor_counts_records_and_bytes() {
    let mut compressor = WALRecordCompressor::new(CompressionAlgorithm::LZ4, 3).unwrap();
    let out = compressor.compress(&[4, 4, 4, 4, 4, 4]).unwrap();
    assert_eq!(out, vec![0, 6, 4]);
    compressor.compress(&[1, 2]).unwrap();
    let stats = compressor.get_stats();
    assert_eq!(stats.total_records, 2);
    assert_eq!(stats.total_input_bytes, 8);
    assert_eq!(stats.total_output_bytes, 5);
    let back = compressor.decompress(&out).unwrap();
    assert_eq!(back, vec![4, 4, 4, 4, 4, 4]);
    assert_eq!(compressor.get_stats().total_records, 2);
}

#[test]
fn uncompressed_passes_data_through() {
    let mut compressor = WALRecordCompressor::new(CompressionAlgorithm::NoCompression, 0).unwrap();
    assert_eq!(compressor.compress(&[9, 8, 7]).unwrap(), vec![9, 8, 7]);
    assert_eq!(compressor.decompress(&[9, 8, 7]).unwrap(), vec![9, 8, 7]);
}

#[test]
fn tuning_adjustments() {
    let mut tuner = AdaptivePerformanceTuner::new(PerformanceConfig::default(), 5);
    tuner.apply_adjustment(PerformanceAdjustment::ImproveThroughput);
    let c = tuner.get_config();
    assert_eq!(c.max_batch_size, 2000);
    assert!(c.enable_compression);
    let s = tuner.get_stats();
    assert_eq!((s.total_adjustments, s.batch_size_adjustments, s.compression_adjustments), (1, 1, 1));

    tuner.apply_adjustment(PerformanceAdjustment::ReduceLatency);
    let c = tuner.get_config();
    assert_eq!(c.max_batch_size, 1000);
    assert_eq!(c.batch_timeout_ms, 5);
    assert_eq!(tuner.get_stats().timeout_adjustments, 1);

    tuner.apply_adjustment(PerformanceAdjustment::ReduceMemoryUsage);
    let c = tuner.get_config();
    assert_eq!(c.max_batch_size, 750);
    assert_eq!(c.max_cluster_group_size, 25);
    assert_eq!(tuner.get_stats().total_adjustments, 3);
}

#[test]
fn memory_reduction_of_an_odd_batch_size_rounds_down() {
    let config = PerformanceConfig { max_batch_size: 1001, ..PerformanceConfig::default() };
    let mut tuner = AdaptivePerformanceTuner::new(config, 5);
    tuner.apply_adjustment(PerformanceAdjustment::ReduceMemoryUsage);
    assert_eq!(tuner.get_config().max_batch_size, 750);
}

#[test]
fn default_configurations() {
    let b = BulkIngestConfig::default();
    assert_eq!(b.max_batch_size_bytes, 10 * 1024 * 1024);
    assert_eq!(b.flush_timeout_ms, 5000);
    assert!(b.force_checkpoint_on_exit);
    assert_eq!(b.max_records_per_batch, 10000);

    let g = GraphWALIntegrationConfig::default();
    assert!(g.auto_checkpoint);
    assert_eq!(g.checkpoint_interval, 1000);
    assert_eq!(g.max_batch_size, 50);
    assert!(!g.enable_compression);

    let r = GraphOperationResult { success: true, lsn: Some(4), tx_id: None, metrics: OperationMetrics::default() };
    assert_eq!(r.clone().metrics.bytes_written, 0);
}

#[test]
fn cluster_creation_checks() {
    let mut integrator = V2GraphIntegrator { graph_file_path: "g.v2".to_string() };
    assert!(integrator.apply_cluster_create(8192, 10).is_ok());
    let e = integrator.apply_cluster_create(8192, 0).unwrap_err();
    assert_eq!(e.kind, CheckpointErrorKind::Validation);
    assert_eq!(e.message, "Cluster size cannot be zero");
    let e = integrator.apply_cluster_create(100, 10).unwrap_err();
    assert_eq!(e.message, "Cluster offset must be aligned to block boundary");
}

#[test]
fn snappy_style_round_trips_short_records() {
    for n in 0..=16u8 {
        let data: Vec<u8> = (0..n).map(|i| i % 3).collect();
        let c = compress_snappy(&data);
        assert_eq!(decompress_snappy(&c).unwrap(), data);
    }
    let data = vec![5u8, 5, 5, 5, 5, 5, 5, 5, 5, 5, 5, 5, 5, 5, 5, 5];
    let c = compress_snappy(&data);
    assert_ne!(c, data);
    assert_eq!(decompress_snappy(&c).unwrap(), data);
}

#[test]
fn batches_are_due_when_full_or_timed_out() {
    let timeout = Duration::from_millis(100);
    assert!(!batch_due(2, 3, &Duration::from_millis(10), &timeout));
    assert!(batch_due(3, 3, &Duration::from_millis(10), &timeout));
    assert!(batch_due(1, 3, &Duration::from_millis(100), &timeout));
    assert!(!batch_due(1, 3, &Duration::new(0, 99_999_999), &timeout));
    assert!(batch_due(0, 0, &Duration::zero(), &timeout));
}
