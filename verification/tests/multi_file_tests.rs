use sqlitegraph_wal::checkpoint::errors::CheckpointErrorKind;
use sqlitegraph_wal::checkpoint::io::multi_file::{
    decode_manifest, decode_segment_header, encode_manifest, encode_segment_final_fields, encode_segment_header, manifest_file_path,
    segment_file_path, CheckpointManifest, CheckpointSegment, CheckpointSegmentMeta, MultiFileCheckpointConfig,
    MultiFileRecovery, SegmentProbe, SEGMENT_FINAL_FIELDS_OFFSET, DEFAULT_MAX_SEGMENTS, DEFAULT_MAX_SEGMENT_SIZE, MANIFEST_MAGIC, SEGMENT_MAGIC,
};

#[test]
fn test_config_default() {
    let config = MultiFileCheckpointConfig::default();
    assert_eq!(config.max_segment_size, DEFAULT_MAX_SEGMENT_SIZE);
    assert_eq!(config.max_segments, DEFAULT_MAX_SEGMENTS);
}

#[test]
fn test_config_builder() {
    let config = MultiFileCheckpointConfig::new("test".to_string())
        .with_max_segment_size(256 * 1024 * 1024)
        .with_max_segments(8);

    assert_eq!(config.max_segment_size, 256 * 1024 * 1024);
    assert_eq!(config.max_segments, 8);
}

#[test]
fn test_config_validation() {
    let config = MultiFileCheckpointConfig::default();
    assert!(config.validate().is_ok());

    let config = MultiFileCheckpointConfig { max_segment_size: 0, ..Default::default() };
    assert!(config.validate().is_err());

    let config = MultiFileCheckpointConfig { max_segments: 0, ..Default::default() };
    assert!(config.validate().is_err());
}

#[test]
fn test_config_max_total_size() {
    let config = MultiFileCheckpointConfig { max_segment_size: 1024 * 1024, max_segments: 10, ..Default::default() };

    assert_eq!(config.max_total_size(), 10 * 1024 * 1024);
}

#[test]
fn test_checkpoint_segment_creation() {
    let segment = CheckpointSegment::new(0, "test.ckpt.000".to_string(), (100, 200), 50);

    assert_eq!(segment.segment_index, 0);
    assert_eq!(segment.lsn_range, (100, 200));
    assert_eq!(segment.block_count, 50);
    assert_eq!(segment.file_name(), "000");
}

#[test]
fn test_manifest_default() {
    let manifest = CheckpointManifest::default();

    assert_eq!(manifest.segment_count, 0);
    assert!(manifest.segments.is_empty());
    assert_eq!(manifest.total_lsn_range, (0, 0));
}

#[test]
fn test_manifest_add_segment() {
    let mut manifest = CheckpointManifest::new();

    manifest.add_segment(CheckpointSegmentMeta {
        index: 0,
        lsn_start: 100,
        lsn_end: 200,
        block_count: 50,
        checksum: 12345,
        size: 1024,
    });

    assert_eq!(manifest.segment_count, 1);
    assert_eq!(manifest.segments.len(), 1);
    assert_eq!(manifest.total_lsn_range, (100, 200));
    assert_eq!(manifest.total_block_count, 50);
}

fn meta(index: u32, lsn_start: u64, lsn_end: u64) -> CheckpointSegmentMeta {
    CheckpointSegmentMeta { index, lsn_start, lsn_end, block_count: 50, checksum: 0, size: 1024 }
}

#[test]
fn test_manifest_validation() {
    let mut manifest = CheckpointManifest::new();
    manifest.add_segment(meta(0, 100, 200));
    manifest.add_segment(meta(1, 200, 300));

    assert!(manifest.validate().is_ok());

    let mut bad_manifest = CheckpointManifest::new();
    bad_manifest.add_segment(meta(0, 100, 300));
    bad_manifest.add_segment(meta(1, 200, 400));

    assert!(bad_manifest.validate().is_err());
}

#[test]
fn test_validate_checkpoint_missing_segment() {
    let mut manifest = CheckpointManifest::new();
    manifest.add_segment(meta(0, 100, 200));

    let result = MultiFileRecovery::validate_checkpoint(&manifest, "checkpoint", &vec![SegmentProbe::Missing]);
    assert!(result.is_err());
}

#[test]
fn test_segment_magic_constants() {
    assert_eq!(&SEGMENT_MAGIC, b"SGMT");
    assert_eq!(&MANIFEST_MAGIC, b"MNFT");
}

#[test]
fn test_max_segment_size_constant() {
    assert_eq!(DEFAULT_MAX_SEGMENT_SIZE, 512 * 1024 * 1024);
}

#[test]
fn test_max_segments_constant() {
    assert_eq!(DEFAULT_MAX_SEGMENTS, 16);
}

#[test]
fn manifest_index_mismatch_is_reported() {
    let mut manifest = CheckpointManifest::new();
    manifest.add_segment(meta(1, 100, 200));
    let e = manifest.validate().unwrap_err();
    assert_eq!(e.kind, CheckpointErrorKind::Corruption);
    assert_eq!(e.message, "Segment index mismatch: expected 0 but found 1");
}

#[test]
fn manifest_overlap_is_reported() {
    let mut manifest = CheckpointManifest::new();
    manifest.add_segment(meta(0, 100, 300));
    manifest.add_segment(meta(1, 200, 400));
    let e = manifest.validate().unwrap_err();
    assert_eq!(e.message, "LSN range overlap: segment 0 ends at 300 but segment 1 starts at 200");
}

#[test]
fn manifest_totals_span_all_segments() {
    let mut manifest = CheckpointManifest::new();
    manifest.add_segment(meta(0, 100, 200));
    manifest.add_segment(meta(1, 50, 400));
    assert_eq!(manifest.total_lsn_range, (50, 400));
    assert_eq!(manifest.total_block_count, 100);
}

#[test]
fn manifest_round_trips_through_its_encoding() {
    let mut manifest = CheckpointManifest::new();
    manifest.add_segment(meta(0, 100, 200));
    manifest.add_segment(meta(1, 200, 300));
    let bytes = encode_manifest(&manifest);
    let back = decode_manifest(&bytes, "cp.manifest").unwrap();
    assert_eq!(back.segment_count, 2);
    assert_eq!(back.segments, manifest.segments);
    assert_eq!(back.total_lsn_range, (100, 300));
    assert_eq!(back.total_block_count, 100);
}

#[test]
fn manifest_with_wrong_magic_is_refused() {
    let manifest = CheckpointManifest::new();
    let mut bytes = encode_manifest(&manifest);
    bytes[0] = b'X';
    assert!(decode_manifest(&bytes, "cp.manifest").is_err());
}

#[test]
fn segment_header_round_trips() {
    let mut bytes = encode_segment_header(3, 10);
    let fields = encode_segment_final_fields(20, 7);
    bytes.truncate(SEGMENT_FINAL_FIELDS_OFFSET as usize);
    bytes.extend_from_slice(&fields);
    let segment = decode_segment_header(&bytes, "cp.ckpt.003", &Ok(4096)).unwrap();
    assert_eq!(segment.segment_index, 3);
    assert_eq!(segment.lsn_range, (10, 20));
    assert_eq!(segment.block_count, 7);
    assert_eq!(segment.size, 4096);
    assert_eq!(segment.segment_path, "cp.ckpt.003");
}

#[test]
fn segment_and_manifest_paths() {
    assert_eq!(segment_file_path("base", 7), "base.ckpt.007");
    assert_eq!(manifest_file_path("base"), "base.manifest");
}
