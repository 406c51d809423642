use sqlitegraph_wal::checkpoint::io::checkpoint_writer::CheckpointWriter;
use sqlitegraph_wal::checkpoint::utils::calculate_optimal_checkpoint_size;

#[test]
fn test_checkpoint_header_writing() {
    let mut buffer = Vec::new();

    let lsn_range = (1000, 2000);
    let timestamp = 1234567890;
    let block_count = 42;

    CheckpointWriter::write_header(&mut buffer, lsn_range, timestamp, block_count).unwrap();

    assert!(!buffer.is_empty());
    assert!(buffer.len() > 50);
}

#[test]
fn test_progress_writing() {
    let mut buffer = Vec::new();

    CheckpointWriter::write_progress(&mut buffer, 0, 50, 50, 25).unwrap();

    assert!(!buffer.is_empty());
    assert!(buffer.len() > 20);
}

#[test]
fn test_completion_writing() {
    let mut buffer = Vec::new();

    CheckpointWriter::write_completion(&mut buffer, 0, 100, 50).unwrap();

    assert!(!buffer.is_empty());
    assert!(buffer.len() > 20);
}

#[test]
fn header_layout_is_magic_version_fields_and_metadata() {
    let mut buffer = vec![9u8];
    CheckpointWriter::write_header(&mut buffer, (1, 2), 3, 4).unwrap();
    assert_eq!(buffer.len(), 1 + 64);
    assert_eq!(&buffer[1..5], b"CKPT");
    assert_eq!(&buffer[5..9], &1u32.to_le_bytes());
    assert_eq!(&buffer[9..17], &1u64.to_le_bytes());
    assert_eq!(&buffer[17..25], &2u64.to_le_bytes());
    assert_eq!(&buffer[25..33], &3u64.to_le_bytes());
    assert_eq!(&buffer[33..41], &4u64.to_le_bytes());
    assert_eq!(&buffer[41..45], &2u32.to_le_bytes());
    assert_eq!(&buffer[45..53], &4096u64.to_le_bytes());
    assert_eq!(&buffer[53..61], &65536u64.to_le_bytes());
    assert_eq!(&buffer[61..65], &20u32.to_le_bytes());
}

#[test]
fn progress_and_completion_layouts() {
    let mut p = Vec::new();
    CheckpointWriter::write_progress(&mut p, 7, 50, 9, 11).unwrap();
    assert_eq!(p.len(), 4 + 8 + 4 + 8 + 8);
    assert_eq!(&p[0..4], b"PROG");
    assert_eq!(&p[12..16], &50u32.to_le_bytes());
    let mut c = Vec::new();
    CheckpointWriter::write_completion(&mut c, 7, 9, 11).unwrap();
    assert_eq!(c.len(), 4 + 8 + 8 + 8 + 4);
    assert_eq!(&c[0..4], b"DONE");
    assert_eq!(&c[28..32], &100u32.to_le_bytes());
}

#[test]
fn test_checkpoint_utils_calculate_optimal_size() {
    let test_sizes = vec![
        (16 * 1024 * 1024, 4 * 1024 * 1024),
        (64 * 1024 * 1024, 16 * 1024 * 1024),
        (256 * 1024 * 1024, 64 * 1024 * 1024),
        (512, 1024 * 1024),
    ];

    for (wal_size, expected) in test_sizes {
        let result = calculate_optimal_checkpoint_size(wal_size);
        assert_eq!(result, expected, "Incorrect optimal checkpoint size for WAL size {}", wal_size);
    }
}
