use sqlitegraph_wal::config::V2WALConfig;
use sqlitegraph_wal::header::V2WALHeader;
use sqlitegraph_wal::lsn;

#[test]
fn test_v2_wal_config_default() {
    let config = V2WALConfig::default();
    assert!(config.validate().is_ok());
}

#[test]
fn test_v2_wal_config_for_graph_file() {
    let config = V2WALConfig::for_graph_file("/tmp/test.graph");

    assert_eq!(config.wal_path, "/tmp/test.wal");
    assert_eq!(config.checkpoint_path, "/tmp/test.checkpoint");
    assert!(config.validate().is_ok());
}

#[test]
fn test_v2_wal_config_validation() {
    let mut config = V2WALConfig::default();

    config.buffer_size = 1023;
    assert!(config.validate().is_err());

    config.buffer_size = 0;
    assert!(config.validate().is_err());

    config.buffer_size = 4096;
    assert!(config.validate().is_ok());
}

#[test]
fn test_v2_wal_header() {
    let header = V2WALHeader::new();
    assert!(header.validate().is_ok());
    assert_eq!(header.magic, V2WALHeader::MAGIC);
    assert_eq!(header.version, V2WALHeader::VERSION);
    assert!(header.has_flag(V2WALHeader::FLAG_CLUSTER_AFFINITY));
    assert!(header.has_flag(V2WALHeader::FLAG_GROUP_COMMIT));
    assert!(!header.has_flag(V2WALHeader::FLAG_COMPRESSION));
}

#[test]
fn test_lsn_utilities() {
    assert!(!lsn::is_valid(lsn::LSN_INVALID));
    assert!(lsn::is_valid(lsn::LSN_BEGIN));

    assert_eq!(lsn::next(lsn::LSN_BEGIN), lsn::LSN_BEGIN + 1);
    assert_eq!(lsn::distance(10, 15), 5);
    assert_eq!(lsn::distance(20, 15), 0);
}

#[test]
fn setting_a_flag_makes_it_present() {
    let mut header = V2WALHeader::new();
    header.set_flag(V2WALHeader::FLAG_COMPRESSION, true);
    assert!(header.has_flag(V2WALHeader::FLAG_COMPRESSION));
    assert!(header.has_flag(V2WALHeader::FLAG_GROUP_COMMIT));
    header.set_flag(V2WALHeader::FLAG_GROUP_COMMIT, false);
    assert!(!header.has_flag(V2WALHeader::FLAG_GROUP_COMMIT));
    assert!(header.has_flag(V2WALHeader::FLAG_COMPRESSION));
}

#[test]
fn header_with_wrong_version_is_invalid() {
    let mut header = V2WALHeader::new();
    header.version = 2;
    assert!(header.validate().is_err());
}

#[test]
fn lsn_next_wraps_at_the_top() {
    assert_eq!(lsn::next(u64::MAX), 0);
}

#[test]
fn graph_file_without_extension_gets_one() {
    let config = V2WALConfig::for_graph_file("data/graph");
    assert_eq!(config.wal_path, "data/graph.wal");
    assert_eq!(config.graph_path, "data/graph");
}

#[test]
fn compression_level_out_of_range_is_refused() {
    let mut config = V2WALConfig::default();
    config.enable_compression = true;
    config.compression_level = 10;
    assert!(config.validate().is_err());
    config.compression_level = 9;
    assert!(config.validate().is_ok());
}
