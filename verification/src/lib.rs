//! Verified core of the V2 write-ahead-log checkpoint subsystem.
pub mod bytes;
pub mod bulk_ingest;
pub mod checkpoint;
pub mod config;
pub mod duration;
pub mod graph_integration;
pub mod header;
pub mod lsn;
pub mod metrics;
pub mod native_error;
pub mod performance;
pub mod seqs;
pub mod text;
