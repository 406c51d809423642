//! Byte formats and checks of the checkpoint files, and of flushing blocks to the graph file.
pub mod block_flusher;
pub mod checkpoint_writer;
pub mod multi_file;
pub mod segment_writer;
