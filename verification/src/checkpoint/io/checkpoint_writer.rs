//! Records of a checkpoint file: its header, progress records and completion marker.
//!
//! Each function appends the bytes of one record to a buffer; the caller writes the
//! buffer to the file.
use vstd::prelude::*;
use crate::bytes::{le_u32, le_u64, push_u32_le, push_u64_le};
use crate::checkpoint::errors::CheckpointResult;

verus! {

/// The magic opening a checkpoint file: "CKPT".
pub open spec fn checkpoint_magic() -> Seq<u8> {
    seq![67u8, 75u8, 80u8, 84u8]
}

/// The bytes of a checkpoint header: magic, version 1, first and last LSN, timestamp and
/// block count, then the V2 metadata section: format version 2, the 4096-byte block size,
/// the 65536-byte cluster alignment, and the length (20) of the section after its version.
pub open spec fn header_bytes(lsn_range: (u64, u64), timestamp: u64, block_count: u64) -> Seq<u8> {
    checkpoint_magic() + le_u32(1) + le_u64(lsn_range.0) + le_u64(lsn_range.1) + le_u64(timestamp)
        + le_u64(block_count) + le_u32(2) + le_u64(4096) + le_u64(65536) + le_u32(20)
}

/// The bytes of a progress record: magic "PROG", seconds elapsed, completion percentage,
/// processed records and flushed blocks.
pub open spec fn progress_bytes(elapsed_secs: u64, percent: u32, processed: u64, flushed: u64) -> Seq<u8> {
    seq![80u8, 82u8, 79u8, 71u8] + le_u64(elapsed_secs) + le_u32(percent) + le_u64(processed) + le_u64(flushed)
}

/// The bytes of a completion marker: magic "DONE", seconds elapsed, processed records,
/// flushed blocks and the status 100.
pub open spec fn completion_bytes(elapsed_secs: u64, processed: u64, flushed: u64) -> Seq<u8> {
    seq![68u8, 79u8, 78u8, 69u8] + le_u64(elapsed_secs) + le_u64(processed) + le_u64(flushed) + le_u32(100)
}

/// Writes checkpoint records.
pub struct CheckpointWriter;

impl CheckpointWriter {
    /// Appends the checkpoint header for `lsn_range`, `timestamp` and `block_count`,
    /// followed by the V2 metadata section.
    pub fn write_header(
        writer: &mut Vec<u8>,
        lsn_range: (u64, u64),
        timestamp: u64,
        block_count: u64,
    ) -> (r: CheckpointResult<()>)
        ensures
            r is Ok,
            final(writer)@ == old(writer)@ + header_bytes(lsn_range, timestamp, block_count),
    {
        writer.push(67u8);
        writer.push(75u8);
        writer.push(80u8);
        writer.push(84u8);
        push_u32_le(writer, 1);
        push_u64_le(writer, lsn_range.0);
        push_u64_le(writer, lsn_range.1);
        push_u64_le(writer, timestamp);
        push_u64_le(writer, block_count);
        Self::write_v2_metadata(writer);
        assert(final(writer)@ =~= old(writer)@ + header_bytes(lsn_range, timestamp, block_count));
        Ok(())
    }

    fn write_v2_metadata(writer: &mut Vec<u8>)
        ensures
            final(writer)@ == old(writer)@ + le_u32(2) + le_u64(4096) + le_u64(65536) + le_u32(20),
    {
        let start = writer.len();
        push_u32_le(writer, 2);
        push_u64_le(writer, 4096);
        push_u64_le(writer, 65536);
        // The section's length counts its fields after the version, the length included.
        let length = (writer.len() - start) as u32;
        assert(length == 20);
        push_u32_le(writer, length);
    }

    /// Appends a progress record.
    pub fn write_progress(
        writer: &mut Vec<u8>,
        elapsed_secs: u64,
        completion_percent: u32,
        processed_records: u64,
        flushed_blocks: u64,
    ) -> (r: CheckpointResult<()>)
        ensures
            r is Ok,
            final(writer)@ == old(writer)@ + progress_bytes(elapsed_secs, completion_percent, processed_records, flushed_blocks),
    {
        writer.push(80u8);
        writer.push(82u8);
        writer.push(79u8);
        writer.push(71u8);
        push_u64_le(writer, elapsed_secs);
        push_u32_le(writer, completion_percent);
        push_u64_le(writer, processed_records);
        push_u64_le(writer, flushed_blocks);
        assert(final(writer)@ =~= old(writer)@ + progress_bytes(
            elapsed_secs,
            completion_percent,
            processed_records,
            flushed_blocks,
        ));
        Ok(())
    }

    /// Appends a completion marker.
    pub fn write_completion(
        writer: &mut Vec<u8>,
        elapsed_secs: u64,
        processed_records: u64,
        flushed_blocks: u64,
    ) -> (r: CheckpointResult<()>)
        ensures
            r is Ok,
            final(writer)@ == old(writer)@ + completion_bytes(elapsed_secs, processed_records, flushed_blocks),
    {
        writer.push(68u8);
        writer.push(79u8);
        writer.push(78u8);
        writer.push(69u8);
        push_u64_le(writer, elapsed_secs);
        push_u64_le(writer, processed_records);
        push_u64_le(writer, flushed_blocks);
        push_u32_le(writer, 100);
        assert(final(writer)@ =~= old(writer)@ + completion_bytes(elapsed_secs, processed_records, flushed_blocks));
        Ok(())
    }
}

} // verus!
