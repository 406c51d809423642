//! The bookkeeping of a segment writer: which segment is open, how much it holds, its running
//! checksum, and the segments finished so far. The caller owns the segment files: it creates
//! each file and writes its header when a segment is opened, writes the data once
//! `check_write` allows it, and writes the final header fields before `finalize`.
use vstd::prelude::*;
use crate::checkpoint::errors::{made_by, CheckpointError, CheckpointErrorKind, CheckpointResult};
use crate::checkpoint::io::multi_file::{
    config_fault, segment_file_path, segment_path_of, CheckpointSegment, MultiFileCheckpointConfig,
};
use crate::text::{decimal, push_decimal};

verus! {

/// One step of the rolling checksum: multiply by 31 and add the byte, wrapping at 64 bits.
pub open spec fn checksum_step(c: u64, b: u8) -> u64 {
    vstd::wrapping::u64_specs::wrapping_add(vstd::wrapping::u64_specs::wrapping_mul(c, 31), b as u64)
}

/// The rolling checksum of `data` from `c`.
pub open spec fn checksum_fold(c: u64, data: Seq<u8>) -> u64
    decreases data.len(),
{
    if data.len() == 0 {
        c
    } else {
        checksum_step(checksum_fold(c, data.drop_last()), data.last())
    }
}

/// A finished segment as plain values: index, path, LSN range, block count, checksum, size.
pub open spec fn segment_view(s: CheckpointSegment) -> (u32, Seq<char>, (u64, u64), u64, u64, u64) {
    (s.segment_index, s.segment_path@, s.lsn_range, s.block_count, s.checksum, s.size)
}

/// Writes a checkpoint as a sequence of segment files.
pub struct SegmentWriter {
    segment_index: u32,
    segment_path: String,
    current_size: u64,
    max_segment_size: u64,
    segment_lsn_start: u64,
    segment_block_count: u64,
    checksum: u32,
    completed_segments: Vec<CheckpointSegment>,
    config: MultiFileCheckpointConfig,
}

impl SegmentWriter {
    /// The open segment's index.
    pub closed spec fn index(&self) -> u32 {
        self.segment_index
    }

    /// The open segment's path.
    pub closed spec fn path(&self) -> Seq<char> {
        self.segment_path@
    }

    /// Bytes written to the open segment.
    pub closed spec fn size(&self) -> u64 {
        self.current_size
    }

    /// Largest size of a segment.
    pub closed spec fn limit(&self) -> u64 {
        self.max_segment_size
    }

    /// First LSN of the open segment.
    pub closed spec fn lsn_start(&self) -> u64 {
        self.segment_lsn_start
    }

    /// Blocks counted in the open segment.
    pub closed spec fn blocks(&self) -> u64 {
        self.segment_block_count
    }

    /// Running checksum of the open segment.
    pub closed spec fn sum(&self) -> u32 {
        self.checksum
    }

    /// The finished segments, in order.
    pub closed spec fn finished(&self) -> Seq<(u32, Seq<char>, (u64, u64), u64, u64, u64)> {
        self.completed_segments@.map_values(|s: CheckpointSegment| segment_view(s))
    }

    /// The configuration.
    pub closed spec fn settings(&self) -> MultiFileCheckpointConfig {
        self.config
    }

    /// The open segment never holds more than a segment may.
    pub closed spec fn wf(&self) -> bool {
        &&& self.current_size <= self.max_segment_size
        &&& config_fault(self.config) is None
        &&& self.segment_index < self.config.max_segments
        &&& self.max_segment_size == self.config.max_segment_size
        &&& self.segment_path@ == segment_path_of(self.config.base_path@, self.segment_index)
    }

    /// A writer opening segment `index` at `lsn_start` for `config`; fails when the
    /// configuration is invalid or the index is not below the segment limit.
    pub fn create(config: MultiFileCheckpointConfig, index: u32, lsn_start: u64) -> (r: CheckpointResult<Self>)
        ensures
            match config_fault(config) {
                Some(m) => r matches Err(e) && made_by(e, CheckpointErrorKind::Validation, m),
                None => if index >= config.max_segments {
                    r matches Err(e) && made_by(
                        e,
                        CheckpointErrorKind::Resource,
                        "Segment index "@ + decimal(index as nat) + " exceeds max segments "@
                            + decimal(config.max_segments as nat),
                    )
                } else {
                    r matches Ok(w) && {
                        &&& w.wf()
                        &&& w.index() == index
                        &&& w.size() == 0
                        &&& w.limit() == config.max_segment_size
                        &&& w.lsn_start() == lsn_start
                        &&& w.blocks() == 0
                        &&& w.sum() == 0
                        &&& w.finished().len() == 0
                        &&& w.settings() == config
                    }
                },
            },
    {
        config.validate()?;
        if index as usize >= config.max_segments {
            let mut m = String::from_str("Segment index ");
            push_decimal(&mut m, index as u64);
            m.append(" exceeds max segments ");
            push_decimal(&mut m, config.max_segments as u64);
            return Err(CheckpointError::resource(m.as_str()));
        }
        let segment_path = segment_file_path(config.base_path.as_str(), index);
        let max_segment_size = config.max_segment_size;
        let w = SegmentWriter {
            segment_index: index,
            segment_path,
            current_size: 0,
            max_segment_size,
            segment_lsn_start: lsn_start,
            segment_block_count: 0,
            checksum: 0,
            completed_segments: Vec::new(),
            config,
        };
        assert(w.finished() =~= Seq::<(u32, Seq<char>, (u64, u64), u64, u64, u64)>::empty());
        Ok(w)
    }

    /// Allows writing `len` more bytes to the open segment only when they fit.
    pub fn check_write(&self, len: usize) -> (r: CheckpointResult<()>)
        requires
            self.wf(),
        ensures
            self.size() + len <= self.limit() ==> r is Ok,
            self.size() + len > self.limit() ==> (r matches Err(e) && made_by(
                e,
                CheckpointErrorKind::Resource,
                "Segment size exceeded, call rotate_segment() first"@,
            )),
    {
        if len as u64 > self.max_segment_size - self.current_size {
            return Err(CheckpointError::resource("Segment size exceeded, call rotate_segment() first"));
        }
        Ok(())
    }

    /// Counts `data`, just written to the open segment: its length is added to the size and
    /// its bytes are folded into the checksum (cut to 32 bits).
    pub fn record_write(&mut self, data: &[u8]) -> (n: usize)
        requires
            old(self).wf(),
            old(self).size() + data@.len() <= old(self).limit(),
        ensures
            final(self).wf(),
            n == data@.len(),
            final(self).size() == old(self).size() + data@.len(),
            final(self).sum() == checksum_fold(old(self).sum() as u64, data@) as u32,
            final(self).index() == old(self).index(),
            final(self).path() == old(self).path(),
            final(self).limit() == old(self).limit(),
            final(self).lsn_start() == old(self).lsn_start(),
            final(self).blocks() == old(self).blocks(),
            final(self).finished() == old(self).finished(),
            final(self).settings() == old(self).settings(),
    {
        let mut current: u64 = self.checksum as u64;
        let mut i: usize = 0;
        while i < data.len()
            invariant
                0 <= i <= data@.len(),
                current == checksum_fold(old(self).sum() as u64, data@.take(i as int)),
            decreases data@.len() - i,
        {
            assert(data@.take(i + 1).drop_last() =~= data@.take(i as int));
            current = current.wrapping_mul(31).wrapping_add(data[i] as u64);
            i = i + 1;
        }
        assert(data@.take(i as int) =~= data@);
        self.current_size = self.current_size + data.len() as u64;
        self.checksum = current as u32;
        data.len()
    }

    /// Whether the open segment is full.
    pub fn needs_rotation(&self) -> (b: bool)
        ensures
            b == (self.size() >= self.limit()),
    {
        self.current_size >= self.max_segment_size
    }

    /// Bytes still free in the open segment.
    pub fn remaining_space(&self) -> (n: u64)
        ensures
            n == if self.size() <= self.limit() { (self.limit() - self.size()) as u64 } else { 0 },
    {
        self.max_segment_size.saturating_sub(self.current_size)
    }

    /// Records the open segment as finished with last LSN `lsn_end` and `block_count` blocks,
    /// once the caller has written them into its header; returns its description.
    pub fn finalize(&mut self, lsn_end: u64, block_count: u64) -> (s: CheckpointSegment)
        requires
            old(self).wf(),
        ensures
            final(self).wf(),
            segment_view(s) == (
                old(self).index(),
                old(self).path(),
                (old(self).lsn_start(), lsn_end),
                block_count,
                old(self).sum() as u64,
                old(self).size(),
            ),
            final(self).finished() == old(self).finished().push(segment_view(s)),
            final(self).index() == old(self).index(),
            final(self).path() == old(self).path(),
            final(self).size() == old(self).size(),
            final(self).limit() == old(self).limit(),
            final(self).lsn_start() == old(self).lsn_start(),
            final(self).blocks() == old(self).blocks(),
            final(self).sum() == old(self).sum(),
            final(self).settings() == old(self).settings(),
    {
        let segment = CheckpointSegment {
            segment_index: self.segment_index,
            segment_path: self.segment_path.clone(),
            lsn_range: (self.segment_lsn_start, lsn_end),
            block_count,
            checksum: self.checksum as u64,
            size: self.current_size,
        };
        let kept = segment.clone();
        let ghost before = self.completed_segments@;
        self.completed_segments.push(kept);
        assert(self.completed_segments@.map_values(|x: CheckpointSegment| segment_view(x))
            =~= before.map_values(|x: CheckpointSegment| segment_view(x)).push(segment_view(segment)));
        segment
    }

    /// The path of the segment after the open one, when the segment limit allows another.
    pub fn next_segment_path(&self) -> (r: CheckpointResult<String>)
        requires
            self.wf(),
        ensures
            self.index() + 1 >= self.settings().max_segments ==> (r matches Err(e) && made_by(
                e,
                CheckpointErrorKind::Resource,
                "Cannot create segment "@ + decimal((self.index() + 1) as nat) + ": maximum segments ("@
                    + decimal(self.settings().max_segments as nat) + ") reached"@,
            )),
            self.index() + 1 < self.settings().max_segments ==> (r matches Ok(p)
                && p@ == segment_path_of(self.settings().base_path@, (self.index() + 1) as u32)),
    {
        if self.segment_index as usize + 1 >= self.config.max_segments {
            let mut m = String::from_str("Cannot create segment ");
            push_decimal(&mut m, self.segment_index as u64 + 1);
            m.append(": maximum segments (");
            push_decimal(&mut m, self.config.max_segments as u64);
            m.append(") reached");
            return Err(CheckpointError::resource(m.as_str()));
        }
        Ok(segment_file_path(self.config.base_path.as_str(), self.segment_index + 1))
    }

    /// Opens the segment after the open one at `lsn_start`, once the caller has created its
    /// file at `next_segment_path` and written its header: empty, with no blocks and a zero
    /// checksum.
    pub fn start_next_segment(&mut self, lsn_start: u64)
        requires
            old(self).wf(),
            old(self).index() + 1 < old(self).settings().max_segments,
        ensures
            final(self).wf(),
            final(self).index() == old(self).index() + 1,
            final(self).size() == 0,
            final(self).limit() == old(self).limit(),
            final(self).lsn_start() == lsn_start,
            final(self).blocks() == 0,
            final(self).sum() == 0,
            final(self).finished() == old(self).finished(),
            final(self).settings() == old(self).settings(),
    {
        let next = self.segment_index + 1;
        self.segment_path = segment_file_path(self.config.base_path.as_str(), next);
        self.segment_index = next;
        self.current_size = 0;
        self.segment_lsn_start = lsn_start;
        self.segment_block_count = 0;
        self.checksum = 0;
    }

    /// The finished segments, in order.
    pub fn completed_segments(&self) -> (r: &[CheckpointSegment])
        ensures
            r@.map_values(|s: CheckpointSegment| segment_view(s)) == self.finished(),
    {
        self.completed_segments.as_slice()
    }

    /// The open segment's index.
    pub fn current_index(&self) -> (i: u32)
        ensures
            i == self.index(),
    {
        self.segment_index
    }

    /// Bytes written to the open segment.
    pub fn current_size(&self) -> (n: u64)
        ensures
            n == self.size(),
    {
        self.current_size
    }

    /// The open segment's path.
    pub fn segment_path(&self) -> (p: &str)
        ensures
            p@ == self.path(),
    {
        self.segment_path.as_str()
    }

    /// Blocks counted in the open segment.
    pub fn segment_block_count(&self) -> (n: u64)
        ensures
            n == self.blocks(),
    {
        self.segment_block_count
    }
}

} // verus!
