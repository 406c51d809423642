//! Checkpoints split over several segment files, described by a manifest.
//!
//! Segment files are named `{base}.ckpt.{index:03}` and start with a 28-byte header;
//! the manifest `{base}.manifest` lists every segment. This module holds the
//! configuration, the manifest and its consistency rules, and the byte formats of the
//! manifest and of the segment header. Reading and writing the files is left to the
//! caller, which hands over or takes back their bytes.
use vstd::prelude::*;
use crate::bytes::{
    le_u32, le_u64, lemma_u32_in, lemma_u64_in, push_u32_le, push_u64_le, read_u32_le, read_u64_le,
    u32_at, u64_at,
};
use crate::checkpoint::constants::MAX_CHECKPOINT_SIZE;
use crate::checkpoint::errors::{made_by, CheckpointError, CheckpointErrorKind, CheckpointResult};
use crate::config::{path_with_extension, spec_with_extension};
use crate::duration::{padded, push_padded};
use crate::text::{byte_list_text, decimal, push_byte_list, push_decimal};

verus! {

broadcast use vstd::seq_lib::group_seq_properties;

/// Default largest size of one segment file: 512 MiB.
pub const DEFAULT_MAX_SEGMENT_SIZE: u64 = 536870912;

/// Default largest number of segment files.
pub const DEFAULT_MAX_SEGMENTS: usize = 16;

/// Magic bytes opening a segment file: "SGMT".
pub const SEGMENT_MAGIC: [u8; 4] = [83, 71, 77, 84];

/// Magic bytes opening a manifest file: "MNFT".
pub const MANIFEST_MAGIC: [u8; 4] = [77, 78, 70, 84];

/// The segment magic as a sequence.
pub open spec fn segment_magic() -> Seq<u8> {
    seq![83u8, 71u8, 77u8, 84u8]
}

/// The manifest magic as a sequence.
pub open spec fn manifest_magic() -> Seq<u8> {
    seq![77u8, 78u8, 70u8, 84u8]
}

/// Settings of a multi-file checkpoint.
#[derive(Debug, Clone)]
pub struct MultiFileCheckpointConfig {
    /// Largest size of one segment file in bytes.
    pub max_segment_size: u64,
    /// Base path of the checkpoint files, without extension.
    pub base_path: String,
    /// Largest number of segment files.
    pub max_segments: usize,
}

impl Default for MultiFileCheckpointConfig {
    /// 512 MiB segments, at most 16 of them, based at "checkpoint".
    fn default() -> (c: Self)
        ensures
            c.max_segment_size == DEFAULT_MAX_SEGMENT_SIZE,
            c.base_path@ == "checkpoint"@,
            c.max_segments == DEFAULT_MAX_SEGMENTS,
    {
        MultiFileCheckpointConfig {
            max_segment_size: DEFAULT_MAX_SEGMENT_SIZE,
            base_path: String::from_str("checkpoint"),
            max_segments: DEFAULT_MAX_SEGMENTS,
        }
    }
}

/// The first rule that `c` breaks, as a message, if any.
pub open spec fn config_fault(c: MultiFileCheckpointConfig) -> Option<Seq<char>> {
    if c.max_segment_size == 0 {
        Some("Max segment size cannot be zero"@)
    } else if c.max_segment_size > MAX_CHECKPOINT_SIZE {
        Some("Max segment size "@ + decimal(c.max_segment_size as nat) + " exceeds maximum checkpoint size "@
            + decimal(MAX_CHECKPOINT_SIZE as nat))
    } else if c.max_segments == 0 {
        Some("Max segments cannot be zero"@)
    } else if c.max_segments > 256 {
        Some("Max segments cannot exceed 256"@)
    } else {
        None
    }
}

impl MultiFileCheckpointConfig {
    /// The default settings, based at `base_path`.
    pub fn new(base_path: String) -> (c: Self)
        ensures
            c.max_segment_size == DEFAULT_MAX_SEGMENT_SIZE,
            c.base_path == base_path,
            c.max_segments == DEFAULT_MAX_SEGMENTS,
    {
        MultiFileCheckpointConfig {
            max_segment_size: DEFAULT_MAX_SEGMENT_SIZE,
            base_path,
            max_segments: DEFAULT_MAX_SEGMENTS,
        }
    }

    /// These settings with segments of at most `size` bytes.
    pub fn with_max_segment_size(self, size: u64) -> (c: Self)
        ensures
            c == (MultiFileCheckpointConfig { max_segment_size: size, ..self }),
    {
        MultiFileCheckpointConfig { max_segment_size: size, ..self }
    }

    /// These settings with at most `count` segments.
    pub fn with_max_segments(self, count: usize) -> (c: Self)
        ensures
            c == (MultiFileCheckpointConfig { max_segments: count, ..self }),
    {
        MultiFileCheckpointConfig { max_segments: count, ..self }
    }

    /// Accepts settings with a segment size in 1..=1 GiB and 1..=256 segments; else fails
    /// with a validation error naming the first rule broken.
    pub fn validate(&self) -> (r: CheckpointResult<()>)
        ensures
            match config_fault(*self) {
                None => r is Ok,
                Some(m) => r matches Err(e) && made_by(e, CheckpointErrorKind::Validation, m),
            },
    {
        if self.max_segment_size == 0 {
            return Err(CheckpointError::validation("Max segment size cannot be zero"));
        }
        if self.max_segment_size > MAX_CHECKPOINT_SIZE {
            let mut m = String::from_str("Max segment size ");
            push_decimal(&mut m, self.max_segment_size);
            m.append(" exceeds maximum checkpoint size ");
            push_decimal(&mut m, MAX_CHECKPOINT_SIZE);
            return Err(CheckpointError::validation(m.as_str()));
        }
        if self.max_segments == 0 {
            return Err(CheckpointError::validation("Max segments cannot be zero"));
        }
        if self.max_segments > 256 {
            return Err(CheckpointError::validation("Max segments cannot exceed 256"));
        }
        Ok(())
    }

    /// The largest total size of a checkpoint: segment size times segment count.
    pub fn max_total_size(&self) -> (n: u64)
        requires
            self.max_segment_size * self.max_segments <= u64::MAX,
        ensures
            n == self.max_segment_size * self.max_segments,
    {
        self.max_segment_size * (self.max_segments as u64)
    }
}

/// The rendering of a segment index: at least three digits, zero-padded.
pub open spec fn index_text(index: u32) -> Seq<char> {
    if index < 1000 {
        padded(index as nat, 3)
    } else {
        decimal(index as nat)
    }
}

fn push_index(s: &mut String, index: u32)
    ensures
        final(s)@ == old(s)@ + index_text(index),
{
    if index < 1000 {
        push_padded(s, index as u64, 3);
    } else {
        push_decimal(s, index as u64);
    }
}

/// The path of segment `index` of the checkpoint based at `base`.
pub open spec fn segment_path_of(base: Seq<char>, index: u32) -> Seq<char> {
    spec_with_extension(base, "ckpt."@ + index_text(index))
}

/// The path of segment `index` of the checkpoint based at `base_path`:
/// `{base}.ckpt.{index:03}`.
pub fn segment_file_path(base_path: &str, index: u32) -> (p: String)
    ensures
        p@ == segment_path_of(base_path@, index),
{
    let mut ext = String::from_str("ckpt.");
    push_index(&mut ext, index);
    proof {
        reveal_strlit("ckpt.");
        if index < 1000 {
            crate::duration::lemma_padded_digits(index as nat, 3);
        } else {
            crate::text::lemma_decimal_digits(index as nat);
        }
        let t = index_text(index);
        assert forall|k: int| 0 <= k < ext@.len() implies #[trigger] ext@[k] != '/' && ext@[k] != '\\' by {
            if k >= 5 {
                assert(ext@[k] == t[k - 5]);
                assert(crate::text::decimal_digit(t[k - 5]));
            }
        }
    }
    path_with_extension(base_path, ext.as_str())
}

/// The path of the manifest of the checkpoint based at `base_path`: `{base}.manifest`.
pub fn manifest_file_path(base_path: &str) -> (p: String)
    ensures
        p@ == spec_with_extension(base_path@, "manifest"@),
{
    proof {
        reveal_strlit("manifest");
    }
    path_with_extension(base_path, "manifest")
}

/// One segment of a checkpoint.
#[derive(Debug)]
pub struct CheckpointSegment {
    /// Position of the segment in the sequence, from 0.
    pub segment_index: u32,
    /// Path of the segment file.
    pub segment_path: String,
    /// First and last LSN covered.
    pub lsn_range: (u64, u64),
    /// Number of blocks in the segment.
    pub block_count: u64,
    /// Checksum of the segment data.
    pub checksum: u64,
    /// Size of the segment file in bytes.
    pub size: u64,
}

impl Clone for CheckpointSegment {
    fn clone(&self) -> (c: Self)
        ensures
            c.segment_index == self.segment_index,
            c.segment_path@ == self.segment_path@,
            c.lsn_range == self.lsn_range,
            c.block_count == self.block_count,
            c.checksum == self.checksum,
            c.size == self.size,
    {
        CheckpointSegment {
            segment_index: self.segment_index,
            segment_path: self.segment_path.clone(),
            lsn_range: self.lsn_range,
            block_count: self.block_count,
            checksum: self.checksum,
            size: self.size,
        }
    }
}

impl CheckpointSegment {
    /// A segment with the given position, path, LSN range and block count; no checksum
    /// and no size yet.
    pub fn new(segment_index: u32, segment_path: String, lsn_range: (u64, u64), block_count: u64) -> (s: Self)
        ensures
            s.segment_index == segment_index,
            s.segment_path == segment_path,
            s.lsn_range == lsn_range,
            s.block_count == block_count,
            s.checksum == 0,
            s.size == 0,
    {
        CheckpointSegment { segment_index, segment_path, lsn_range, block_count, checksum: 0, size: 0 }
    }

    /// The segment's index, zero-padded to three digits.
    pub fn file_name(&self) -> (n: String)
        ensures
            n@ == index_text(self.segment_index),
    {
        let mut n = String::new();
        push_index(&mut n, self.segment_index);
        assert(n@ =~= index_text(self.segment_index));
        n
    }
}

/// What the manifest records of one segment.
#[derive(Debug, Clone, Copy, PartialEq, Eq, Structural)]
pub struct CheckpointSegmentMeta {
    /// Segment index.
    pub index: u32,
    /// First LSN covered.
    pub lsn_start: u64,
    /// Last LSN covered.
    pub lsn_end: u64,
    /// Number of blocks.
    pub block_count: u64,
    /// Segment checksum.
    pub checksum: u64,
    /// Segment size in bytes.
    pub size: u64,
}

/// The segments of a checkpoint, with their totals.
#[derive(Debug)]
pub struct CheckpointManifest {
    /// Number of segments recorded.
    pub segment_count: u32,
    /// The segments, in order.
    pub segments: Vec<CheckpointSegmentMeta>,
    /// Smallest first LSN and largest last LSN over all segments.
    pub total_lsn_range: (u64, u64),
    /// Sum of the block counts.
    pub total_block_count: u64,
    /// Manifest checksum.
    pub checksum: u64,
    /// Checkpoint time.
    pub timestamp: u64,
}

impl Clone for CheckpointManifest {
    fn clone(&self) -> (c: Self)
        ensures
            c.segment_count == self.segment_count,
            c.segments@ == self.segments@,
            c.total_lsn_range == self.total_lsn_range,
            c.total_block_count == self.total_block_count,
            c.checksum == self.checksum,
            c.timestamp == self.timestamp,
    {
        CheckpointManifest {
            segment_count: self.segment_count,
            segments: self.segments.clone(),
            total_lsn_range: self.total_lsn_range,
            total_block_count: self.total_block_count,
            checksum: self.checksum,
            timestamp: self.timestamp,
        }
    }
}

impl Default for CheckpointManifest {
    /// A manifest with no segments and all totals zero.
    fn default() -> (m: Self)
        ensures
            m.segment_count == 0,
            m.segments@ == Seq::<CheckpointSegmentMeta>::empty(),
            m.total_lsn_range == (0u64, 0u64),
            m.total_block_count == 0,
            m.checksum == 0,
            m.timestamp == 0,
    {
        CheckpointManifest {
            segment_count: 0,
            segments: Vec::new(),
            total_lsn_range: (0, 0),
            total_block_count: 0,
            checksum: 0,
            timestamp: 0,
        }
    }
}

/// The smallest first LSN of the segments (0 when there are none).
pub open spec fn min_lsn_start(s: Seq<CheckpointSegmentMeta>) -> u64
    decreases s.len(),
{
    if s.len() == 0 {
        0
    } else if s.len() == 1 {
        s[0].lsn_start
    } else {
        let rest = min_lsn_start(s.drop_last());
        if s.last().lsn_start < rest { s.last().lsn_start } else { rest }
    }
}

/// The largest last LSN of the segments (0 when there are none).
pub open spec fn max_lsn_end(s: Seq<CheckpointSegmentMeta>) -> u64
    decreases s.len(),
{
    if s.len() == 0 {
        0
    } else if s.len() == 1 {
        s[0].lsn_end
    } else {
        let rest = max_lsn_end(s.drop_last());
        if s.last().lsn_end > rest { s.last().lsn_end } else { rest }
    }
}

/// The sum of the block counts of the segments.
pub open spec fn total_blocks(s: Seq<CheckpointSegmentMeta>) -> nat
    decreases s.len(),
{
    if s.len() == 0 {
        0
    } else {
        total_blocks(s.drop_last()) + s.last().block_count as nat
    }
}

/// The first segment, from position `i` on, whose index is not its position, as a message.
pub open spec fn index_fault_from(s: Seq<CheckpointSegmentMeta>, i: nat) -> Option<Seq<char>>
    decreases s.len() - i,
{
    if i >= s.len() {
        None
    } else if s[i as int].index != i {
        Some("Segment index mismatch: expected "@ + decimal(i) + " but found "@ + decimal(s[i as int].index as nat))
    } else {
        index_fault_from(s, i + 1)
    }
}

/// The first pair of neighbours, from position `j` on, whose LSN ranges overlap, as a message.
pub open spec fn overlap_fault_from(s: Seq<CheckpointSegmentMeta>, j: nat) -> Option<Seq<char>>
    decreases s.len() - j,
{
    if j + 1 >= s.len() {
        None
    } else if s[j as int].lsn_end > s[j + 1int].lsn_start {
        Some("LSN range overlap: segment "@ + decimal(s[j as int].index as nat) + " ends at "@
            + decimal(s[j as int].lsn_end as nat) + " but segment "@ + decimal(s[j + 1int].index as nat)
            + " starts at "@ + decimal(s[j + 1int].lsn_start as nat))
    } else {
        overlap_fault_from(s, j + 1)
    }
}

/// The first inconsistency of a manifest, as a message: a count that differs from the
/// number of segments, then a segment out of place, then overlapping LSN ranges.
pub open spec fn manifest_fault(m: CheckpointManifest) -> Option<Seq<char>> {
    let s = m.segments@;
    if m.segment_count != s.len() {
        Some("Segment count mismatch: manifest says "@ + decimal(m.segment_count as nat) + " but has "@
            + decimal(s.len()) + " segments"@)
    } else if index_fault_from(s, 0) is Some {
        index_fault_from(s, 0)
    } else {
        overlap_fault_from(s, 0)
    }
}

proof fn lemma_index_push(s: Seq<CheckpointSegmentMeta>, meta: CheckpointSegmentMeta, i: nat)
    requires
        i <= s.len(),
        index_fault_from(s, i) is None,
        meta.index == s.len(),
    ensures
        index_fault_from(s.push(meta), i) is None,
    decreases s.len() - i,
{
    if i < s.len() {
        assert(s.push(meta)[i as int] == s[i as int]);
        lemma_index_push(s, meta, i + 1);
    } else {
        assert(s.push(meta)[i as int] == meta);
        assert(index_fault_from(s.push(meta), i + 1) is None);
    }
}

proof fn lemma_overlap_push(s: Seq<CheckpointSegmentMeta>, meta: CheckpointSegmentMeta, j: nat)
    requires
        overlap_fault_from(s, j) is None,
        s.len() > 0 ==> s.last().lsn_end <= meta.lsn_start,
    ensures
        overlap_fault_from(s.push(meta), j) is None,
    decreases s.len() - j,
{
    let t = s.push(meta);
    if j + 1 < s.len() {
        assert(t[j as int] == s[j as int] && t[j + 1int] == s[j + 1int]);
        lemma_overlap_push(s, meta, j + 1);
    } else if j + 1 == s.len() {
        assert(t[j as int] == s.last() && t[j + 1int] == meta);
        assert(overlap_fault_from(t, j + 1) is None);
    }
}

proof fn lemma_index_fault_none(s: Seq<CheckpointSegmentMeta>, i: nat)
    ensures
        index_fault_from(s, i) is None <==> forall|k: int| i <= k < s.len() ==> #[trigger] s[k].index == k,
    decreases s.len() - i,
{
    if i < s.len() {
        lemma_index_fault_none(s, i + 1);
    }
}

proof fn lemma_overlap_fault_none(s: Seq<CheckpointSegmentMeta>, j: nat)
    ensures
        overlap_fault_from(s, j) is None <==> forall|k: int| j <= k && k + 1 < s.len()
            ==> #[trigger] s[k].lsn_end <= s[k + 1].lsn_start,
    decreases s.len() - j,
{
    if j + 1 < s.len() {
        lemma_overlap_fault_none(s, j + 1);
    }
}

/// A manifest is consistent exactly when its count is its number of segments, every segment
/// sits at its own index, and every segment's LSN range ends no later than the next one
/// starts.
pub proof fn lemma_manifest_consistency(m: CheckpointManifest)
    ensures
        manifest_fault(m) is None <==> {
            &&& m.segment_count == m.segments@.len()
            &&& forall|k: int| 0 <= k < m.segments@.len() ==> #[trigger] m.segments@[k].index == k
            &&& forall|k: int| 0 <= k && k + 1 < m.segments@.len()
                ==> #[trigger] m.segments@[k].lsn_end <= m.segments@[k + 1].lsn_start
        },
{
    lemma_index_fault_none(m.segments@, 0);
    lemma_overlap_fault_none(m.segments@, 0);
}

/// Appending, as `add_segment` does, a segment whose index is its position and whose LSN
/// range starts no earlier than the last range ends keeps a consistent manifest consistent.
pub proof fn lemma_add_segment_keeps_manifest_valid(
    before: CheckpointManifest,
    after: CheckpointManifest,
    meta: CheckpointSegmentMeta,
)
    requires
        manifest_fault(before) is None,
        after.segments@ == before.segments@.push(meta),
        after.segment_count == before.segments@.len() + 1,
        meta.index == before.segments@.len(),
        before.segments@.len() > 0 ==> before.segments@.last().lsn_end <= meta.lsn_start,
    ensures
        manifest_fault(after) is None,
{
    lemma_index_push(before.segments@, meta, 0);
    lemma_overlap_push(before.segments@, meta, 0);
}

impl CheckpointManifest {
    /// A manifest with no segments and all totals zero.
    pub fn new() -> (m: Self)
        ensures
            m.segment_count == 0,
            m.segments@ == Seq::<CheckpointSegmentMeta>::empty(),
            m.total_lsn_range == (0u64, 0u64),
            m.total_block_count == 0,
            m.checksum == 0,
            m.timestamp == 0,
    {
        CheckpointManifest::default()
    }

    /// Appends `meta` and recomputes the count and the totals over all segments.
    pub fn add_segment(&mut self, meta: CheckpointSegmentMeta)
        requires
            total_blocks(old(self).segments@.push(meta)) <= u64::MAX,
        ensures
            final(self).segments@ == old(self).segments@.push(meta),
            final(self).segment_count == (old(self).segments@.len() + 1) as u32,
            final(self).total_lsn_range == (
                min_lsn_start(final(self).segments@),
                max_lsn_end(final(self).segments@),
            ),
            final(self).total_block_count == total_blocks(final(self).segments@),
            final(self).checksum == old(self).checksum,
            final(self).timestamp == old(self).timestamp,
    {
        self.segments.push(meta);
        self.segment_count = self.segments.len() as u32;
        self.update_totals();
    }

    fn update_totals(&mut self)
        requires
            total_blocks(old(self).segments@) <= u64::MAX,
        ensures
            final(self).segments == old(self).segments,
            final(self).segment_count == old(self).segment_count,
            final(self).total_lsn_range == (
                min_lsn_start(final(self).segments@),
                max_lsn_end(final(self).segments@),
            ),
            final(self).total_block_count == total_blocks(final(self).segments@),
            final(self).checksum == old(self).checksum,
            final(self).timestamp == old(self).timestamp,
    {
        if self.segments.len() == 0 {
            self.total_lsn_range = (0, 0);
            self.total_block_count = 0;
            return;
        }
        let ghost s = self.segments@;
        let mut lo = self.segments[0].lsn_start;
        let mut hi = self.segments[0].lsn_end;
        let mut sum: u64 = self.segments[0].block_count;
        proof {
            assert(s.subrange(0, 1).drop_last() =~= Seq::<CheckpointSegmentMeta>::empty());
            assert(total_blocks(Seq::<CheckpointSegmentMeta>::empty()) == 0);
            assert(total_blocks(s.subrange(0, 1)) == s[0].block_count);
            lemma_total_blocks_prefix(s, 1);
        }
        let mut i: usize = 1;
        while i < self.segments.len()
            invariant
                1 <= i <= s.len(),
                s == self.segments@,
                lo == min_lsn_start(s.subrange(0, i as int)),
                hi == max_lsn_end(s.subrange(0, i as int)),
                sum == total_blocks(s.subrange(0, i as int)),
                total_blocks(s) <= u64::MAX,
            decreases s.len() - i,
        {
            let x = self.segments[i];
            proof {
                assert(s.subrange(0, i as int + 1).drop_last() =~= s.subrange(0, i as int));
                lemma_total_blocks_prefix(s, i as nat + 1);
            }
            if x.lsn_start < lo {
                lo = x.lsn_start;
            }
            if x.lsn_end > hi {
                hi = x.lsn_end;
            }
            sum = sum + x.block_count;
            i = i + 1;
        }
        proof {
            assert(s.subrange(0, s.len() as int) =~= s);
        }
        self.total_lsn_range = (lo, hi);
        self.total_block_count = sum;
    }

    /// Accepts a manifest whose count matches its segments, whose segments sit at their
    /// own index, and whose neighbouring LSN ranges do not overlap; else fails with a
    /// corruption error naming the first inconsistency.
    pub fn validate(&self) -> (r: CheckpointResult<()>)
        ensures
            match manifest_fault(*self) {
                None => r is Ok,
                Some(m) => r matches Err(e) && made_by(e, CheckpointErrorKind::Corruption, m),
            },
            r is Ok <==> {
                &&& self.segment_count == self.segments@.len()
                &&& forall|k: int| 0 <= k < self.segments@.len() ==> #[trigger] self.segments@[k].index == k
                &&& forall|k: int| 0 <= k && k + 1 < self.segments@.len()
                    ==> #[trigger] self.segments@[k].lsn_end <= self.segments@[k + 1].lsn_start
            },
    {
        proof { lemma_manifest_consistency(*self); }
        let ghost s = self.segments@;
        if self.segment_count as usize != self.segments.len() {
            let mut m = String::from_str("Segment count mismatch: manifest says ");
            push_decimal(&mut m, self.segment_count as u64);
            m.append(" but has ");
            push_decimal(&mut m, self.segments.len() as u64);
            m.append(" segments");
            return Err(CheckpointError::corruption(m.as_str()));
        }
        let mut i: usize = 0;
        while i < self.segments.len()
            invariant
                0 <= i <= s.len(),
                s == self.segments@,
                self.segment_count == s.len(),
                index_fault_from(s, 0) == index_fault_from(s, i as nat),
            decreases s.len() - i,
        {
            if self.segments[i].index as usize != i {
                proof {
                    assert(index_fault_from(s, i as nat) == Some("Segment index mismatch: expected "@ + decimal(i as nat)
                        + " but found "@ + decimal(s[i as int].index as nat)));
                }
                let mut m = String::from_str("Segment index mismatch: expected ");
                push_decimal(&mut m, i as u64);
                m.append(" but found ");
                push_decimal(&mut m, self.segments[i].index as u64);
                return Err(CheckpointError::corruption(m.as_str()));
            }
            i = i + 1;
        }
        let mut j: usize = 0;
        while j + 1 < self.segments.len()
            invariant
                j == 0 || j < self.segments.len(),
                s == self.segments@,
                self.segment_count == s.len(),
                index_fault_from(s, 0) is None,
                overlap_fault_from(s, 0) == overlap_fault_from(s, j as nat),
            decreases s.len() - j,
        {
            let a = self.segments[j];
            let b = self.segments[j + 1];
            if a.lsn_end > b.lsn_start {
                proof {
                    assert(overlap_fault_from(s, j as nat) is Some);
                }
                let mut m = String::from_str("LSN range overlap: segment ");
                push_decimal(&mut m, a.index as u64);
                m.append(" ends at ");
                push_decimal(&mut m, a.lsn_end);
                m.append(" but segment ");
                push_decimal(&mut m, b.index as u64);
                m.append(" starts at ");
                push_decimal(&mut m, b.lsn_start);
                return Err(CheckpointError::corruption(m.as_str()));
            }
            j = j + 1;
        }
        Ok(())
    }
}

/// The block total of a prefix is at most the total of the whole sequence.
proof fn lemma_total_blocks_prefix(s: Seq<CheckpointSegmentMeta>, n: nat)
    requires
        n <= s.len(),
    ensures
        total_blocks(s.subrange(0, n as int)) <= total_blocks(s),
    decreases s.len(),
{
    if n < s.len() {
        assert(s.drop_last().subrange(0, n as int) =~= s.subrange(0, n as int));
        lemma_total_blocks_prefix(s.drop_last(), n);
    } else {
        assert(s.subrange(0, n as int) =~= s);
    }
}


/// The 44 bytes recording one segment in a manifest: index, first and last LSN, block
/// count, checksum and size, little-endian.
pub open spec fn entry_bytes(x: CheckpointSegmentMeta) -> Seq<u8> {
    le_u32(x.index) + le_u64(x.lsn_start) + le_u64(x.lsn_end) + le_u64(x.block_count) + le_u64(x.checksum)
        + le_u64(x.size)
}

/// The entries of the segments, one after the other.
pub open spec fn entries_bytes(s: Seq<CheckpointSegmentMeta>) -> Seq<u8>
    decreases s.len(),
{
    if s.len() == 0 {
        Seq::empty()
    } else {
        entries_bytes(s.drop_last()) + entry_bytes(s.last())
    }
}

/// The 48-byte head of a manifest file: magic, segment count, timestamp, total LSN range,
/// total block count and checksum, little-endian.
pub open spec fn manifest_head_bytes(m: CheckpointManifest) -> Seq<u8> {
    manifest_magic() + le_u32(m.segment_count) + le_u64(m.timestamp) + le_u64(m.total_lsn_range.0)
        + le_u64(m.total_lsn_range.1) + le_u64(m.total_block_count) + le_u64(m.checksum)
}

/// The bytes of a manifest file: the head, then one entry per segment.
pub open spec fn manifest_bytes(m: CheckpointManifest) -> Seq<u8> {
    manifest_head_bytes(m) + entries_bytes(m.segments@)
}

/// The bytes of the manifest file of `manifest`.
pub fn encode_manifest(manifest: &CheckpointManifest) -> (bytes: Vec<u8>)
    ensures
        bytes@ == manifest_bytes(*manifest),
{
    let mut out: Vec<u8> = Vec::new();
    out.push(77u8);
    out.push(78u8);
    out.push(70u8);
    out.push(84u8);
    push_u32_le(&mut out, manifest.segment_count);
    push_u64_le(&mut out, manifest.timestamp);
    push_u64_le(&mut out, manifest.total_lsn_range.0);
    push_u64_le(&mut out, manifest.total_lsn_range.1);
    push_u64_le(&mut out, manifest.total_block_count);
    push_u64_le(&mut out, manifest.checksum);
    let ghost head = out@;
    assert(head =~= manifest_head_bytes(*manifest));
    let ghost s = manifest.segments@;
    let mut i: usize = 0;
    while i < manifest.segments.len()
        invariant
            0 <= i <= s.len(),
            s == manifest.segments@,
            out@ == head + entries_bytes(s.subrange(0, i as int)),
        decreases s.len() - i,
    {
        let x = manifest.segments[i];
        let ghost before = out@;
        push_u32_le(&mut out, x.index);
        push_u64_le(&mut out, x.lsn_start);
        push_u64_le(&mut out, x.lsn_end);
        push_u64_le(&mut out, x.block_count);
        push_u64_le(&mut out, x.checksum);
        push_u64_le(&mut out, x.size);
        proof {
            assert(s.subrange(0, i as int + 1).drop_last() =~= s.subrange(0, i as int));
            assert(out@ =~= before + entry_bytes(x));
        }
        i = i + 1;
    }
    assert(s.subrange(0, s.len() as int) =~= s);
    out
}

/// The text of an end-of-file error while reading.
pub open spec fn eof_text() -> Seq<char> {
    "failed to fill whole buffer"@
}

/// The I/O error of a read of `what` that ran out of bytes.
pub open spec fn short_read(what: Seq<char>) -> Option<(CheckpointErrorKind, Seq<char>)> {
    Some((CheckpointErrorKind::Io, "Failed to read "@ + what + ": "@ + eof_text()))
}

/// The field of a segment entry that holds byte `rem` of the entry.
pub open spec fn entry_field(rem: int) -> Seq<char> {
    if rem < 4 {
        "index"@
    } else if rem < 12 {
        "LSN start"@
    } else if rem < 20 {
        "LSN end"@
    } else if rem < 28 {
        "block count"@
    } else if rem < 36 {
        "checksum"@
    } else {
        "size"@
    }
}

/// Why the bytes `b` of the manifest file at `path` cannot be read as a manifest, if they
/// cannot: the first field that is cut short, or a wrong magic.
pub open spec fn manifest_read_fault(b: Seq<u8>, path: Seq<char>) -> Option<(CheckpointErrorKind, Seq<char>)> {
    if b.len() < 4 {
        short_read("manifest magic"@)
    } else if b.subrange(0, 4) != manifest_magic() {
        Some((
            CheckpointErrorKind::Corruption,
            "Invalid manifest magic in "@ + path + ": expected "@ + byte_list_text(manifest_magic()) + ", found "@
                + byte_list_text(b.subrange(0, 4)),
        ))
    } else if b.len() < 8 {
        short_read("segment count"@)
    } else if b.len() < 16 {
        short_read("timestamp"@)
    } else if b.len() < 24 {
        short_read("total LSN start"@)
    } else if b.len() < 32 {
        short_read("total LSN end"@)
    } else if b.len() < 40 {
        short_read("total block count"@)
    } else if b.len() < 48 {
        short_read("checksum"@)
    } else {
        let whole = (b.len() - 48) / 44;
        if whole >= u32_at(b, 4) {
            None
        } else {
            short_read("segment "@ + decimal(whole as nat) + " "@ + entry_field((b.len() - 48) % 44))
        }
    }
}

/// The segment entry whose bytes start at `at` of `b`.
pub open spec fn entry_at(b: Seq<u8>, at: int) -> CheckpointSegmentMeta {
    CheckpointSegmentMeta {
        index: u32_at(b, at),
        lsn_start: u64_at(b, at + 4),
        lsn_end: u64_at(b, at + 12),
        block_count: u64_at(b, at + 20),
        checksum: u64_at(b, at + 28),
        size: u64_at(b, at + 36),
    }
}

/// Whether `m` is the manifest that the bytes `b` hold.
pub open spec fn manifest_read_from(b: Seq<u8>, m: CheckpointManifest) -> bool {
    &&& m.segment_count == u32_at(b, 4)
    &&& m.timestamp == u64_at(b, 8)
    &&& m.total_lsn_range == (u64_at(b, 16), u64_at(b, 24))
    &&& m.total_block_count == u64_at(b, 32)
    &&& m.checksum == u64_at(b, 40)
    &&& m.segments@.len() == m.segment_count
    &&& forall|i: int| 0 <= i < m.segments@.len() ==> #[trigger] m.segments@[i] == entry_at(b, 48 + 44 * i)
}

fn short_read_error(what: &str) -> (e: CheckpointError)
    ensures
        made_by(e, CheckpointErrorKind::Io, "Failed to read "@ + what@ + ": "@ + eof_text()),
{
    let mut m = String::from_str("Failed to read ");
    m.append(what);
    m.append(": ");
    m.append("failed to fill whole buffer");
    CheckpointError::io(m.as_str())
}

fn push_entry_field(s: &mut String, rem: u64)
    ensures
        final(s)@ == old(s)@ + entry_field(rem as int),
{
    if rem < 4 {
        s.append("index");
    } else if rem < 12 {
        s.append("LSN start");
    } else if rem < 20 {
        s.append("LSN end");
    } else if rem < 28 {
        s.append("block count");
    } else if rem < 36 {
        s.append("checksum");
    } else {
        s.append("size");
    }
}

/// Reads the manifest held by the bytes `bytes` of the manifest file at `path`; fails as
/// reading the file field by field fails, at the first field cut short or at a wrong magic.
pub fn decode_manifest(bytes: &[u8], path: &str) -> (r: CheckpointResult<CheckpointManifest>)
    ensures
        match manifest_read_fault(bytes@, path@) {
            Some((k, m)) => r matches Err(e) && made_by(e, k, m),
            None => r matches Ok(m) && manifest_read_from(bytes@, m),
        },
{
    let b = bytes;
    let len = b.len();
    if len < 4 {
        return Err(short_read_error("manifest magic"));
    }
    let magic: [u8; 4] = [77u8, 78u8, 70u8, 84u8];
    proof { assert(magic@ =~= manifest_magic()); }
    if b[0] != 77u8 || b[1] != 78u8 || b[2] != 70u8 || b[3] != 84u8 {
        let found: [u8; 4] = [b[0], b[1], b[2], b[3]];
        proof {
            assert(found@ =~= b@.subrange(0, 4));
            assert(b@.subrange(0, 4) != manifest_magic()) by {
                if b@.subrange(0, 4) == manifest_magic() {
                    assert(b@.subrange(0, 4)[0] == b@[0]);
                    assert(b@.subrange(0, 4)[1] == b@[1]);
                    assert(b@.subrange(0, 4)[2] == b@[2]);
                    assert(b@.subrange(0, 4)[3] == b@[3]);
                }
            }
        }
        let mut m = String::from_str("Invalid manifest magic in ");
        m.append(path);
        m.append(": expected ");
        push_byte_list(&mut m, magic.as_slice());
        m.append(", found ");
        push_byte_list(&mut m, found.as_slice());
        return Err(CheckpointError::corruption(m.as_str()));
    }
    proof {
        assert(b@.subrange(0, 4) =~= manifest_magic());
    }
    if len < 8 {
        return Err(short_read_error("segment count"));
    }
    let segment_count = read_u32_le(b, 4);
    if len < 16 {
        return Err(short_read_error("timestamp"));
    }
    let timestamp = read_u64_le(b, 8);
    if len < 24 {
        return Err(short_read_error("total LSN start"));
    }
    let lsn_start = read_u64_le(b, 16);
    if len < 32 {
        return Err(short_read_error("total LSN end"));
    }
    let lsn_end = read_u64_le(b, 24);
    if len < 40 {
        return Err(short_read_error("total block count"));
    }
    let total_block_count = read_u64_le(b, 32);
    if len < 48 {
        return Err(short_read_error("checksum"));
    }
    let checksum = read_u64_le(b, 40);
    let mut segments: Vec<CheckpointSegmentMeta> = Vec::new();
    let mut i: u32 = 0;
    while i < segment_count
        invariant
            0 <= i <= segment_count,
            len == b@.len(),
            len >= 48,
            b@ == bytes@,
            b@.subrange(0, 4) == manifest_magic(),
            segment_count == u32_at(b@, 4),
            48 + 44 * i <= len,
            segments@.len() == i,
            forall|k: int| 0 <= k < i ==> #[trigger] segments@[k] == entry_at(b@, 48 + 44 * k),
        decreases segment_count - i,
    {
        let start: u64 = 48 + 44 * (i as u64);
        if (len as u64) < start + 44 {
            let rem = (len as u64) - start;
            proof {
                let l = len as int;
                assert(l - 48 == (i as int) * 44 + rem as int);
                vstd::arithmetic::div_mod::lemma_fundamental_div_mod_converse(l - 48, 44, i as int, rem as int);
                assert((l - 48) / 44 == i as int);
                assert((l - 48) % 44 == rem as int);
            }
            let mut what = String::from_str("segment ");
            push_decimal(&mut what, i as u64);
            what.append(" ");
            push_entry_field(&mut what, rem);
            proof {
                assert(what@ == "segment "@ + decimal(i as nat) + " "@ + entry_field(rem as int));
                assert(manifest_read_fault(b@, path@) == short_read(what@));
            }
            return Err(short_read_error(what.as_str()));
        }
        let at = start as usize;
        let x = CheckpointSegmentMeta {
            index: read_u32_le(b, at),
            lsn_start: read_u64_le(b, at + 4),
            lsn_end: read_u64_le(b, at + 12),
            block_count: read_u64_le(b, at + 20),
            checksum: read_u64_le(b, at + 28),
            size: read_u64_le(b, at + 36),
        };
        segments.push(x);
        i = i + 1;
    }
    proof {
        let l = len as int;
        let whole = (l - 48) / 44;
        vstd::arithmetic::div_mod::lemma_fundamental_div_mod(l - 48, 44);
        assert(whole >= segment_count) by (nonlinear_arith)
            requires
                whole == (l - 48) / 44,
                48 + 44 * segment_count <= l,
                l - 48 == 44 * ((l - 48) / 44) + (l - 48) % 44,
                0 <= (l - 48) % 44 < 44,
        ;
    }
    Ok(CheckpointManifest {
        segment_count,
        segments,
        total_lsn_range: (lsn_start, lsn_end),
        total_block_count,
        checksum,
        timestamp,
    })
}

proof fn lemma_entries_concat(a: Seq<CheckpointSegmentMeta>, b: Seq<CheckpointSegmentMeta>)
    ensures
        entries_bytes(a + b) == entries_bytes(a) + entries_bytes(b),
    decreases b.len(),
{
    if b.len() == 0 {
        assert(a + b =~= a);
        assert(entries_bytes(a) + entries_bytes(b) =~= entries_bytes(a));
    } else {
        assert((a + b).drop_last() =~= a + b.drop_last());
        lemma_entries_concat(a, b.drop_last());
        assert(entries_bytes(a + b) =~= entries_bytes(a) + entries_bytes(b));
    }
}

proof fn lemma_entries_len(s: Seq<CheckpointSegmentMeta>)
    ensures
        entries_bytes(s).len() == 44 * s.len(),
    decreases s.len(),
{
    if s.len() > 0 {
        lemma_entries_len(s.drop_last());
    }
}

/// An entry reads back from its place between `q` and `rest`.
proof fn lemma_entry_read(q: Seq<u8>, x: CheckpointSegmentMeta, rest: Seq<u8>)
    ensures
        entry_at(q + entry_bytes(x) + rest, q.len() as int) == x,
{
    let t = q + entry_bytes(x) + rest;
    let f0 = le_u32(x.index);
    let f1 = le_u64(x.lsn_start);
    let f2 = le_u64(x.lsn_end);
    let f3 = le_u64(x.block_count);
    let f4 = le_u64(x.checksum);
    let f5 = le_u64(x.size);
    assert(t =~= q + f0 + (f1 + f2 + f3 + f4 + f5 + rest));
    lemma_u32_in(q, x.index, f1 + f2 + f3 + f4 + f5 + rest);
    assert(t =~= (q + f0) + f1 + (f2 + f3 + f4 + f5 + rest));
    lemma_u64_in(q + f0, x.lsn_start, f2 + f3 + f4 + f5 + rest);
    assert(t =~= (q + f0 + f1) + f2 + (f3 + f4 + f5 + rest));
    lemma_u64_in(q + f0 + f1, x.lsn_end, f3 + f4 + f5 + rest);
    assert(t =~= (q + f0 + f1 + f2) + f3 + (f4 + f5 + rest));
    lemma_u64_in(q + f0 + f1 + f2, x.block_count, f4 + f5 + rest);
    assert(t =~= (q + f0 + f1 + f2 + f3) + f4 + (f5 + rest));
    lemma_u64_in(q + f0 + f1 + f2 + f3, x.checksum, f5 + rest);
    assert(t =~= (q + f0 + f1 + f2 + f3 + f4) + f5 + rest);
    lemma_u64_in(q + f0 + f1 + f2 + f3 + f4, x.size, rest);
}

/// The entry of segment `i` reads back from its place after any prefix `p`.
proof fn lemma_entry_at(p: Seq<u8>, s: Seq<CheckpointSegmentMeta>, i: int)
    requires
        0 <= i < s.len(),
    ensures
        entry_at(p + entries_bytes(s), p.len() + 44 * i) == s[i],
{
    let pre = s.subrange(0, i);
    let post = s.subrange(i + 1, s.len() as int);
    let x = s[i];
    assert(s =~= pre + seq![x] + post);
    lemma_entries_concat(pre + seq![x], post);
    lemma_entries_concat(pre, seq![x]);
    assert(seq![x].drop_last() =~= Seq::<CheckpointSegmentMeta>::empty());
    assert(entries_bytes(Seq::<CheckpointSegmentMeta>::empty()) =~= Seq::<u8>::empty());
    assert(entries_bytes(seq![x]) =~= entry_bytes(x));
    lemma_entries_len(pre);
    let q = p + entries_bytes(pre);
    assert(p + entries_bytes(s) =~= q + entry_bytes(x) + entries_bytes(post));
    lemma_entry_read(q, x, entries_bytes(post));
}

/// Reading back the bytes written for a manifest gives the same manifest: its count,
/// timestamp, totals, checksum and every segment entry, as long as its count matches its
/// number of segments.
pub proof fn lemma_manifest_roundtrip(m: CheckpointManifest, path: Seq<char>)
    requires
        m.segment_count == m.segments@.len(),
    ensures
        manifest_read_fault(manifest_bytes(m), path) is None,
        manifest_read_from(manifest_bytes(m), m),
{
    let b = manifest_bytes(m);
    let s = m.segments@;
    let e = entries_bytes(s);
    let h0 = manifest_magic();
    let h1 = le_u32(m.segment_count);
    let h2 = le_u64(m.timestamp);
    let h3 = le_u64(m.total_lsn_range.0);
    let h4 = le_u64(m.total_lsn_range.1);
    let h5 = le_u64(m.total_block_count);
    let h6 = le_u64(m.checksum);
    lemma_entries_len(s);
    assert(b =~= h0 + h1 + (h2 + h3 + h4 + h5 + h6 + e));
    lemma_u32_in(h0, m.segment_count, h2 + h3 + h4 + h5 + h6 + e);
    assert(b =~= (h0 + h1) + h2 + (h3 + h4 + h5 + h6 + e));
    lemma_u64_in(h0 + h1, m.timestamp, h3 + h4 + h5 + h6 + e);
    assert(b =~= (h0 + h1 + h2) + h3 + (h4 + h5 + h6 + e));
    lemma_u64_in(h0 + h1 + h2, m.total_lsn_range.0, h4 + h5 + h6 + e);
    assert(b =~= (h0 + h1 + h2 + h3) + h4 + (h5 + h6 + e));
    lemma_u64_in(h0 + h1 + h2 + h3, m.total_lsn_range.1, h5 + h6 + e);
    assert(b =~= (h0 + h1 + h2 + h3 + h4) + h5 + (h6 + e));
    lemma_u64_in(h0 + h1 + h2 + h3 + h4, m.total_block_count, h6 + e);
    assert(b =~= (h0 + h1 + h2 + h3 + h4 + h5) + h6 + e);
    lemma_u64_in(h0 + h1 + h2 + h3 + h4 + h5, m.checksum, e);
    let head = manifest_head_bytes(m);
    assert(head.len() == 48);
    assert(b.subrange(0, 4) =~= manifest_magic());
    assert((b.len() - 48) / 44 == s.len()) by {
        vstd::arithmetic::div_mod::lemma_fundamental_div_mod_converse(b.len() - 48, 44, s.len() as int, 0);
    }
    assert forall|i: int| 0 <= i < s.len() implies #[trigger] s[i] == entry_at(b, 48 + 44 * i) by {
        lemma_entry_at(head, s, i);
    }
}

/// The 28-byte header of a segment file: magic, index, first LSN, last LSN and block
/// count, little-endian.
pub open spec fn segment_header_bytes(index: u32, lsn_start: u64, lsn_end: u64, block_count: u64) -> Seq<u8> {
    segment_magic() + le_u32(index) + le_u64(lsn_start) + le_u64(lsn_end) + le_u64(block_count)
}

/// Offset in a segment file of the last LSN and block count, written when the segment
/// is finalized.
pub const SEGMENT_FINAL_FIELDS_OFFSET: u64 = 16;

/// The header written when segment `index` is created at `lsn_start`: its last LSN and
/// block count are still zero.
pub fn encode_segment_header(index: u32, lsn_start: u64) -> (bytes: Vec<u8>)
    ensures
        bytes@ == segment_header_bytes(index, lsn_start, 0, 0),
{
    let mut out: Vec<u8> = Vec::new();
    out.push(83u8);
    out.push(71u8);
    out.push(77u8);
    out.push(84u8);
    push_u32_le(&mut out, index);
    push_u64_le(&mut out, lsn_start);
    push_u64_le(&mut out, 0);
    push_u64_le(&mut out, 0);
    assert(out@ =~= segment_header_bytes(index, lsn_start, 0, 0));
    out
}

/// The bytes written at `SEGMENT_FINAL_FIELDS_OFFSET` when a segment is finalized: its
/// last LSN and block count.
pub fn encode_segment_final_fields(lsn_end: u64, block_count: u64) -> (bytes: Vec<u8>)
    ensures
        bytes@ == le_u64(lsn_end) + le_u64(block_count),
{
    let mut out: Vec<u8> = Vec::new();
    push_u64_le(&mut out, lsn_end);
    push_u64_le(&mut out, block_count);
    assert(out@ =~= le_u64(lsn_end) + le_u64(block_count));
    out
}

/// Writing the final fields over a fresh header at their offset gives the header of the
/// finished segment.
pub proof fn lemma_finalized_header(index: u32, lsn_start: u64, lsn_end: u64, block_count: u64)
    ensures
        segment_header_bytes(index, lsn_start, 0, 0).subrange(0, SEGMENT_FINAL_FIELDS_OFFSET as int)
            + le_u64(lsn_end) + le_u64(block_count) == segment_header_bytes(index, lsn_start, lsn_end, block_count),
{
    assert(segment_header_bytes(index, lsn_start, 0, 0).subrange(0, 16) + le_u64(lsn_end) + le_u64(block_count)
        =~= segment_header_bytes(index, lsn_start, lsn_end, block_count));
}

/// Why the first bytes `b` of the segment file at `path`, of size `size` as read from its
/// metadata, cannot be read as a segment header, if they cannot.
pub open spec fn segment_read_fault(b: Seq<u8>, path: Seq<char>, size: Result<u64, String>) -> Option<
    (CheckpointErrorKind, Seq<char>),
> {
    if b.len() < 4 {
        short_read("segment magic"@)
    } else if b.subrange(0, 4) != segment_magic() {
        Some((
            CheckpointErrorKind::Corruption,
            "Invalid segment magic in "@ + path + ": expected "@ + byte_list_text(segment_magic()) + ", found "@
                + byte_list_text(b.subrange(0, 4)),
        ))
    } else if b.len() < 8 {
        short_read("segment index"@)
    } else if b.len() < 16 {
        short_read("LSN start"@)
    } else if b.len() < 24 {
        short_read("LSN end"@)
    } else if b.len() < 32 {
        short_read("block count"@)
    } else {
        match size {
            Err(t) => Some((CheckpointErrorKind::Io, "Failed to get segment metadata: "@ + t@)),
            Ok(_) => None,
        }
    }
}

/// Reads the segment described by the header bytes `bytes` of the file at `path`, whose
/// size in bytes is `size` as read from its metadata; the checksum is not read (zero).
pub fn decode_segment_header(bytes: &[u8], path: &str, size: &Result<u64, String>) -> (r: CheckpointResult<CheckpointSegment>)
    ensures
        match segment_read_fault(bytes@, path@, *size) {
            Some((k, m)) => r matches Err(e) && made_by(e, k, m),
            None => r matches Ok(seg) && {
                &&& seg.segment_index == u32_at(bytes@, 4)
                &&& seg.segment_path@ == path@
                &&& seg.lsn_range == (u64_at(bytes@, 8), u64_at(bytes@, 16))
                &&& seg.block_count == u64_at(bytes@, 24)
                &&& seg.checksum == 0
                &&& seg.size == size->Ok_0
            },
        },
{
    let b = bytes;
    if b.len() < 4 {
        return Err(short_read_error("segment magic"));
    }
    if b[0] != 83u8 || b[1] != 71u8 || b[2] != 77u8 || b[3] != 84u8 {
        let magic: [u8; 4] = [83u8, 71u8, 77u8, 84u8];
        let found: [u8; 4] = [b[0], b[1], b[2], b[3]];
        proof {
            assert(magic@ =~= segment_magic());
            assert(found@ =~= b@.subrange(0, 4));
            assert(b@.subrange(0, 4) != segment_magic()) by {
                if b@.subrange(0, 4) == segment_magic() {
                    assert(b@.subrange(0, 4)[0] == b@[0]);
                    assert(b@.subrange(0, 4)[1] == b@[1]);
                    assert(b@.subrange(0, 4)[2] == b@[2]);
                    assert(b@.subrange(0, 4)[3] == b@[3]);
                }
            }
        }
        let mut m = String::from_str("Invalid segment magic in ");
        m.append(path);
        m.append(": expected ");
        push_byte_list(&mut m, magic.as_slice());
        m.append(", found ");
        push_byte_list(&mut m, found.as_slice());
        return Err(CheckpointError::corruption(m.as_str()));
    }
    proof {
        assert(b@.subrange(0, 4) =~= segment_magic());
    }
    if b.len() < 8 {
        return Err(short_read_error("segment index"));
    }
    let segment_index = read_u32_le(b, 4);
    if b.len() < 16 {
        return Err(short_read_error("LSN start"));
    }
    let lsn_start = read_u64_le(b, 8);
    if b.len() < 24 {
        return Err(short_read_error("LSN end"));
    }
    let lsn_end = read_u64_le(b, 16);
    if b.len() < 32 {
        return Err(short_read_error("block count"));
    }
    let block_count = read_u64_le(b, 24);
    let n = match size {
        Ok(n) => *n,
        Err(t) => {
            let mut m = String::from_str("Failed to get segment metadata: ");
            m.append(t.as_str());
            return Err(CheckpointError::io(m.as_str()));
        },
    };
    Ok(CheckpointSegment {
        segment_index,
        segment_path: String::from_str(path),
        lsn_range: (lsn_start, lsn_end),
        block_count,
        checksum: 0,
        size: n,
    })
}

/// A finished segment header reads back as the segment it describes, whatever follows it.
pub proof fn lemma_segment_header_roundtrip(
    index: u32,
    lsn_start: u64,
    lsn_end: u64,
    block_count: u64,
    rest: Seq<u8>,
    path: Seq<char>,
    size: u64,
)
    ensures
        ({
            let b = segment_header_bytes(index, lsn_start, lsn_end, block_count) + rest;
            &&& segment_read_fault(b, path, Ok(size)) is None
            &&& u32_at(b, 4) == index
            &&& u64_at(b, 8) == lsn_start
            &&& u64_at(b, 16) == lsn_end
            &&& u64_at(b, 24) == block_count
        }),
{
    let b = segment_header_bytes(index, lsn_start, lsn_end, block_count) + rest;
    let h0 = segment_magic();
    let h1 = le_u32(index);
    let h2 = le_u64(lsn_start);
    let h3 = le_u64(lsn_end);
    let h4 = le_u64(block_count);
    assert(b =~= h0 + h1 + (h2 + h3 + h4 + rest));
    lemma_u32_in(h0, index, h2 + h3 + h4 + rest);
    assert(b =~= (h0 + h1) + h2 + (h3 + h4 + rest));
    lemma_u64_in(h0 + h1, lsn_start, h3 + h4 + rest);
    assert(b =~= (h0 + h1 + h2) + h3 + (h4 + rest));
    lemma_u64_in(h0 + h1 + h2, lsn_end, h4 + rest);
    assert(b =~= (h0 + h1 + h2 + h3) + h4 + rest);
    lemma_u64_in(h0 + h1 + h2 + h3, block_count, rest);
    assert(b.subrange(0, 4) =~= segment_magic());
}

/// What the caller found of a segment file.
pub enum SegmentProbe {
    /// The file does not exist.
    Missing,
    /// The file exists but could not be opened, for this reason.
    Unopenable(String),
    /// The file was opened: its first bytes (up to 28), and its size or why the size could
    /// not be read.
    Opened { header: Vec<u8>, size: Result<u64, String> },
}

/// Why the segment file at `path`, as probed, does not hold a readable segment, if it does not.
pub open spec fn probe_fault(p: SegmentProbe, path: Seq<char>) -> Option<(CheckpointErrorKind, Seq<char>)> {
    match p {
        SegmentProbe::Missing => Some((
            CheckpointErrorKind::Corruption,
            "Segment file "@ + path + " missing for checkpoint"@,
        )),
        SegmentProbe::Unopenable(t) => Some((
            CheckpointErrorKind::Io,
            "Failed to open segment file "@ + path + ": "@ + t@,
        )),
        SegmentProbe::Opened { header, size } => segment_read_fault(header@, path, size),
    }
}

/// The fault of the first segment, from position `i` on, whose file does not hold a readable
/// segment; a segment with no probe counts as missing.
pub open spec fn probes_fault_from(
    s: Seq<CheckpointSegmentMeta>,
    base: Seq<char>,
    probes: Seq<SegmentProbe>,
    i: nat,
) -> Option<(CheckpointErrorKind, Seq<char>)>
    decreases s.len() - i,
{
    if i >= s.len() {
        None
    } else {
        let p = if i < probes.len() { probes[i as int] } else { SegmentProbe::Missing };
        match probe_fault(p, segment_path_of(base, s[i as int].index)) {
            Some(f) => Some(f),
            None => probes_fault_from(s, base, probes, i + 1),
        }
    }
}

/// Why a checkpoint fails validation, if it does: an inconsistent manifest, or else the first
/// segment whose file is missing or unreadable.
pub open spec fn checkpoint_fault(m: CheckpointManifest, base: Seq<char>, probes: Seq<SegmentProbe>) -> Option<
    (CheckpointErrorKind, Seq<char>),
> {
    match manifest_fault(m) {
        Some(msg) => Some((CheckpointErrorKind::Corruption, msg)),
        None => probes_fault_from(m.segments@, base, probes, 0),
    }
}

/// Recovery of checkpoints split over several files.
pub struct MultiFileRecovery;

impl MultiFileRecovery {
    /// Validates the checkpoint of `manifest` based at `base_path`, with `probes[i]` what was
    /// found of the file of segment `i`: the manifest must be consistent and every segment
    /// file must exist and start with a readable header.
    pub fn validate_checkpoint(
        manifest: &CheckpointManifest,
        base_path: &str,
        probes: &Vec<SegmentProbe>,
    ) -> (r: CheckpointResult<bool>)
        ensures
            match checkpoint_fault(*manifest, base_path@, probes@) {
                None => r matches Ok(b) && b,
                Some((k, m)) => r matches Err(e) && made_by(e, k, m),
            },
    {
        manifest.validate()?;
        let ghost s = manifest.segments@;
        let mut i: usize = 0;
        while i < manifest.segments.len()
            invariant
                0 <= i <= s.len(),
                s == manifest.segments@,
                manifest_fault(*manifest) is None,
                checkpoint_fault(*manifest, base_path@, probes@) == probes_fault_from(s, base_path@, probes@, i as nat),
            decreases s.len() - i,
        {
            let path = segment_file_path(base_path, manifest.segments[i].index);
            if i >= probes.len() {
                let mut m = String::from_str("Segment file ");
                m.append(path.as_str());
                m.append(" missing for checkpoint");
                return Err(CheckpointError::corruption(m.as_str()));
            }
            match &probes[i] {
                SegmentProbe::Missing => {
                    let mut m = String::from_str("Segment file ");
                    m.append(path.as_str());
                    m.append(" missing for checkpoint");
                    return Err(CheckpointError::corruption(m.as_str()));
                },
                SegmentProbe::Unopenable(t) => {
                    let mut m = String::from_str("Failed to open segment file ");
                    m.append(path.as_str());
                    m.append(": ");
                    m.append(t.as_str());
                    return Err(CheckpointError::io(m.as_str()));
                },
                SegmentProbe::Opened { header, size } => {
                    decode_segment_header(header.as_slice(), path.as_str(), size)?;
                },
            }
            i = i + 1;
        }
        Ok(true)
    }
}

} // verus!
