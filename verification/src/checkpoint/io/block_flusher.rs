//! Checks that dirty blocks can be flushed to the V2 graph file.
//!
//! Flushing needs the graph file open and its size; the caller opens it, hands over what
//! it observed, and flushes the file when the check succeeds.
use vstd::prelude::*;
use crate::checkpoint::constants::v2::V2_GRAPH_BLOCK_SIZE;
use crate::checkpoint::errors::{made_by, CheckpointError, CheckpointErrorKind, CheckpointResult};
use crate::seqs::{sort_ascending, sorted};
use crate::text::{decimal, push_decimal};

verus! {

broadcast use vstd::seq_lib::group_to_multiset_ensures;

/// What the caller observed of the graph file before a flush.
pub enum GraphFileProbe {
    /// The file could not be opened, for this reason.
    OpenFailed(String),
    /// The file was opened but its size could not be read, for this reason.
    SizeFailed(String),
    /// The file was opened and holds this many bytes.
    Size(u64),
}

/// Flushes dirty blocks to one V2 graph file.
pub struct BlockFlusher {
    v2_graph_path: String,
}

/// The message of a block offset that is not a multiple of the block size.
pub open spec fn misaligned_text(block_offset: u64) -> Seq<char> {
    "Block offset "@ + decimal(block_offset as nat) + " not aligned to V2 block size "@ + decimal(4096)
}

/// The message of a block that does not fit in a file of `file_size` bytes.
pub open spec fn beyond_text(block_offset: u64, file_size: u64) -> Seq<char> {
    "Block offset "@ + decimal(block_offset as nat) + " exceeds V2 graph file size "@ + decimal(file_size as nat)
}

/// Why the block at `o` cannot be flushed to a file of `size` bytes, if it cannot.
pub open spec fn block_fault(o: u64, size: u64) -> Option<Seq<char>> {
    if o % 4096 != 0 {
        Some(misaligned_text(o))
    } else if o + 4096 > size {
        Some(beyond_text(o, size))
    } else {
        None
    }
}

/// Why a graph file, as probed, cannot be used for flushing, if it cannot; `batch` tells
/// which operation asks.
pub open spec fn probe_fault(probe: GraphFileProbe, batch: bool) -> Option<(CheckpointErrorKind, Seq<char>)> {
    match probe {
        GraphFileProbe::OpenFailed(t) => Some((
            CheckpointErrorKind::V2Integration,
            if batch {
                "Failed to open V2 graph file for batch block flushing: "@ + t@
            } else {
                "Failed to open V2 graph file for block flushing: "@ + t@
            },
        )),
        GraphFileProbe::SizeFailed(t) => Some((
            CheckpointErrorKind::V2Integration,
            "Failed to get V2 graph file size: "@ + t@,
        )),
        GraphFileProbe::Size(_) => None,
    }
}

/// The fault of the first block of `s`, from position `i` on, that cannot be flushed.
pub open spec fn blocks_fault_from(s: Seq<u64>, size: u64, i: nat) -> Option<Seq<char>>
    decreases s.len() - i,
{
    if i >= s.len() {
        None
    } else if block_fault(s[i as int], size) is Some {
        block_fault(s[i as int], size)
    } else {
        blocks_fault_from(s, size, i + 1)
    }
}

fn block_error(block_offset: u64, file_size: u64) -> (r: Option<CheckpointError>)
    ensures
        match block_fault(block_offset, file_size) {
            None => r is None,
            Some(m) => r matches Some(e) && made_by(e, CheckpointErrorKind::Validation, m),
        },
{
    if block_offset % V2_GRAPH_BLOCK_SIZE != 0 {
        let mut m = String::from_str("Block offset ");
        push_decimal(&mut m, block_offset);
        m.append(" not aligned to V2 block size ");
        push_decimal(&mut m, V2_GRAPH_BLOCK_SIZE);
        return Some(CheckpointError::validation(m.as_str()));
    }
    if block_offset > u64::MAX - V2_GRAPH_BLOCK_SIZE || block_offset + V2_GRAPH_BLOCK_SIZE > file_size {
        let mut m = String::from_str("Block offset ");
        push_decimal(&mut m, block_offset);
        m.append(" exceeds V2 graph file size ");
        push_decimal(&mut m, file_size);
        return Some(CheckpointError::validation(m.as_str()));
    }
    None
}

fn probe_error(probe: &GraphFileProbe, batch: bool) -> (r: Result<u64, CheckpointError>)
    ensures
        match probe_fault(*probe, batch) {
            None => r == Ok::<u64, CheckpointError>(probe->Size_0),
            Some((k, m)) => r matches Err(e) && made_by(e, k, m),
        },
{
    match probe {
        GraphFileProbe::OpenFailed(t) => {
            let mut m = if batch {
                String::from_str("Failed to open V2 graph file for batch block flushing: ")
            } else {
                String::from_str("Failed to open V2 graph file for block flushing: ")
            };
            m.append(t.as_str());
            Err(CheckpointError::v2_integration(m.as_str()))
        },
        GraphFileProbe::SizeFailed(t) => {
            let mut m = String::from_str("Failed to get V2 graph file size: ");
            m.append(t.as_str());
            Err(CheckpointError::v2_integration(m.as_str()))
        },
        GraphFileProbe::Size(n) => Ok(*n),
    }
}

impl BlockFlusher {
    /// A flusher for the graph file at `v2_graph_path`.
    pub fn new(v2_graph_path: String) -> (f: Self)
        ensures
            f.path() == v2_graph_path@,
    {
        BlockFlusher { v2_graph_path }
    }

    /// The path of the graph file.
    pub closed spec fn path(&self) -> Seq<char> {
        self.v2_graph_path@
    }

    /// The path of the graph file.
    pub fn v2_graph_path(&self) -> (p: &str)
        ensures
            p@ == self.path(),
    {
        self.v2_graph_path.as_str()
    }

    /// Decides whether the block at `block_offset` can be flushed to the graph file as
    /// observed in `probe`: the offset must be a multiple of the 4096-byte block size, the
    /// file must have been opened and sized, and the whole block must lie within it. The
    /// caller flushes the file when this succeeds.
    pub fn flush_dirty_block(&self, block_offset: u64, probe: &GraphFileProbe) -> (r: CheckpointResult<()>)
        ensures
            block_offset % 4096 != 0 ==> (r matches Err(e)
                && made_by(e, CheckpointErrorKind::Validation, misaligned_text(block_offset))),
            block_offset % 4096 == 0 ==> match probe_fault(*probe, false) {
                Some((k, m)) => r matches Err(e) && made_by(e, k, m),
                None => match block_fault(block_offset, probe->Size_0) {
                    None => r is Ok,
                    Some(m) => r matches Err(e) && made_by(e, CheckpointErrorKind::Validation, m),
                },
            },
    {
        if block_offset % V2_GRAPH_BLOCK_SIZE != 0 {
            let mut m = String::from_str("Block offset ");
            push_decimal(&mut m, block_offset);
            m.append(" not aligned to V2 block size ");
            push_decimal(&mut m, V2_GRAPH_BLOCK_SIZE);
            return Err(CheckpointError::validation(m.as_str()));
        }
        let file_size = probe_error(probe, false)?;
        match block_error(block_offset, file_size) {
            Some(e) => Err(e),
            None => Ok(()),
        }
    }

    /// Decides whether all blocks at `block_offsets` can be flushed to the graph file as
    /// observed in `probe`: the file must have been opened and sized, and then each block,
    /// taken in ascending order of offset, must be aligned and lie within the file; the
    /// first that does not is reported. The caller flushes the file when this succeeds.
    pub fn flush_dirty_blocks(&self, block_offsets: &[u64], probe: &GraphFileProbe) -> (r: CheckpointResult<()>)
        ensures
            match probe_fault(*probe, true) {
                Some((k, m)) => r matches Err(e) && made_by(e, k, m),
                None => exists|order: Seq<u64>| {
                    &&& sorted(order)
                    &&& order.to_multiset() == block_offsets@.to_multiset()
                    &&& match blocks_fault_from(order, probe->Size_0, 0) {
                        None => r is Ok,
                        Some(m) => r matches Err(e) && made_by(e, CheckpointErrorKind::Validation, m),
                    }
                },
            },
    {
        let mut copy: Vec<u64> = Vec::new();
        let mut k: usize = 0;
        while k < block_offsets.len()
            invariant
                0 <= k <= block_offsets@.len(),
                copy@ == block_offsets@.subrange(0, k as int),
            decreases block_offsets@.len() - k,
        {
            copy.push(block_offsets[k]);
            proof {
                assert(block_offsets@.subrange(0, k as int + 1) =~= block_offsets@.subrange(0, k as int).push(block_offsets@[k as int]));
            }
            k = k + 1;
        }
        proof {
            assert(block_offsets@.subrange(0, block_offsets@.len() as int) =~= block_offsets@);
        }
        let order = sort_ascending(&copy);
        let file_size = probe_error(probe, true)?;
        let ghost s = order@;
        let mut i: usize = 0;
        while i < order.len()
            invariant
                0 <= i <= s.len(),
                s == order@,
                sorted(s),
                s.to_multiset() == block_offsets@.to_multiset(),
                probe_fault(*probe, true) is None,
                file_size == probe->Size_0,
                blocks_fault_from(s, file_size, 0) == blocks_fault_from(s, file_size, i as nat),
            decreases s.len() - i,
        {
            match block_error(order[i], file_size) {
                Some(e) => {
                    let r: CheckpointResult<()> = Err(e);
                    assert(match blocks_fault_from(s, file_size, 0) {
                        None => r is Ok,
                        Some(m) => r matches Err(e) && made_by(e, CheckpointErrorKind::Validation, m),
                    });
                    return r;
                },
                None => {},
            }
            i = i + 1;
        }
        let r: CheckpointResult<()> = Ok(());
        assert(match blocks_fault_from(s, file_size, 0) {
            None => r is Ok,
            Some(m) => r matches Err(e) && made_by(e, CheckpointErrorKind::Validation, m),
        });
        r
    }
}

} // verus!
