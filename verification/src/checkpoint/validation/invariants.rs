//! V2 format invariants of checkpoint files: the V2 metadata section, the file's magic,
//! version and size, and the classification of invariant violations.
//!
//! The checks work on the bytes of the checkpoint file as read by the caller.
use vstd::prelude::*;
use crate::bytes::{le_u32, le_u64, lemma_u32_in, lemma_u64_in, read_u32_le, read_u64_le, u32_at, u64_at};
use crate::checkpoint::constants::MIN_CHECKPOINT_SIZE;
use crate::checkpoint::errors::{made_by, system_now, CheckpointError, CheckpointErrorKind, CheckpointResult};
use crate::checkpoint::io::checkpoint_writer::{checkpoint_magic, header_bytes};
use crate::checkpoint::tracking::{CheckpointManagerState, CheckpointState, DirtyBlockTracker};
use crate::config::V2WALConfig;
use crate::text::{byte_list_text, decimal, push_byte_list, push_decimal};

verus! {

/// Kind of V2 invariant violation.
#[derive(Debug, Clone, Copy, PartialEq, Eq, Structural)]
pub enum V2InvariantViolationType {
    InvalidV2Version,
    V2BlockSizeMismatch,
    V2ClusterAlignmentMismatch,
    V2MetadataCorruption,
    ClusterBoundaryViolation,
    BlockAlignmentViolation,
    V2StringTableViolation,
    V2FreeSpaceViolation,
    ClusteredEdgeFormatViolation,
    NodeRecordVersionMismatch,
}

/// How serious a V2 invariant violation is.
#[derive(Debug, Clone, Copy, PartialEq, Eq, PartialOrd, Ord, Structural)]
pub enum V2InvariantSeverity {
    Info,
    Warning,
    Error,
    Critical,
}

/// One V2 invariant violation.
#[derive(Debug, Clone)]
pub struct V2InvariantViolation {
    /// Kind of violation.
    pub violation_type: V2InvariantViolationType,
    /// What is wrong.
    pub description: String,
    /// The value expected, if stated.
    pub expected: Option<String>,
    /// The value found, if stated.
    pub actual: Option<String>,
    /// Whether the violation is critical.
    pub critical: bool,
}

/// The text inside an optional string.
pub open spec fn opt_text(o: Option<String>) -> Option<Seq<char>> {
    match o {
        Some(s) => Some(s@),
        None => None,
    }
}

/// A violation as plain values: kind, description, expected, actual, critical.
pub open spec fn invariant_view(v: V2InvariantViolation) -> (
    V2InvariantViolationType,
    Seq<char>,
    Option<Seq<char>>,
    Option<Seq<char>>,
    bool,
) {
    (v.violation_type, v.description@, opt_text(v.expected), opt_text(v.actual), v.critical)
}

/// Violations as plain values.
pub open spec fn invariants_view(s: Seq<V2InvariantViolation>) -> Seq<
    (V2InvariantViolationType, Seq<char>, Option<Seq<char>>, Option<Seq<char>>, bool),
> {
    s.map_values(|v: V2InvariantViolation| invariant_view(v))
}

/// Whether no violation is critical.
pub open spec fn none_critical(
    s: Seq<(V2InvariantViolationType, Seq<char>, Option<Seq<char>>, Option<Seq<char>>, bool)>,
) -> bool {
    forall|i: int| 0 <= i < s.len() ==> !(#[trigger] s[i]).4
}

/// The outcome of a V2 invariant check.
#[derive(Debug)]
pub struct V2InvariantResult {
    /// Whether no violation is critical.
    pub invariants_held: bool,
    /// The violations found.
    pub violations: Vec<V2InvariantViolation>,
    /// When the check ran.
    pub validation_timestamp: std::time::SystemTime,
    /// The V2 metadata version read, if any.
    pub v2_version: Option<u32>,
}

fn no_critical(violations: &Vec<V2InvariantViolation>) -> (b: bool)
    ensures
        b == none_critical(invariants_view(violations@)),
{
    let ghost v = invariants_view(violations@);
    let mut i: usize = 0;
    while i < violations.len()
        invariant
            0 <= i <= violations@.len(),
            v == invariants_view(violations@),
            forall|k: int| 0 <= k < i ==> !(#[trigger] v[k]).4,
        decreases violations@.len() - i,
    {
        if violations[i].critical {
            assert(v[i as int].4);
            return false;
        }
        i = i + 1;
    }
    true
}

fn critical_violation(
    violation_type: V2InvariantViolationType,
    description: String,
    expected: String,
    actual: String,
) -> (v: V2InvariantViolation)
    ensures
        invariant_view(v) == (violation_type, description@, Some(expected@), Some(actual@), true),
{
    V2InvariantViolation { violation_type, description, expected: Some(expected), actual: Some(actual), critical: true }
}

fn number_text(n: u64) -> (s: String)
    ensures
        s@ == decimal(n as nat),
{
    let mut s = String::new();
    push_decimal(&mut s, n);
    assert(s@ =~= decimal(n as nat));
    s
}

fn described(prefix: &str, n: u64, suffix: &str) -> (s: String)
    ensures
        s@ == prefix@ + decimal(n as nat) + suffix@,
{
    let mut s = String::from_str(prefix);
    push_decimal(&mut s, n);
    s.append(suffix);
    s
}

/// Offset in a checkpoint file where the V2 metadata is read from.
pub const V2_METADATA_READ_OFFSET: usize = 40;

/// Why the checkpoint file, as read, cannot have its V2 metadata checked, if it cannot.
pub open spec fn metadata_read_fault(file: Result<Vec<u8>, String>) -> Option<Seq<char>> {
    match file {
        Err(t) => Some("Failed to open checkpoint file: "@ + t@),
        Ok(b) => if b@.len() < 44 {
            Some("Failed to read V2 version: failed to fill whole buffer"@)
        } else if b@.len() < 52 {
            Some("Failed to read V2 block size: failed to fill whole buffer"@)
        } else if b@.len() < 60 {
            Some("Failed to read V2 cluster alignment: failed to fill whole buffer"@)
        } else {
            None
        },
    }
}

/// The violations of V2 metadata reading `version`, `block_size` and `alignment`.
pub open spec fn metadata_violations(version: u32, block_size: u64, alignment: u64) -> Seq<
    (V2InvariantViolationType, Seq<char>, Option<Seq<char>>, Option<Seq<char>>, bool),
> {
    (if version != 2 {
        seq![(
            V2InvariantViolationType::InvalidV2Version,
            "Unsupported V2 checkpoint version: "@ + decimal(version as nat) + " (expected: 2)"@,
            Some("2"@),
            Some(decimal(version as nat)),
            true,
        )]
    } else {
        Seq::empty()
    }) + (if block_size != 4096 {
        seq![(
            V2InvariantViolationType::V2BlockSizeMismatch,
            "Invalid V2 block size: "@ + decimal(block_size as nat) + " (expected: 4096)"@,
            Some("4096"@),
            Some(decimal(block_size as nat)),
            true,
        )]
    } else {
        Seq::empty()
    }) + (if alignment != 65536 {
        seq![(
            V2InvariantViolationType::V2ClusterAlignmentMismatch,
            "Invalid V2 cluster alignment: "@ + decimal(alignment as nat) + " (expected: 65536)"@,
            Some("65536"@),
            Some(decimal(alignment as nat)),
            true,
        )]
    } else {
        Seq::empty()
    })
}

/// Why the checkpoint file, as read, cannot have its format checked, if it cannot: the file
/// could not be opened, its magic or version is cut short, or its size could not be read.
pub open spec fn format_read_fault(file: Result<Vec<u8>, String>, len: Result<u64, String>) -> Option<Seq<char>> {
    match file {
        Err(t) => Some("Failed to open checkpoint file: "@ + t@),
        Ok(b) => if b@.len() < 4 {
            Some("Failed to read checkpoint magic: failed to fill whole buffer"@)
        } else if b@.len() < 8 {
            Some("Failed to read checkpoint version: failed to fill whole buffer"@)
        } else {
            match len {
                Err(t) => Some("Failed to read checkpoint metadata: "@ + t@),
                Ok(_) => None,
            }
        },
    }
}

/// The format violations of a checkpoint file starting with `b` and `len` bytes long.
pub open spec fn format_violations(b: Seq<u8>, len: u64) -> Seq<
    (V2InvariantViolationType, Seq<char>, Option<Seq<char>>, Option<Seq<char>>, bool),
> {
    (if b.subrange(0, 4) != checkpoint_magic() {
        seq![(
            V2InvariantViolationType::V2MetadataCorruption,
            "Invalid checkpoint magic number"@,
            Some(byte_list_text(checkpoint_magic())),
            Some(byte_list_text(b.subrange(0, 4))),
            true,
        )]
    } else {
        Seq::empty()
    }) + (if u32_at(b, 4) != 1 {
        seq![(
            V2InvariantViolationType::NodeRecordVersionMismatch,
            "Unsupported checkpoint version: "@ + decimal(u32_at(b, 4) as nat),
            Some("1"@),
            Some(decimal(u32_at(b, 4) as nat)),
            true,
        )]
    } else {
        Seq::empty()
    }) + (if len < MIN_CHECKPOINT_SIZE {
        seq![(
            V2InvariantViolationType::V2MetadataCorruption,
            "Checkpoint file too small for V2 format: "@ + decimal(len as nat) + " bytes (minimum: 1024)"@,
            Some(">= 1024 bytes"@),
            Some(decimal(len as nat) + " bytes"@),
            true,
        )]
    } else {
        Seq::empty()
    })
}

/// Checks V2 invariants of checkpoints.
pub struct V2InvariantValidator {
    config: V2WALConfig,
}

impl V2InvariantValidator {
    /// A validator for the log of `config`.
    pub fn new(config: V2WALConfig) -> (v: Self)
        ensures
            v.config() == config,
    {
        V2InvariantValidator { config }
    }

    /// The configuration of the log.
    pub closed spec fn config(&self) -> V2WALConfig {
        self.config
    }

    /// Checks the V2 metadata of the checkpoint file whose contents are `file` (or the
    /// reason it could not be opened): the version, block size and cluster alignment follow
    /// the header's block count, at offsets 40, 44 and 52, and must be 2, 4096 and 65536.
    pub fn validate_v2_metadata(&self, file: &Result<Vec<u8>, String>) -> (r: CheckpointResult<V2InvariantResult>)
        ensures
            match metadata_read_fault(*file) {
                Some(m) => r matches Err(e) && made_by(e, CheckpointErrorKind::Validation, m),
                None => r matches Ok(res) && {
                    let b = file->Ok_0@;
                    &&& invariants_view(res.violations@) == metadata_violations(
                        u32_at(b, 40),
                        u64_at(b, 44),
                        u64_at(b, 52),
                    )
                    &&& res.invariants_held == none_critical(invariants_view(res.violations@))
                    &&& res.v2_version == Some(u32_at(b, 40))
                },
            },
    {
        let start_time = system_now();
        let b = match file {
            Err(t) => {
                let mut m = String::from_str("Failed to open checkpoint file: ");
                m.append(t.as_str());
                return Err(CheckpointError::validation(m.as_str()));
            },
            Ok(b) => b,
        };
        if b.len() < 44 {
            return Err(CheckpointError::validation("Failed to read V2 version: failed to fill whole buffer"));
        }
        let version = read_u32_le(b.as_slice(), 40);
        let mut violations: Vec<V2InvariantViolation> = Vec::new();
        if version != 2 {
            violations.push(critical_violation(
                V2InvariantViolationType::InvalidV2Version,
                described("Unsupported V2 checkpoint version: ", version as u64, " (expected: 2)"),
                String::from_str("2"),
                number_text(version as u64),
            ));
        }
        if b.len() < 52 {
            return Err(CheckpointError::validation("Failed to read V2 block size: failed to fill whole buffer"));
        }
        let block_size = read_u64_le(b.as_slice(), 44);
        if block_size != 4096 {
            violations.push(critical_violation(
                V2InvariantViolationType::V2BlockSizeMismatch,
                described("Invalid V2 block size: ", block_size, " (expected: 4096)"),
                String::from_str("4096"),
                number_text(block_size),
            ));
        }
        if b.len() < 60 {
            return Err(CheckpointError::validation("Failed to read V2 cluster alignment: failed to fill whole buffer"));
        }
        let alignment = read_u64_le(b.as_slice(), 52);
        if alignment != 65536 {
            violations.push(critical_violation(
                V2InvariantViolationType::V2ClusterAlignmentMismatch,
                described("Invalid V2 cluster alignment: ", alignment, " (expected: 65536)"),
                String::from_str("65536"),
                number_text(alignment),
            ));
        }
        assert(invariants_view(violations@) =~= metadata_violations(version, block_size, alignment));
        let invariants_held = no_critical(&violations);
        Ok(V2InvariantResult { invariants_held, violations, validation_timestamp: start_time, v2_version: Some(version) })
    }

    /// Checks the cluster alignment of dirty blocks: no check is made, so no violations.
    pub fn validate_cluster_alignment_invariants(&self, dirty_blocks: &DirtyBlockTracker) -> (r: CheckpointResult<
        V2InvariantResult,
    >)
        ensures
            r matches Ok(res) && res.invariants_held && res.violations@.len() == 0 && res.v2_version is None,
    {
        let start_time = system_now();
        Ok(V2InvariantResult {
            invariants_held: true,
            violations: Vec::new(),
            validation_timestamp: start_time,
            v2_version: None,
        })
    }

    /// Checks the checkpoint state machine: no check is made, so no violations.
    pub fn validate_checkpoint_state_invariants(
        &self,
        state: &CheckpointState,
        manager_state: &CheckpointManagerState,
    ) -> (r: CheckpointResult<V2InvariantResult>)
        ensures
            r matches Ok(res) && res.invariants_held && res.violations@.len() == 0 && res.v2_version is None,
    {
        let start_time = system_now();
        Ok(V2InvariantResult {
            invariants_held: true,
            violations: Vec::new(),
            validation_timestamp: start_time,
            v2_version: None,
        })
    }

    /// Checks the format of the checkpoint file whose first bytes are `file` (or the reason it
    /// could not be opened) and whose size is `len`: the magic must be "CKPT", the version 1
    /// and the size at least the minimum checkpoint size.
    pub fn validate_v2_format_compatibility(
        &self,
        file: &Result<Vec<u8>, String>,
        len: &Result<u64, String>,
    ) -> (r: CheckpointResult<V2InvariantResult>)
        ensures
            match format_read_fault(*file, *len) {
                Some(m) => r matches Err(e) && made_by(e, CheckpointErrorKind::Validation, m),
                None => r matches Ok(res) && {
                    let b = file->Ok_0@;
                    &&& invariants_view(res.violations@) == format_violations(b, len->Ok_0)
                    &&& res.invariants_held == none_critical(invariants_view(res.violations@))
                    &&& res.v2_version == Some(u32_at(b, 4))
                },
            },
    {
        proof { reveal_strlit(""); }
        let start_time = system_now();
        let b = match file {
            Err(t) => {
                let mut m = String::from_str("Failed to open checkpoint file: ");
                m.append(t.as_str());
                return Err(CheckpointError::validation(m.as_str()));
            },
            Ok(b) => b,
        };
        if b.len() < 4 {
            return Err(CheckpointError::validation("Failed to read checkpoint magic: failed to fill whole buffer"));
        }
        let mut violations: Vec<V2InvariantViolation> = Vec::new();
        let magic: [u8; 4] = [67u8, 75u8, 80u8, 84u8];
        let found: [u8; 4] = [b[0], b[1], b[2], b[3]];
        proof {
            assert(magic@ =~= checkpoint_magic());
            assert(found@ =~= b@.subrange(0, 4));
        }
        if b[0] != 67u8 || b[1] != 75u8 || b[2] != 80u8 || b[3] != 84u8 {
            proof {
                assert(b@.subrange(0, 4) != checkpoint_magic()) by {
                    if b@.subrange(0, 4) == checkpoint_magic() {
                        assert(b@.subrange(0, 4)[0] == b@[0]);
                        assert(b@.subrange(0, 4)[1] == b@[1]);
                        assert(b@.subrange(0, 4)[2] == b@[2]);
                        assert(b@.subrange(0, 4)[3] == b@[3]);
                    }
                }
            }
            let mut expected = String::new();
            push_byte_list(&mut expected, magic.as_slice());
            let mut actual = String::new();
            push_byte_list(&mut actual, found.as_slice());
            violations.push(critical_violation(
                V2InvariantViolationType::V2MetadataCorruption,
                String::from_str("Invalid checkpoint magic number"),
                expected,
                actual,
            ));
        } else {
            assert(b@.subrange(0, 4) =~= checkpoint_magic());
        }
        if b.len() < 8 {
            return Err(CheckpointError::validation("Failed to read checkpoint version: failed to fill whole buffer"));
        }
        let version = read_u32_le(b.as_slice(), 4);
        if version != 1 {
            violations.push(critical_violation(
                V2InvariantViolationType::NodeRecordVersionMismatch,
                described("Unsupported checkpoint version: ", version as u64, ""),
                String::from_str("1"),
                number_text(version as u64),
            ));
        }
        let n = match len {
            Err(t) => {
                let mut m = String::from_str("Failed to read checkpoint metadata: ");
                m.append(t.as_str());
                return Err(CheckpointError::validation(m.as_str()));
            },
            Ok(n) => *n,
        };
        if n < MIN_CHECKPOINT_SIZE {
            violations.push(critical_violation(
                V2InvariantViolationType::V2MetadataCorruption,
                described("Checkpoint file too small for V2 format: ", n, " bytes (minimum: 1024)"),
                String::from_str(">= 1024 bytes"),
                described("", n, " bytes"),
            ));
        }
        assert(invariants_view(violations@) =~= format_violations(b@, n));
        let invariants_held = no_critical(&violations);
        Ok(V2InvariantResult { invariants_held, violations, validation_timestamp: start_time, v2_version: Some(version) })
    }

    /// Checks invariants of the graph file at `graph_file_path`: no check is made, so no
    /// violations.
    pub fn validate_v2_graph_file_invariants(&self, graph_file_path: &str) -> (r: CheckpointResult<V2InvariantResult>)
        ensures
            r matches Ok(res) && res.invariants_held && res.violations@.len() == 0 && res.v2_version is None,
    {
        let start_time = system_now();
        Ok(V2InvariantResult {
            invariants_held: true,
            violations: Vec::new(),
            validation_timestamp: start_time,
            v2_version: None,
        })
    }

    /// Runs the metadata check, then the format check, on the checkpoint file whose contents
    /// are `file` and whose size is `len`; the alignment and state checks add nothing.
    pub fn validate_comprehensive_v2_invariants(
        &self,
        file: &Result<Vec<u8>, String>,
        len: &Result<u64, String>,
        dirty_blocks: &DirtyBlockTracker,
        checkpoint_state: &CheckpointState,
        manager_state: &CheckpointManagerState,
    ) -> (r: CheckpointResult<V2InvariantResult>)
        ensures
            metadata_read_fault(*file) matches Some(m) ==> (r matches Err(e)
                && made_by(e, CheckpointErrorKind::Validation, m)),
            metadata_read_fault(*file) is None ==> (format_read_fault(*file, *len) matches Some(m) ==> (r matches Err(
                e,
            ) && made_by(e, CheckpointErrorKind::Validation, m))),
            metadata_read_fault(*file) is None && format_read_fault(*file, *len) is None ==> (r matches Ok(res) && {
                let b = file->Ok_0@;
                &&& invariants_view(res.violations@) == metadata_violations(u32_at(b, 40), u64_at(b, 44), u64_at(b, 52))
                    + format_violations(b, len->Ok_0)
                &&& res.invariants_held == none_critical(invariants_view(res.violations@))
                &&& res.v2_version == Some(u32_at(b, 40))
            }),
    {
        let metadata = self.validate_v2_metadata(file)?;
        let v2_version = metadata.v2_version;
        let mut all = metadata.violations;
        let alignment = self.validate_cluster_alignment_invariants(dirty_blocks)?;
        let state = self.validate_checkpoint_state_invariants(checkpoint_state, manager_state)?;
        let mut format = self.validate_v2_format_compatibility(file, len)?;
        let ghost before = all@;
        let ghost added = format.violations@;
        all.append(&mut format.violations);
        assert(invariants_view(all@) =~= invariants_view(before) + invariants_view(added));
        let invariants_held = no_critical(&all);
        Ok(V2InvariantResult {
            invariants_held,
            violations: all,
            validation_timestamp: system_now(),
            v2_version,
        })
    }
}

/// Whether a violation counts as critical: it is marked critical, or its kind is a version,
/// block size, alignment, metadata or node record version problem.
pub open spec fn critical_kind(v: (V2InvariantViolationType, Seq<char>, Option<Seq<char>>, Option<Seq<char>>, bool)) -> bool {
    v.4 || match v.0 {
        V2InvariantViolationType::InvalidV2Version => true,
        V2InvariantViolationType::V2BlockSizeMismatch => true,
        V2InvariantViolationType::V2ClusterAlignmentMismatch => true,
        V2InvariantViolationType::V2MetadataCorruption => true,
        V2InvariantViolationType::NodeRecordVersionMismatch => true,
        _ => false,
    }
}

/// The severity of a violation: critical ones are critical; alignment, string table and
/// free space problems are warnings; the rest are errors.
pub open spec fn invariant_severity(v: (V2InvariantViolationType, Seq<char>, Option<Seq<char>>, Option<Seq<char>>, bool)) -> V2InvariantSeverity {
    if critical_kind(v) {
        V2InvariantSeverity::Critical
    } else {
        match v.0 {
            V2InvariantViolationType::BlockAlignmentViolation => V2InvariantSeverity::Warning,
            V2InvariantViolationType::V2StringTableViolation => V2InvariantSeverity::Warning,
            V2InvariantViolationType::V2FreeSpaceViolation => V2InvariantSeverity::Warning,
            _ => V2InvariantSeverity::Error,
        }
    }
}

/// Classification of V2 invariant violations.
pub struct V2InvariantUtils;

impl V2InvariantUtils {
    /// Whether `violation` counts as critical.
    pub fn is_critical_violation(violation: &V2InvariantViolation) -> (b: bool)
        ensures
            b == critical_kind(invariant_view(*violation)),
    {
        violation.critical || match violation.violation_type {
            V2InvariantViolationType::InvalidV2Version => true,
            V2InvariantViolationType::V2BlockSizeMismatch => true,
            V2InvariantViolationType::V2ClusterAlignmentMismatch => true,
            V2InvariantViolationType::V2MetadataCorruption => true,
            V2InvariantViolationType::NodeRecordVersionMismatch => true,
            _ => false,
        }
    }

    /// The severity of `violation`.
    pub fn get_violation_severity(violation: &V2InvariantViolation) -> (s: V2InvariantSeverity)
        ensures
            s == invariant_severity(invariant_view(*violation)),
    {
        if Self::is_critical_violation(violation) {
            V2InvariantSeverity::Critical
        } else {
            match violation.violation_type {
                V2InvariantViolationType::ClusterBoundaryViolation => V2InvariantSeverity::Error,
                V2InvariantViolationType::BlockAlignmentViolation => V2InvariantSeverity::Warning,
                V2InvariantViolationType::ClusteredEdgeFormatViolation => V2InvariantSeverity::Error,
                V2InvariantViolationType::V2StringTableViolation => V2InvariantSeverity::Warning,
                V2InvariantViolationType::V2FreeSpaceViolation => V2InvariantSeverity::Warning,
                _ => V2InvariantSeverity::Error,
            }
        }
    }
}


/// A checkpoint file that starts with a header written by the checkpoint writer, and is at
/// least the minimum checkpoint size long, passes the format check with no violation.
pub proof fn lemma_written_header_passes_format_check(
    lsn_range: (u64, u64),
    timestamp: u64,
    block_count: u64,
    rest: Seq<u8>,
    len: u64,
)
    requires
        len >= MIN_CHECKPOINT_SIZE,
    ensures
        format_violations(header_bytes(lsn_range, timestamp, block_count) + rest, len)
            == Seq::<(V2InvariantViolationType, Seq<char>, Option<Seq<char>>, Option<Seq<char>>, bool)>::empty(),
{
    let b = header_bytes(lsn_range, timestamp, block_count) + rest;
    let tail = le_u64(lsn_range.0) + le_u64(lsn_range.1) + le_u64(timestamp) + le_u64(block_count)
        + le_u32(2) + le_u64(4096) + le_u64(65536) + le_u32(20) + rest;
    assert(b =~= checkpoint_magic() + le_u32(1) + tail);
    lemma_u32_in(checkpoint_magic(), 1, tail);
    assert(b.subrange(0, 4) =~= checkpoint_magic());
    assert(format_violations(b, len) =~= Seq::<(V2InvariantViolationType, Seq<char>, Option<Seq<char>>, Option<Seq<char>>, bool)>::empty());
}

/// A checkpoint file that starts with a header written by the checkpoint writer passes the
/// V2 metadata check: it is long enough for the V2 block to be read, shows version 2 and
/// has no violation.
pub proof fn lemma_written_header_passes_metadata_check(
    lsn_range: (u64, u64),
    timestamp: u64,
    block_count: u64,
    rest: Seq<u8>,
)
    ensures
        ({
            let b = header_bytes(lsn_range, timestamp, block_count) + rest;
            &&& b.len() >= 60
            &&& u32_at(b, 40) == 2
            &&& metadata_violations(u32_at(b, 40), u64_at(b, 44), u64_at(b, 52))
                == Seq::<(V2InvariantViolationType, Seq<char>, Option<Seq<char>>, Option<Seq<char>>, bool)>::empty()
        }),
{
    let b = header_bytes(lsn_range, timestamp, block_count) + rest;
    let head = checkpoint_magic() + le_u32(1) + le_u64(lsn_range.0) + le_u64(lsn_range.1) + le_u64(timestamp)
        + le_u64(block_count);
    assert(head.len() == 40);
    let after_version = le_u64(4096) + le_u64(65536) + le_u32(20) + rest;
    assert(b =~= head + le_u32(2) + after_version);
    lemma_u32_in(head, 2, after_version);
    let head2 = head + le_u32(2);
    let after_size = le_u64(65536) + le_u32(20) + rest;
    assert(b =~= head2 + le_u64(4096) + after_size);
    lemma_u64_in(head2, 4096, after_size);
    let head3 = head2 + le_u64(4096);
    let after_align = le_u32(20) + rest;
    assert(b =~= head3 + le_u64(65536) + after_align);
    lemma_u64_in(head3, 65536, after_align);
    assert(metadata_violations(u32_at(b, 40), u64_at(b, 44), u64_at(b, 52))
        =~= Seq::<(V2InvariantViolationType, Seq<char>, Option<Seq<char>>, Option<Seq<char>>, bool)>::empty());
}

} // verus!
