//! The header of a V2 write-ahead-log file.
use vstd::prelude::*;
use crate::native_error::{NativeBackendError, NativeResult};
use crate::text::{byte_list_text, decimal, push_byte_list, push_decimal};

verus! {

/// Seconds since the Unix epoch by the system clock (`SystemTime::now` and
/// `duration_since(UNIX_EPOCH)`), or the reason they cannot be told when the clock reads
/// earlier than the epoch. What it returns depends on the clock, so nothing is stated of it.
#[verifier::external_body]
pub(crate) fn secs_since_epoch() -> (t: Result<u64, String>) {
    match std::time::SystemTime::now().duration_since(std::time::UNIX_EPOCH) {
        Ok(d) => Ok(d.as_secs()),
        Err(e) => Err(e.to_string()),
    }
}

/// Seconds since the Unix epoch by the system clock, or 0 when the clock reads earlier.
pub(crate) fn unix_time_secs() -> (t: u64) {
    match secs_since_epoch() {
        Ok(t) => t,
        Err(_) => 0,
    }
}

/// The magic bytes that open a V2 log file: "V2WAL" and three zero bytes.
pub open spec fn wal_magic() -> Seq<u8> {
    seq![86u8, 50u8, 87u8, 65u8, 76u8, 0u8, 0u8, 0u8]
}

/// Header of a V2 write-ahead-log file.
#[derive(Debug, Clone, Copy)]
pub struct V2WALHeader {
    /// Magic bytes identifying the format.
    pub magic: [u8; 8],
    /// Format version.
    pub version: u32,
    /// Creation time in seconds since the Unix epoch.
    pub created_at: u64,
    /// Current log sequence number.
    pub current_lsn: u64,
    /// Every record up to this LSN is durable.
    pub committed_lsn: u64,
    /// Every record up to this LSN is in the main file.
    pub checkpointed_lsn: u64,
    /// Number of active transactions.
    pub active_transactions: u32,
    /// Feature flags.
    pub flags: u32,
    /// Reserved words.
    pub reserved: [u64; 4],
}

/// Why a header fails validation, if it does: the first failing rule.
pub enum HeaderFault {
    BadMagic,
    BadVersion,
    ZeroCurrentLsn,
    CommittedAfterCurrent,
    CheckpointedAfterCommitted,
}

/// The first rule that `h` breaks, if any.
pub open spec fn header_fault(h: V2WALHeader) -> Option<HeaderFault> {
    if h.magic@ != wal_magic() {
        Some(HeaderFault::BadMagic)
    } else if h.version != 1 {
        Some(HeaderFault::BadVersion)
    } else if h.current_lsn == 0 {
        Some(HeaderFault::ZeroCurrentLsn)
    } else if h.committed_lsn > h.current_lsn {
        Some(HeaderFault::CommittedAfterCurrent)
    } else if h.checkpointed_lsn > h.committed_lsn {
        Some(HeaderFault::CheckpointedAfterCommitted)
    } else {
        None
    }
}

impl V2WALHeader {
    /// Magic bytes of the V2 log format.
    pub const MAGIC: [u8; 8] = [86, 50, 87, 65, 76, 0, 0, 0];

    /// Current format version.
    pub const VERSION: u32 = 1;

    /// Flag: compression enabled.
    pub const FLAG_COMPRESSION: u32 = 1;

    /// Flag: cluster-affinity logging enabled.
    pub const FLAG_CLUSTER_AFFINITY: u32 = 2;

    /// Flag: group commit enabled.
    pub const FLAG_GROUP_COMMIT: u32 = 4;

    /// A fresh header: current LSN 1, nothing committed or checkpointed, cluster affinity and
    /// group commit flags set, created now.
    pub fn new() -> (h: Self)
        ensures
            h.magic@ == wal_magic(),
            h.version == 1,
            h.current_lsn == 1,
            h.committed_lsn == 0,
            h.checkpointed_lsn == 0,
            h.active_transactions == 0,
            h.flags == 6,
            h.reserved@ == seq![0u64, 0u64, 0u64, 0u64],
            header_fault(h) is None,
    {
        let now = unix_time_secs();
        let h = V2WALHeader {
            magic: [86, 50, 87, 65, 76, 0, 0, 0],
            version: 1,
            created_at: now,
            current_lsn: 1,
            committed_lsn: 0,
            checkpointed_lsn: 0,
            active_transactions: 0,
            flags: 6,
            reserved: [0, 0, 0, 0],
        };
        assert(h.magic@ =~= wal_magic());
        assert(h.reserved@ =~= seq![0u64, 0u64, 0u64, 0u64]);
        h
    }

    fn magic_matches(&self) -> (b: bool)
        ensures
            b == (self.magic@ == wal_magic()),
    {
        let m = &self.magic;
        let b = m[0] == 86 && m[1] == 50 && m[2] == 87 && m[3] == 65 && m[4] == 76 && m[5] == 0
            && m[6] == 0 && m[7] == 0;
        proof {
            if b {
                assert(self.magic@ =~= wal_magic());
            } else {
                if self.magic@ == wal_magic() {
                    assert(self.magic@[0] == 86u8);
                    assert(self.magic@[7] == 0u8);
                }
            }
        }
        b
    }

    /// Checks the header: magic bytes, version 1, a non-zero current LSN, and
    /// checkpointed <= committed <= current. The first rule broken is reported.
    pub fn validate(&self) -> (r: NativeResult<()>)
        ensures
            match header_fault(*self) {
                None => r is Ok,
                Some(HeaderFault::BadMagic) => r matches Err(
                    NativeBackendError::CorruptionDetected { context },
                ) && context@ == "WAL header: invalid magic bytes: "@ + byte_list_text(
                    self.magic@,
                ),
                Some(HeaderFault::BadVersion) => r matches Err(
                    NativeBackendError::VersionMismatch { expected, found },
                ) && expected@ == "1"@ && found@ == decimal(self.version as nat),
                Some(HeaderFault::ZeroCurrentLsn) => r matches Err(
                    NativeBackendError::CorruptionDetected { context },
                ) && context@ == "WAL header: current_lsn cannot be zero"@,
                Some(HeaderFault::CommittedAfterCurrent) => r matches Err(
                    NativeBackendError::CorruptionDetected { context },
                ) && context@ == "WAL header: committed_lsn cannot be greater than current_lsn"@,
                Some(HeaderFault::CheckpointedAfterCommitted) => r matches Err(
                    NativeBackendError::CorruptionDetected { context },
                ) && context@
                    == "WAL header: checkpointed_lsn cannot be greater than committed_lsn"@,
            },
    {
        if !self.magic_matches() {
            let mut context = String::from_str("WAL header: invalid magic bytes: ");
            push_byte_list(&mut context, self.magic.as_slice());
            return Err(NativeBackendError::CorruptionDetected { context });
        }
        if self.version != 1 {
            let mut found = String::new();
            push_decimal(&mut found, self.version as u64);
            proof { reveal_strlit("1"); }
            return Err(NativeBackendError::VersionMismatch {
                expected: String::from_str("1"),
                found,
            });
        }
        if self.current_lsn == 0 {
            return Err(NativeBackendError::CorruptionDetected {
                context: String::from_str("WAL header: current_lsn cannot be zero"),
            });
        }
        if self.committed_lsn > self.current_lsn {
            return Err(NativeBackendError::CorruptionDetected {
                context: String::from_str(
                    "WAL header: committed_lsn cannot be greater than current_lsn",
                ),
            });
        }
        if self.checkpointed_lsn > self.committed_lsn {
            return Err(NativeBackendError::CorruptionDetected {
                context: String::from_str(
                    "WAL header: checkpointed_lsn cannot be greater than committed_lsn",
                ),
            });
        }
        Ok(())
    }

    /// Whether any bit of `flag` is set in the header's flags.
    pub fn has_flag(&self, flag: u32) -> (b: bool)
        ensures
            b == (self.flags & flag != 0),
    {
        (self.flags & flag) != 0
    }

    /// Sets (when `enabled`) or clears the bits of `flag`; other bits are unchanged.
    pub fn set_flag(&mut self, flag: u32, enabled: bool)
        ensures
            final(self).flags == if enabled { old(self).flags | flag } else { old(self).flags & !flag },
            final(self).magic == old(self).magic,
            final(self).version == old(self).version,
            final(self).created_at == old(self).created_at,
            final(self).current_lsn == old(self).current_lsn,
            final(self).committed_lsn == old(self).committed_lsn,
            final(self).checkpointed_lsn == old(self).checkpointed_lsn,
            final(self).active_transactions == old(self).active_transactions,
            final(self).reserved == old(self).reserved,
    {
        if enabled {
            self.flags = self.flags | flag;
        } else {
            self.flags = self.flags & !flag;
        }
    }
}

/// Setting a non-empty flag makes it read back as set; clearing it makes it read back as
/// clear; and neither touches the bits outside the flag.
pub proof fn lemma_flag_roundtrip(flags: u32, flag: u32)
    ensures
        flag != 0 ==> (flags | flag) & flag != 0,
        (flags & !flag) & flag == 0,
        forall|other: u32| #![trigger (flags | flag) & other] other & flag == 0 ==> ((flags | flag) & other == flags & other),
        forall|other: u32| #![trigger (flags & !flag) & other] other & flag == 0 ==> ((flags & !flag) & other == flags & other),
{
    assert(flag != 0 ==> (flags | flag) & flag != 0) by (bit_vector);
    assert((flags & !flag) & flag == 0) by (bit_vector);
    assert forall|other: u32| other & flag == 0 implies ((flags | flag) & other == flags & other) by {
        assert(other & flag == 0 ==> ((flags | flag) & other == flags & other)) by (bit_vector);
    }
    assert forall|other: u32| other & flag == 0 implies ((flags & !flag) & other == flags & other) by {
        assert(other & flag == 0 ==> ((flags & !flag) & other == flags & other)) by (bit_vector);
    }
}

} // verus!
