//! Log sequence number (LSN) helpers.
use vstd::prelude::*;

verus! {

/// LSN of the first record of the log.
pub const LSN_BEGIN: u64 = 1;

/// LSN standing for "no position".
pub const LSN_INVALID: u64 = 0;

/// Whether `lsn` names a real log position.
pub fn is_valid(lsn: u64) -> (b: bool)
    ensures
        b == (lsn >= LSN_BEGIN),
{
    lsn >= LSN_BEGIN
}

/// The LSN after `lsn`, wrapping to zero after `u64::MAX`.
pub fn next(lsn: u64) -> (n: u64)
    ensures
        n == if lsn == u64::MAX { 0 } else { (lsn + 1) as u64 },
{
    lsn.wrapping_add(1)
}

/// The number of positions from `from` up to `to`, or zero when `to` precedes `from`.
pub fn distance(from: u64, to: u64) -> (d: u64)
    ensures
        d == if to >= from { (to - from) as u64 } else { 0 },
{
    to.saturating_sub(from)
}

/// Stepping to the next position moves exactly one position further, except at the
/// top of the range where the position wraps.
pub proof fn lemma_next_is_one_step(lsn: u64)
    requires
        lsn < u64::MAX,
    ensures
        ({
            let n = if lsn == u64::MAX { 0 } else { (lsn + 1) as u64 };
            &&& n > lsn
            &&& (if n >= lsn { (n - lsn) as u64 } else { 0 }) == 1
            &&& n >= LSN_BEGIN
        }),
{
}

} // verus!
