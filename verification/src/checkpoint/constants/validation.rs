//! Limits of checkpoint validation.
use vstd::prelude::*;

verus! {

/// Most integrity errors a checkpoint may have.
pub const MAX_INTEGRITY_ERRORS: usize = 10;

/// Timeout of a consistency check in milliseconds.
pub const CONSISTENCY_CHECK_TIMEOUT_MS: u64 = 30000;

/// Most rollback validation attempts.
pub const MAX_ROLLBACK_VALIDATION_ATTEMPTS: u32 = 3;

} // verus!
