//! Performance limits of checkpointing.
use vstd::prelude::*;

verus! {

/// Longest checkpoint duration in milliseconds (10 minutes).
pub const MAX_CHECKPOINT_DURATION_MS: u64 = 600000;

} // verus!
