//! Sweeping of stale download directories.
use vstd::prelude::*;

verus! {

/// Seconds between two sweeps of the temp directory.
pub const TEMP_SWEEP_SECS: u64 = 300;

/// Age, in seconds since the last change, past which a download directory is removed.
pub const TEMP_MAX_AGE_SECS: u64 = 600;

/// A download directory unchanged for `age_secs` seconds is stale.
pub fn is_stale(age_secs: u64) -> (r: bool)
    ensures
        r == (age_secs > TEMP_MAX_AGE_SECS),
{
    age_secs > TEMP_MAX_AGE_SECS
}

} // verus!
