//! Durable per-user language choice (`user_id → en|ru`): the row id mapping.
use vstd::prelude::*;

verus! {

/// The SQLite row id of a Telegram user. Telegram user ids fit `i64` by a
/// wide margin; 0 is unused, so the fallback can never collide with a real user.
pub fn sqlite_id(user_id: u64) -> (r: i64)
    ensures
        r == (if user_id <= i64::MAX {
            user_id as int
        } else {
            0
        }),
{
    if user_id <= i64::MAX as u64 {
        user_id as i64
    } else {
        0
    }
}

} // verus!
