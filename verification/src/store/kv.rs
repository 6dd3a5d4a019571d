//! Policy helpers for TTL-backed key-value stores.

use vstd::prelude::*;

verus! {

/// The whole seconds a record has left to live: a backend that expires
/// entries by TTL is handed `max(valid_till - now, 0) / 1000`.
pub fn remaining_ttl_secs(valid_till: i64, now: i64) -> (r: u64)
    ensures
        r as int == (if valid_till as int - now as int >= 0 {
            valid_till as int - now as int
        } else {
            0
        }) / 1000,
{
    let d: i128 = (valid_till as i128) - (now as i128);
    if d <= 0 {
        0
    } else {
        (d / 1000) as u64
    }
}

} // verus!
