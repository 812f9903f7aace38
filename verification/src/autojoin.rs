//! The decision rule of the invite auto-join retry loop: delays double
//! after each failed attempt, and the loop gives up once the next delay
//! would pass an hour.

use vstd::prelude::*;

verus! {

/// The first retry delay, in seconds.
pub const INITIAL_AUTOJOIN_DELAY: u64 = 2;

/// The delay after one more failed join attempt, or nothing once the
/// doubled delay passes 3600 seconds and the loop should give up.
pub fn next_autojoin_delay(delay: u64) -> (r: Option<u64>)
    requires
        delay <= 3600,
    ensures
        match r {
            Some(d) => d == delay * 2 && d <= 3600,
            None => delay * 2 > 3600,
        },
{
    let doubled: u64 = delay * 2;
    if doubled > 3600 {
        None
    } else {
        Some(doubled)
    }
}

} // verus!
