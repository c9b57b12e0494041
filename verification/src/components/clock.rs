//! A clock that refreshes as often as its format needs.

use vstd::prelude::*;

verus! {

/// A clock. Its format is written in the syntax of `strftime`.
pub struct Clock {
    pub format: String,
}

/// How many seconds lie between two refreshes of a clock, given the seconds
/// read back from a time of 15 seconds past the minute once it was written
/// in the clock's format: one second if the format shows seconds, a minute
/// if it does not.
pub fn get_refresh_rate(seconds_read_back: i32) -> (secs: u64)
    ensures
        secs == (if seconds_read_back != 0 {
            1u64
        } else {
            60u64
        }),
{
    if seconds_read_back != 0 {
        1
    } else {
        60
    }
}

} // verus!
