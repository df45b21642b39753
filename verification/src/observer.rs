//! Settings of the long-running channel observer.

use vstd::prelude::*;

verus! {

/// The polling interval used when none, or too short a one, is requested.
pub const DEFAULT_POLL_SECONDS: u64 = 30;

/// The shortest polling interval the observer accepts.
pub const MIN_POLL_SECONDS: u64 = 5;

/// The polling interval in seconds: the requested one when it is at least
/// the minimum, else the default.
pub fn poll_seconds(requested: Option<u64>) -> (r: u64)
    ensures
        r == match requested {
            Some(s) => if s >= MIN_POLL_SECONDS {
                s
            } else {
                DEFAULT_POLL_SECONDS
            },
            None => DEFAULT_POLL_SECONDS,
        },
{
    match requested {
        Some(s) => if s >= MIN_POLL_SECONDS {
            s
        } else {
            DEFAULT_POLL_SECONDS
        },
        None => DEFAULT_POLL_SECONDS,
    }
}

} // verus!
