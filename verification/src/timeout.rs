//! How long a wait may block.

use vstd::prelude::*;

verus! {

/// The timeout of a wait.
#[derive(Clone, Copy, Debug, PartialEq, Eq, Structural)]
pub enum Timeout {
    /// Block until a descriptor is ready.
    Indefinite,
    /// Give up after this many milliseconds.
    Millis(u32),
}

/// The timeout as the millisecond count of a poll: -1 for an indefinite wait,
/// and no more than the largest count that fits.
pub open spec fn poll_millis(timeout: Timeout) -> int {
    match timeout {
        Timeout::Indefinite => -1,
        Timeout::Millis(ms) => if ms <= i32::MAX {
            ms as int
        } else {
            i32::MAX as int
        },
    }
}

/// The timeout as seconds and microseconds, or `None` for an indefinite wait.
pub open spec fn split(timeout: Timeout) -> Option<(int, int)> {
    match timeout {
        Timeout::Indefinite => None,
        Timeout::Millis(ms) => Some((ms as int / 1000, (ms as int % 1000) * 1000)),
    }
}

impl Timeout {
    /// The millisecond count to hand to a poll.
    pub fn as_poll_millis(&self) -> (ms: i32)
        ensures
            ms == poll_millis(*self),
    {
        match *self {
            Timeout::Indefinite => -1,
            Timeout::Millis(ms) => if ms <= 0x7fff_ffffu32 {
                ms as i32
            } else {
                i32::MAX
            },
        }
    }

    /// The seconds and microseconds to hand to a select, or `None` where the
    /// select is to block until a descriptor is ready.
    pub fn as_timeval(&self) -> (tv: Option<(i64, i64)>)
        ensures
            match tv {
                Some((secs, micros)) => split(*self) == Some((secs as int, micros as int)) && 0
                    <= micros < 1_000_000,
                None => split(*self).is_none(),
            },
    {
        match *self {
            Timeout::Indefinite => None,
            Timeout::Millis(ms) => {
                let secs: u32 = ms / 1000;
                let rest: u32 = ms % 1000;
                Some((secs as i64, rest as i64 * 1000))
            },
        }
    }
}

} // verus!
