//! A span of time, as far as the timers read one: whole milliseconds.

use vstd::prelude::*;

verus! {

#[derive(Debug, Clone, Copy, PartialEq, Eq, Structural)]
pub struct Duration {
    pub millis: u128,
}

impl View for Duration {
    type V = int;

    /// Length in milliseconds.
    open spec fn view(&self) -> int {
        self.millis as int
    }
}

impl Duration {
    pub fn from_secs(secs: u64) -> (d: Duration)
        ensures
            d@ == secs * 1_000,
    {
        Duration { millis: secs as u128 * 1_000 }
    }

    pub fn as_millis(&self) -> (ms: u128)
        ensures
            ms == self@,
    {
        self.millis
    }
}

} // verus!
