//! Stand-ins for sensors that are not there.

use vstd::prelude::*;
use crate::traits::{Adc, PulseCounter};

verus! {

/// A converter that always measures the same.
#[derive(Debug, Clone, Copy, PartialEq, Eq, Structural)]
pub struct PlaceholderAdc(pub u16);

impl Adc for PlaceholderAdc {
    fn read_raw(&mut self) -> (raw: u16)
        ensures
            raw == old(self).0,
            *final(self) == *old(self),
    {
        self.0
    }
}

/// A counter that stands still.
#[derive(Debug, Clone, Copy, PartialEq, Eq, Structural)]
pub struct PlaceholderPcnt {
    pub count: u64,
}

impl Default for PlaceholderPcnt {
    fn default() -> (c: Self)
        ensures
            c.count == 0,
    {
        PlaceholderPcnt { count: 0 }
    }
}

impl PulseCounter for PlaceholderPcnt {
    fn count(&self) -> (n: u64)
        ensures
            n == self.count,
    {
        self.count
    }
}

} // verus!
