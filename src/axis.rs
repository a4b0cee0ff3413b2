use vstd::prelude::*;

use crate::geometry::{Interval, DATA_ONE};

verus! {

/// The data range of one axis.
#[derive(Clone, Copy, Debug, PartialEq, Eq, Structural)]
pub struct Axis {
    range: Interval,
}

pub const DEFAULT_START: i64 = 0;

pub const DEFAULT_END: i64 = 10 * DATA_ONE;

impl Axis {
    pub closed spec fn range_spec(self) -> Interval {
        self.range
    }

    /// The signed length of the range: negative when it runs backwards.
    pub fn length(&self) -> (r: i128)
        ensures
            r == self.range_spec().end - self.range_spec().start,
    {
        -(self.range.start as i128) + self.range.end as i128
    }

    pub fn range(self, range: Interval) -> (r: Axis)
        ensures
            r.range_spec() == range,
    {
        Axis { range }
    }
}

impl Default for Axis {
    fn default() -> (r: Axis)
        ensures
            r.range_spec() == (Interval { start: 0, end: 655360 }),
    {
        Axis { range: Interval { start: DEFAULT_START, end: DEFAULT_END } }
    }
}

} // verus!
