//! A running minimum and maximum.
use vstd::prelude::*;

verus! {

/// The smallest and largest of the values seen so far.
#[derive(Clone, Copy, Debug)]
pub struct MinMax {
    pub min: i64,
    pub max: i64,
}

impl MinMax {
    pub open spec fn wf(self) -> bool {
        self.min <= self.max
    }

    /// The range of the two values `v1`, `v2`.
    pub fn new(v1: i64, v2: i64) -> (r: Self)
        ensures
            r.wf(),
            r.min == if v1 < v2 { v1 } else { v2 },
            r.max == if v1 < v2 { v2 } else { v1 },
    {
        if v1 < v2 {
            MinMax { min: v1, max: v2 }
        } else {
            MinMax { min: v2, max: v1 }
        }
    }

    /// Takes `v` into the range.
    pub fn update(&mut self, v: i64)
        requires
            old(self).wf(),
        ensures
            final(self).wf(),
            final(self).min == if v < old(self).min { v } else { old(self).min },
            final(self).max == if v > old(self).max { v } else { old(self).max },
    {
        if v > self.max {
            self.max = v;
        } else if v < self.min {
            self.min = v;
        }
    }

    /// The extent `max - min`.
    pub fn range(&self) -> (r: i128)
        ensures
            r == self.max - self.min,
    {
        self.max as i128 - self.min as i128
    }
}

} // verus!
