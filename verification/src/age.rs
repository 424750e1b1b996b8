//! Newtype wrappers for whole years and whole days, so that the two units
//! cannot be mixed up at a call site.

use vstd::prelude::*;

verus! {

/// A span of whole years.
#[derive(Clone, Copy, PartialEq, Eq, Structural, Debug)]
pub struct Years(pub i64);

/// A span of whole days.
#[derive(Clone, Copy, PartialEq, Eq, Structural, Debug)]
pub struct Days(pub i64);

impl Years {
    /// Converts to days, at 365 days per year.
    pub fn to_days(&self) -> (r: Days)
        requires
            i64::MIN <= self.0 * 365 <= i64::MAX,
        ensures
            r.0 == self.0 * 365,
    {
        Days(self.0 * 365)
    }
}

impl Days {
    /// truncates partial years, rounding toward zero
    pub fn to_years(&self) -> (r: Years)
        ensures
            r.0 == (if self.0 >= 0 {
                self.0 as int / 365
            } else {
                -((-(self.0 as int)) / 365)
            }),
    {
        Years(self.0 / 365)
    }
}

/// Whether an age in whole years has reached adulthood.
pub fn is_adult(age: &Years) -> (r: bool)
    ensures
        r == (age.0 >= 18),
{
    age.0 >= 18
}

} // verus!
