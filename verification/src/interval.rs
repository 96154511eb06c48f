//! Intervals over scalar values, as tracked for each sorted filter expression.

use vstd::prelude::*;
use crate::scalar::ScalarVal;

verus! {

/// One endpoint of an interval: a scalar together with an open/closed flag.
/// A null scalar stands for an unbounded endpoint.
#[derive(Clone, Copy, Debug, PartialEq, Eq, Structural)]
pub struct IntervalBound {
    pub value: ScalarVal,
    pub open: bool,
}

impl IntervalBound {
    /// Builds an endpoint from a scalar and an open/closed flag.
    pub fn new(value: ScalarVal, open: bool) -> (r: IntervalBound)
        ensures
            r.value == value,
            r.open == open,
    {
        IntervalBound { value, open }
    }
}

/// A pair of scalar bounds believed feasible for one filter expression.
#[derive(Clone, Copy, Debug, PartialEq, Eq, Structural)]
pub struct Interval {
    pub lower: IntervalBound,
    pub upper: IntervalBound,
}

impl Interval {
    /// Builds an interval from its two endpoints.
    pub fn new(lower: IntervalBound, upper: IntervalBound) -> (r: Interval)
        ensures
            r.lower == lower,
            r.upper == upper,
    {
        Interval { lower, upper }
    }

    /// The point-null interval with both endpoints open: the value set for a
    /// build side whose future rows are unknown.
    pub open spec fn spec_point_null() -> Interval {
        Interval {
            lower: IntervalBound { value: ScalarVal::Null, open: true },
            upper: IntervalBound { value: ScalarVal::Null, open: true },
        }
    }

    /// Builds the point-null interval with both endpoints open.
    pub fn point_null() -> (r: Interval)
        ensures
            r == Interval::spec_point_null(),
    {
        Interval {
            lower: IntervalBound { value: ScalarVal::Null, open: true },
            upper: IntervalBound { value: ScalarVal::Null, open: true },
        }
    }
}

} // verus!
