//! The scalar values that filter expressions evaluate to.

use vstd::prelude::*;

verus! {

/// A scalar produced by evaluating a filter expression on one row: either
/// null or a 64-bit signed integer.
///
/// The engine's scalars are ordered with null before every concrete value,
/// the way `Option`'s ordering places `None` first; the comparisons below
/// follow that rule.
#[derive(Clone, Copy, Debug, PartialEq, Eq, Structural)]
pub enum ScalarVal {
    Null,
    Int(i64),
}

impl ScalarVal {
    /// True on the null scalar.
    pub open spec fn spec_is_null(self) -> bool {
        self is Null
    }

    /// Spec order: `Null` sorts before every `Int`, and integers sort by value.
    pub open spec fn spec_lt(self, other: ScalarVal) -> bool {
        match (self, other) {
            (ScalarVal::Null, ScalarVal::Null) => false,
            (ScalarVal::Null, ScalarVal::Int(_)) => true,
            (ScalarVal::Int(_), ScalarVal::Null) => false,
            (ScalarVal::Int(a), ScalarVal::Int(b)) => a < b,
        }
    }

    /// True on the null scalar.
    pub fn is_null(&self) -> (r: bool)
        ensures
            r == self.spec_is_null(),
    {
        match self {
            ScalarVal::Null => true,
            ScalarVal::Int(_) => false,
        }
    }

    /// Strictly-less comparison under the order of `spec_lt`.
    pub fn lt(&self, other: &ScalarVal) -> (r: bool)
        ensures
            r == self.spec_lt(*other),
    {
        match (self, other) {
            (ScalarVal::Null, ScalarVal::Null) => false,
            (ScalarVal::Null, ScalarVal::Int(_)) => true,
            (ScalarVal::Int(_), ScalarVal::Null) => false,
            (ScalarVal::Int(a), ScalarVal::Int(b)) => *a < *b,
        }
    }

    /// Strictly-greater comparison under the order of `spec_lt`.
    pub fn gt(&self, other: &ScalarVal) -> (r: bool)
        ensures
            r == other.spec_lt(*self),
    {
        other.lt(self)
    }
}

} // verus!
