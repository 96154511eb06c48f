//! Join sides and join flavors.

use vstd::prelude::*;

verus! {

/// The side of a join an input or a column belongs to.
#[derive(Clone, Copy, Debug, PartialEq, Eq, Structural)]
pub enum JoinSide {
    Left,
    Right,
}

impl JoinSide {
    /// The opposite side.
    pub fn negate(&self) -> (r: JoinSide)
        ensures
            r == (match *self {
                JoinSide::Left => JoinSide::Right,
                JoinSide::Right => JoinSide::Left,
            }),
    {
        match self {
            JoinSide::Left => JoinSide::Right,
            JoinSide::Right => JoinSide::Left,
        }
    }
}

/// The flavor of a join.
#[derive(Clone, Copy, Debug, PartialEq, Eq, Structural)]
pub enum JoinType {
    Inner,
    Left,
    Right,
    Full,
    LeftSemi,
    LeftAnti,
    RightSemi,
    RightAnti,
}

} // verus!
