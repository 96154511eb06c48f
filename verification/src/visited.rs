//! The set of build-side rows already matched by some probe row.

use vstd::prelude::*;
use hashbrown::HashSet;

verus! {

/// Build-side row ids (global, offset by the rows already pruned) that some
/// probe row has matched. Backed by a `hashbrown::HashSet`, the table the
/// join driver uses for visited-row tracking.
#[verifier::external_body]
pub struct VisitedRows {
    set: HashSet<usize>,
}

/// What the visited-row set holds.
pub uninterp spec fn visited_contents(v: VisitedRows) -> Set<usize>;

impl VisitedRows {
    /// Relies on hashbrown::HashSet::new: creates an empty set.
    #[verifier::external_body]
    pub fn new() -> (r: VisitedRows)
        ensures
            visited_contents(r) == Set::<usize>::empty(),
    {
        VisitedRows { set: HashSet::new() }
    }

    /// Relies on hashbrown::HashSet::insert: adds the value to the set.
    #[verifier::external_body]
    pub fn insert(&mut self, row: usize)
        ensures
            visited_contents(*final(self)) == visited_contents(*old(self)).insert(row),
    {
        self.set.insert(row);
    }

    /// Relies on hashbrown::HashSet::contains: membership test.
    #[verifier::external_body]
    pub fn contains(&self, row: usize) -> (r: bool)
        ensures
            r == visited_contents(*self).contains(row),
    {
        self.set.contains(&row)
    }
}

} // verus!
