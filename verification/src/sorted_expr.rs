//! Sort expressions and sorted filter expressions: a side's sort
//! expression paired with its rewritten forms and a live interval.

use vstd::prelude::*;
use crate::expr::FilterExpr;
use crate::interval::Interval;

verus! {

/// A sort expression: an expression with a direction.
#[derive(Debug)]
pub struct SortExpr {
    pub expr: FilterExpr,
    pub descending: bool,
}

impl SortExpr {
    /// A structurally identical copy.
    pub fn deep_clone(&self) -> (r: SortExpr)
        ensures
            r == *self,
    {
        SortExpr { expr: self.expr.deep_clone(), descending: self.descending }
    }
}

/// A side's sort expression together with its two rewritten forms — over
/// the whole intermediate schema (the form the filter tree and the interval
/// graph know) and over the side's subset of it (the form evaluated on
/// projected rows) — plus the interval currently believed feasible and the
/// expression's node in the interval graph.
#[derive(Debug)]
pub struct SortedFilterExpr {
    origin_expr: FilterExpr,
    descending: bool,
    filter_expr: FilterExpr,
    intermediate_expr: FilterExpr,
    interval: Interval,
    node_index: usize,
}

impl SortedFilterExpr {
    /// The sort expression over the side's input schema.
    pub closed spec fn spec_origin_expr(self) -> FilterExpr {
        self.origin_expr
    }

    /// Whether the sort is descending.
    pub closed spec fn spec_descending(self) -> bool {
        self.descending
    }

    /// The rewrite over the whole intermediate schema.
    pub closed spec fn spec_filter_expr(self) -> FilterExpr {
        self.filter_expr
    }

    /// The rewrite over the side's subset of the intermediate schema.
    pub closed spec fn spec_intermediate_expr(self) -> FilterExpr {
        self.intermediate_expr
    }

    /// The interval currently believed feasible.
    pub closed spec fn spec_interval(self) -> Interval {
        self.interval
    }

    /// The expression's node in the interval graph.
    pub closed spec fn spec_node_index(self) -> usize {
        self.node_index
    }

    /// Builds a sorted filter expression; the interval starts as the
    /// point-null interval and the node index at zero until the graph
    /// assigns one.
    pub fn new(
        origin_expr: FilterExpr,
        descending: bool,
        filter_expr: FilterExpr,
        intermediate_expr: FilterExpr,
    ) -> (r: SortedFilterExpr)
        ensures
            r.spec_origin_expr() == origin_expr,
            r.spec_descending() == descending,
            r.spec_filter_expr() == filter_expr,
            r.spec_intermediate_expr() == intermediate_expr,
            r.spec_interval() == Interval::spec_point_null(),
            r.spec_node_index() == 0,
    {
        SortedFilterExpr {
            origin_expr,
            descending,
            filter_expr,
            intermediate_expr,
            interval: Interval::point_null(),
            node_index: 0,
        }
    }

    /// The sort expression over the side's input schema.
    pub fn origin_expr(&self) -> (r: &FilterExpr)
        ensures
            *r == self.spec_origin_expr(),
    {
        &self.origin_expr
    }

    /// Whether the sort is descending.
    pub fn descending(&self) -> (r: bool)
        ensures
            r == self.spec_descending(),
    {
        self.descending
    }

    /// The rewrite over the whole intermediate schema.
    pub fn filter_expr(&self) -> (r: &FilterExpr)
        ensures
            *r == self.spec_filter_expr(),
    {
        &self.filter_expr
    }

    /// The rewrite evaluated against a side-projected batch row.
    pub fn intermediate_batch_filter_expr(&self) -> (r: &FilterExpr)
        ensures
            *r == self.spec_intermediate_expr(),
    {
        &self.intermediate_expr
    }

    /// The interval currently believed feasible.
    pub fn interval(&self) -> (r: &Interval)
        ensures
            *r == self.spec_interval(),
    {
        &self.interval
    }

    /// The expression's node in the interval graph.
    pub fn node_index(&self) -> (r: usize)
        ensures
            r == self.spec_node_index(),
    {
        self.node_index
    }

    /// Replaces the interval; writing the same interval twice leaves the
    /// expression exactly as one write does.
    pub fn set_interval(&mut self, interval: Interval)
        ensures
            final(self).spec_interval() == interval,
            final(self).spec_origin_expr() == old(self).spec_origin_expr(),
            final(self).spec_descending() == old(self).spec_descending(),
            final(self).spec_filter_expr() == old(self).spec_filter_expr(),
            final(self).spec_intermediate_expr() == old(self).spec_intermediate_expr(),
            final(self).spec_node_index() == old(self).spec_node_index(),
    {
        self.interval = interval;
    }

    /// Replaces the graph node index; idempotent in the same way.
    pub fn set_node_index(&mut self, node_index: usize)
        ensures
            final(self).spec_node_index() == node_index,
            final(self).spec_origin_expr() == old(self).spec_origin_expr(),
            final(self).spec_descending() == old(self).spec_descending(),
            final(self).spec_filter_expr() == old(self).spec_filter_expr(),
            final(self).spec_intermediate_expr() == old(self).spec_intermediate_expr(),
            final(self).spec_interval() == old(self).spec_interval(),
    {
        self.node_index = node_index;
    }

    /// A structurally identical copy carrying another interval.
    pub fn cloned_with_interval(&self, interval: Interval) -> (r: SortedFilterExpr)
        ensures
            r.spec_interval() == interval,
            r.spec_origin_expr() == self.spec_origin_expr(),
            r.spec_descending() == self.spec_descending(),
            r.spec_filter_expr() == self.spec_filter_expr(),
            r.spec_intermediate_expr() == self.spec_intermediate_expr(),
            r.spec_node_index() == self.spec_node_index(),
    {
        SortedFilterExpr {
            origin_expr: self.origin_expr.deep_clone(),
            descending: self.descending,
            filter_expr: self.filter_expr.deep_clone(),
            intermediate_expr: self.intermediate_expr.deep_clone(),
            interval,
            node_index: self.node_index,
        }
    }
}

} // verus!
