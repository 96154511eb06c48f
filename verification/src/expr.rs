//! Filter and sort expressions over the columns of a schema, with scalar
//! evaluation, structural comparison, column collection and column
//! rewriting.
//!
//! The join filter is an expression over the intermediate schema; each
//! side's sort expressions are over that side's input schema and are
//! rewritten, column by column, into intermediate positions. Comparisons and
//! conjunctions appear inside filter trees but are never evaluated by the
//! interval logic, which only evaluates sort expressions; asking them for a
//! scalar is a type error.

use vstd::prelude::*;
use crate::scalar::ScalarVal;
use crate::StreamJoinError;

verus! {

/// Binary operators of filter expressions.
#[derive(Clone, Copy, Debug, PartialEq, Eq, Structural)]
pub enum BinaryOp {
    Add,
    Mul,
    Gt,
    Lt,
    And,
}

/// A filter or sort expression: a column reference, an integer literal, or
/// a binary node.
#[derive(Debug)]
pub enum FilterExpr {
    Column(usize),
    Literal(i64),
    Binary(BinaryOp, Box<FilterExpr>, Box<FilterExpr>),
}

/// Arithmetic on two scalars: null absorbs, and a result outside the 64-bit
/// range is an arithmetic error.
pub open spec fn spec_apply_arith(op: BinaryOp, a: ScalarVal, b: ScalarVal) -> Result<
    ScalarVal,
    StreamJoinError,
> {
    match a {
        ScalarVal::Null => Ok(ScalarVal::Null),
        ScalarVal::Int(x) => match b {
            ScalarVal::Null => Ok(ScalarVal::Null),
            ScalarVal::Int(y) => {
                let v = if op is Add {
                    x + y
                } else {
                    x * y
                };
                if v < i64::MIN || v > i64::MAX {
                    Err(StreamJoinError::ArithmeticOverflow)
                } else {
                    Ok(ScalarVal::Int(v as i64))
                }
            },
        },
    }
}

/// Evaluates a sort expression on one row of scalar values. A column beyond
/// the row is a missing column; a comparison or conjunction node is a type
/// error, since only arithmetic sort expressions yield scalars; arithmetic
/// errors and the left child's error come first.
pub open spec fn spec_eval(e: FilterExpr, row: Seq<ScalarVal>) -> Result<ScalarVal, StreamJoinError>
    decreases e,
{
    match e {
        FilterExpr::Column(i) => if i < row.len() {
            Ok(row[i as int])
        } else {
            Err(StreamJoinError::ColumnNotFound)
        },
        FilterExpr::Literal(v) => Ok(ScalarVal::Int(v)),
        FilterExpr::Binary(op, l, r) => if op is Add || op is Mul {
            match spec_eval(*l, row) {
                Err(e1) => Err(e1),
                Ok(lv) => match spec_eval(*r, row) {
                    Err(e2) => Err(e2),
                    Ok(rv) => spec_apply_arith(op, lv, rv),
                },
            }
        } else {
            Err(StreamJoinError::SchemaMismatch)
        },
    }
}

/// The column references of an expression, in tree order.
pub open spec fn spec_columns(e: FilterExpr) -> Seq<usize>
    decreases e,
{
    match e {
        FilterExpr::Column(c) => seq![c],
        FilterExpr::Literal(_) => Seq::empty(),
        FilterExpr::Binary(_, l, r) => spec_columns(*l) + spec_columns(*r),
    }
}

/// The first value paired with `c` in a column-map built as ordered pairs.
pub open spec fn spec_map_lookup(pairs: Seq<(usize, usize)>, c: usize) -> Option<usize>
    decreases pairs.len(),
{
    if pairs.len() == 0 {
        None
    } else if pairs[0].0 == c {
        Some(pairs[0].1)
    } else {
        spec_map_lookup(pairs.drop_first(), c)
    }
}

/// Whether every column of `e` has an entry in the column map.
pub open spec fn spec_mappable(e: FilterExpr, pairs: Seq<(usize, usize)>) -> bool
    decreases e,
{
    match e {
        FilterExpr::Column(c) => spec_map_lookup(pairs, c) is Some,
        FilterExpr::Literal(_) => true,
        FilterExpr::Binary(_, l, r) => spec_mappable(*l, pairs) && spec_mappable(*r, pairs),
    }
}

/// `out` is `e` with every column leaf replaced through the column map and
/// everything else kept as it stands.
pub open spec fn spec_rewrites_to(e: FilterExpr, pairs: Seq<(usize, usize)>, out: FilterExpr) -> bool
    decreases e,
{
    match e {
        FilterExpr::Column(c) => spec_map_lookup(pairs, c) is Some && out == FilterExpr::Column(
            spec_map_lookup(pairs, c).unwrap(),
        ),
        FilterExpr::Literal(v) => out == FilterExpr::Literal(v),
        FilterExpr::Binary(op, l, r) => match out {
            FilterExpr::Binary(op2, lo, ro) => op2 == op && spec_rewrites_to(*l, pairs, *lo)
                && spec_rewrites_to(*r, pairs, *ro),
            _ => false,
        },
    }
}

/// Whether `needle` occurs verbatim as a subtree of `hay` — structural
/// equality, not semantic: `a + b` does not match `b + a`, on purpose,
/// since only nodes the interval graph recognises are usable for pruning.
pub open spec fn spec_is_subtree(needle: FilterExpr, hay: FilterExpr) -> bool
    decreases hay,
{
    hay == needle || (match hay {
        FilterExpr::Binary(_, l, r) => spec_is_subtree(needle, *l) || spec_is_subtree(needle, *r),
        _ => false,
    })
}

impl FilterExpr {
    /// A structurally identical copy.
    pub fn deep_clone(&self) -> (r: FilterExpr)
        ensures
            r == *self,
        decreases *self,
    {
        match self {
            FilterExpr::Column(c) => FilterExpr::Column(*c),
            FilterExpr::Literal(v) => FilterExpr::Literal(*v),
            FilterExpr::Binary(op, l, r) => FilterExpr::Binary(
                *op,
                Box::new((&**l).deep_clone()),
                Box::new((&**r).deep_clone()),
            ),
        }
    }

    /// Structural equality of two expression trees.
    pub fn structural_eq(&self, other: &FilterExpr) -> (r: bool)
        ensures
            r == (*self == *other),
        decreases *self,
    {
        match (self, other) {
            (FilterExpr::Column(a), FilterExpr::Column(b)) => *a == *b,
            (FilterExpr::Literal(a), FilterExpr::Literal(b)) => *a == *b,
            (FilterExpr::Binary(op1, l1, r1), FilterExpr::Binary(op2, l2, r2)) => {
                *op1 == *op2 && (&**l1).structural_eq(&**l2) && (&**r1).structural_eq(&**r2)
            },
            _ => false,
        }
    }

    /// Evaluates the expression on one row of scalars.
    pub fn eval(&self, row: &Vec<ScalarVal>) -> (r: Result<ScalarVal, StreamJoinError>)
        ensures
            r == spec_eval(*self, row@),
        decreases *self,
    {
        match self {
            FilterExpr::Column(i) => if *i < row.len() {
                Ok(row[*i])
            } else {
                Err(StreamJoinError::ColumnNotFound)
            },
            FilterExpr::Literal(v) => Ok(ScalarVal::Int(*v)),
            FilterExpr::Binary(op, l, r) => {
                match op {
                    BinaryOp::Add | BinaryOp::Mul => {
                        let lv = match (&**l).eval(row) {
                            Ok(v) => v,
                            Err(e1) => {
                                return Err(e1);
                            },
                        };
                        let rv = match (&**r).eval(row) {
                            Ok(v) => v,
                            Err(e2) => {
                                return Err(e2);
                            },
                        };
                        match (lv, rv) {
                            (ScalarVal::Int(x), ScalarVal::Int(y)) => {
                                let res = if matches!(op, BinaryOp::Add) {
                                    x.checked_add(y)
                                } else {
                                    x.checked_mul(y)
                                };
                                match res {
                                    Some(v) => Ok(ScalarVal::Int(v)),
                                    None => Err(StreamJoinError::ArithmeticOverflow),
                                }
                            },
                            _ => Ok(ScalarVal::Null),
                        }
                    },
                    _ => Err(StreamJoinError::SchemaMismatch),
                }
            },
        }
    }

    /// Appends the expression's column references, in tree order, to `out`.
    pub fn collect_columns(&self, out: &mut Vec<usize>)
        ensures
            final(out)@ == old(out)@ + spec_columns(*self),
        decreases *self,
    {
        match self {
            FilterExpr::Column(c) => {
                out.push(*c);
                proof {
                    assert(old(out)@ + spec_columns(*self) =~= out@);
                }
            },
            FilterExpr::Literal(_) => {
                proof {
                    assert(old(out)@ + spec_columns(*self) =~= out@);
                }
            },
            FilterExpr::Binary(_, l, r) => {
                (&**l).collect_columns(out);
                (&**r).collect_columns(out);
                proof {
                    assert(old(out)@ + spec_columns(*self) =~= out@);
                }
            },
        }
    }

    /// Rewrites every column leaf through the column map; `None` when some
    /// column has no entry.
    pub fn rewrite_columns(&self, pairs: &Vec<(usize, usize)>) -> (r: Option<FilterExpr>)
        ensures
            (r is Some) == spec_mappable(*self, pairs@),
            r matches Some(out) ==> spec_rewrites_to(*self, pairs@, out),
        decreases *self,
    {
        match self {
            FilterExpr::Column(c) => match map_lookup(pairs, *c) {
                Some(m) => Some(FilterExpr::Column(m)),
                None => None,
            },
            FilterExpr::Literal(v) => Some(FilterExpr::Literal(*v)),
            FilterExpr::Binary(op, l, r) => {
                let lo = match (&**l).rewrite_columns(pairs) {
                    Some(x) => x,
                    None => {
                        return None;
                    },
                };
                let ro = match (&**r).rewrite_columns(pairs) {
                    Some(x) => x,
                    None => {
                        return None;
                    },
                };
                Some(FilterExpr::Binary(*op, Box::new(lo), Box::new(ro)))
            },
        }
    }

    /// Whether `self` occurs verbatim as a subtree of `hay`.
    pub fn is_subtree_of(&self, hay: &FilterExpr) -> (r: bool)
        ensures
            r == spec_is_subtree(*self, *hay),
        decreases *hay,
    {
        if self.structural_eq(hay) {
            return true;
        }
        match hay {
            FilterExpr::Binary(_, l, r) => {
                self.is_subtree_of(&**l) || self.is_subtree_of(&**r)
            },
            _ => false,
        }
    }
}

/// Looks `c` up in the ordered column map, first entry wins.
#[verifier::loop_isolation(false)]
pub fn map_lookup(pairs: &Vec<(usize, usize)>, c: usize) -> (r: Option<usize>)
    ensures
        r == spec_map_lookup(pairs@, c),
{
    proof {
        assert(pairs@.skip(0) =~= pairs@);
    }
    let mut j: usize = 0;
    while j < pairs.len()
        invariant
            j <= pairs.len(),
            spec_map_lookup(pairs@, c) == spec_map_lookup(pairs@.skip(j as int), c),
        decreases pairs.len() - j,
    {
        let p = pairs[j];
        proof {
            assert(pairs@.skip(j as int)[0] == pairs@[j as int]);
            assert(pairs@.skip(j as int).drop_first() =~= pairs@.skip(j as int + 1));
        }
        if p.0 == c {
            return Some(p.1);
        }
        j += 1;
    }
    proof {
        assert(pairs@.skip(pairs@.len() as int).len() == 0);
    }
    None
}

} // verus!
