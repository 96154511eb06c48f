//! The join filter: an expression over the intermediate schema together
//! with the mapping from intermediate positions to input columns, and the
//! projections and column maps derived from it.

use vstd::prelude::*;
use crate::batch::ModelBatch;
use crate::expr::FilterExpr;
use crate::scalar::ScalarVal;
use crate::types::JoinSide;
use crate::StreamJoinError;

verus! {

/// For one position of the intermediate schema: which side and which input
/// column the value originates from.
#[derive(Clone, Copy, Debug, PartialEq, Eq, Structural)]
pub struct ColumnIndex {
    pub index: usize,
    pub side: JoinSide,
}

/// A join filter: the filter expression, over the intermediate schema, and
/// the origin of each intermediate position.
#[derive(Debug)]
pub struct JoinFilter {
    pub expression: FilterExpr,
    pub column_indices: Vec<ColumnIndex>,
}

/// Whether every intermediate position of `side` maps to a column the batch
/// actually has.
pub open spec fn spec_project_ok(cols: Seq<ColumnIndex>, side: JoinSide, batch: ModelBatch) -> bool {
    forall|j: int|
        0 <= j < cols.len() && (#[trigger] cols[j]).side == side ==> cols[j].index
            < batch.columns@.len()
}

/// Row `i` of the batch projected onto the intermediate positions of
/// `side`, in intermediate-schema order: the row the side's rewritten
/// filter expressions are evaluated against.
pub open spec fn spec_projected_row(
    cols: Seq<ColumnIndex>,
    side: JoinSide,
    batch: ModelBatch,
    i: int,
) -> Seq<ScalarVal>
    decreases cols.len(),
{
    if cols.len() == 0 {
        Seq::empty()
    } else {
        spec_projected_row(cols.drop_last(), side, batch, i) + (if cols.last().side == side {
            seq![batch.columns@[cols.last().index as int]@[i]]
        } else {
            Seq::<ScalarVal>::empty()
        })
    }
}

/// Projects row `row` of `batch` onto the intermediate positions of `side`.
/// A position naming a column the batch lacks is a missing-column error.
#[verifier::loop_isolation(false)]
pub fn project_row(
    cols: &Vec<ColumnIndex>,
    side: JoinSide,
    batch: &ModelBatch,
    row: usize,
) -> (r: Result<Vec<ScalarVal>, StreamJoinError>)
    requires
        batch.wf(),
        row < batch.num_rows,
    ensures
        (match r {
            Ok(v) => spec_project_ok(cols@, side, *batch) && v@ == spec_projected_row(
                cols@,
                side,
                *batch,
                row as int,
            ),
            Err(e) => e == StreamJoinError::ColumnNotFound && !spec_project_ok(
                cols@,
                side,
                *batch,
            ),
        }),
{
    let mut out: Vec<ScalarVal> = Vec::new();
    let mut j: usize = 0;
    while j < cols.len()
        invariant
            j <= cols@.len(),
            out@ == spec_projected_row(cols@.take(j as int), side, *batch, row as int),
            forall|k: int|
                0 <= k < j && (#[trigger] cols@[k]).side == side ==> cols@[k].index
                    < batch.columns@.len(),
        decreases cols.len() - j,
    {
        let ci = cols[j];
        if ci.side == side {
            if ci.index >= batch.columns.len() {
                return Err(StreamJoinError::ColumnNotFound);
            }
            let column = &batch.columns[ci.index];
            out.push(column[row]);
        }
        proof {
            assert(cols@.take(j as int + 1).drop_last() =~= cols@.take(j as int));
            assert(cols@.take(j as int + 1).last() == cols@[j as int]);
            assert(spec_projected_row(cols@.take(j as int + 1), side, *batch, row as int) =~= out@);
        }
        j += 1;
    }
    proof {
        assert(cols@.take(cols@.len() as int) =~= cols@);
    }
    Ok(out)
}

/// How many positions before `upto` belong to `side`: the subset rank of
/// position `upto` within its side.
pub open spec fn spec_side_count(cols: Seq<ColumnIndex>, side: JoinSide, upto: int) -> int
    decreases upto,
{
    if upto <= 0 {
        0
    } else {
        spec_side_count(cols, side, upto - 1) + (if 0 <= upto - 1 < cols.len() && cols[upto
            - 1].side == side {
            1int
        } else {
            0int
        })
    }
}

/// The map from a side's input columns to their positions in the
/// intermediate schema, built by walking the positions in order; with a
/// repeated input column the first position wins on lookup.
pub open spec fn spec_global_map(cols: Seq<ColumnIndex>, side: JoinSide) -> Seq<(usize, usize)>
    decreases cols.len(),
{
    if cols.len() == 0 {
        Seq::empty()
    } else {
        spec_global_map(cols.drop_last(), side) + (if cols.last().side == side {
            seq![(cols.last().index, (cols.len() - 1) as usize)]
        } else {
            Seq::<(usize, usize)>::empty()
        })
    }
}

/// The map from a side's input columns to their positions within the
/// side's subset of the intermediate schema (column order preserved).
pub open spec fn spec_subset_map(cols: Seq<ColumnIndex>, side: JoinSide) -> Seq<(usize, usize)>
    decreases cols.len(),
{
    if cols.len() == 0 {
        Seq::empty()
    } else {
        spec_subset_map(cols.drop_last(), side) + (if cols.last().side == side {
            seq![(cols.last().index, spec_side_count(cols, side, cols.len() - 1) as usize)]
        } else {
            Seq::<(usize, usize)>::empty()
        })
    }
}

/// Counting side positions in a prefix ignores what follows the prefix.
proof fn lemma_side_count_take(cols: Seq<ColumnIndex>, side: JoinSide, m: int, k: int)
    requires
        0 <= k,
        k <= m,
        m <= cols.len(),
    ensures
        spec_side_count(cols.take(m), side, k) == spec_side_count(cols, side, k),
    decreases k,
{
    if k > 0 {
        lemma_side_count_take(cols, side, m, k - 1);
        assert(cols.take(m)[k - 1] == cols[k - 1]);
    }
}

/// Builds both column maps of `side`: input column to intermediate
/// position, and input column to position within the side's subset of the
/// intermediate schema.
#[verifier::loop_isolation(false)]
pub fn build_column_maps(cols: &Vec<ColumnIndex>, side: JoinSide) -> (r: (
    Vec<(usize, usize)>,
    Vec<(usize, usize)>,
))
    ensures
        r.0@ == spec_global_map(cols@, side),
        r.1@ == spec_subset_map(cols@, side),
{
    let mut global_map: Vec<(usize, usize)> = Vec::new();
    let mut subset_map: Vec<(usize, usize)> = Vec::new();
    let mut rank: usize = 0;
    let mut j: usize = 0;
    while j < cols.len()
        invariant
            j <= cols@.len(),
            rank as int == spec_side_count(cols@, side, j as int),
            rank <= j,
            global_map@ == spec_global_map(cols@.take(j as int), side),
            subset_map@ == spec_subset_map(cols@.take(j as int), side),
        decreases cols.len() - j,
    {
        let ci = cols[j];
        if ci.side == side {
            global_map.push((ci.index, j));
            subset_map.push((ci.index, rank));
            rank += 1;
        }
        proof {
            assert(cols@.take(j as int + 1).drop_last() =~= cols@.take(j as int));
            assert(cols@.take(j as int + 1).last() == cols@[j as int]);
            lemma_side_count_take(cols@, side, j as int + 1, j as int);
            assert(spec_global_map(cols@.take(j as int + 1), side) =~= global_map@);
            assert(spec_subset_map(cols@.take(j as int + 1), side) =~= subset_map@);
        }
        j += 1;
    }
    proof {
        assert(cols@.take(cols@.len() as int) =~= cols@);
    }
    (global_map, subset_map)
}

} // verus!
