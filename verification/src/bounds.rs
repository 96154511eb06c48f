//! Interval tracking for the sliding-window join: batch suitability, filter
//! expression bounds, the graph round trip that shrinks the build-side
//! range, and the sliding-window completion check.

use vstd::prelude::*;
use crate::batch::ModelBatch;
use crate::expr::spec_eval;
use crate::filter::{spec_project_ok, spec_projected_row, project_row, JoinFilter};
use crate::interval::{Interval, IntervalBound};
use crate::scalar::ScalarVal;
use crate::sorted_expr::{SortExpr, SortedFilterExpr};
use crate::types::JoinSide;
use crate::StreamJoinError;

verus! {

/// Evaluates each sorted filter expression's intermediate form on one
/// projected row; the first error, in expression order, wins.
pub open spec fn spec_eval_exprs(exprs: Seq<SortedFilterExpr>, row: Seq<ScalarVal>) -> Result<
    Seq<ScalarVal>,
    StreamJoinError,
>
    decreases exprs.len(),
{
    if exprs.len() == 0 {
        Ok(Seq::empty())
    } else {
        match spec_eval_exprs(exprs.drop_last(), row) {
            Err(e) => Err(e),
            Ok(vals) => match spec_eval(exprs.last().spec_intermediate_expr(), row) {
                Err(e) => Err(e),
                Ok(v) => Ok(vals.push(v)),
            },
        }
    }
}

/// Determines whether a batch is suitable for interval calculations: it
/// must be non-empty, and every sorted filter expression must evaluate to a
/// non-null scalar on its final row, projected onto `build_side`'s
/// intermediate positions.
#[verifier::loop_isolation(false)]
pub fn is_batch_suitable_interval_calculation(
    filter: &JoinFilter,
    probe_sorted_filter_exprs: &Vec<SortedFilterExpr>,
    batch: &ModelBatch,
    build_side: JoinSide,
) -> (r: Result<bool, StreamJoinError>)
    requires
        batch.wf(),
    ensures
        (match r {
            Ok(b) => {
                &&& (batch.num_rows == 0 ==> b == false)
                &&& (batch.num_rows > 0 ==> spec_project_ok(
                    filter.column_indices@,
                    build_side,
                    *batch,
                ))
                &&& (batch.num_rows > 0 ==> (spec_eval_exprs(
                    probe_sorted_filter_exprs@,
                    spec_projected_row(
                        filter.column_indices@,
                        build_side,
                        *batch,
                        batch.num_rows - 1,
                    ),
                ) matches Ok(vals) && b == (forall|k: int|
                    0 <= k < vals.len() ==> !(#[trigger] vals[k]).spec_is_null())))
            },
            Err(e) => {
                &&& batch.num_rows > 0
                &&& {
                    if !spec_project_ok(filter.column_indices@, build_side, *batch) {
                        e == StreamJoinError::ColumnNotFound
                    } else {
                        spec_eval_exprs(
                            probe_sorted_filter_exprs@,
                            spec_projected_row(
                                filter.column_indices@,
                                build_side,
                                *batch,
                                batch.num_rows - 1,
                            ),
                        ) == Err::<Seq<ScalarVal>, StreamJoinError>(e)
                    }
                }
            },
        }),
{
    if batch.num_rows == 0 {
        return Ok(false);
    }
    let row = match project_row(&filter.column_indices, build_side, batch, batch.num_rows - 1) {
        Ok(v) => v,
        Err(e) => {
            return Err(e);
        },
    };
    let ghost rowv = row@;
    let mut all_non_null = true;
    let ghost mut vals = Seq::<ScalarVal>::empty();
    let mut j: usize = 0;
    while j < probe_sorted_filter_exprs.len()
        invariant
            j <= probe_sorted_filter_exprs@.len(),
            spec_eval_exprs(probe_sorted_filter_exprs@.take(j as int), rowv) == Ok::<
                Seq<ScalarVal>,
                StreamJoinError,
            >(vals),
            vals.len() == j,
            all_non_null ==> (forall|k: int| 0 <= k < j ==> !(#[trigger] vals[k]).spec_is_null()),
            !all_non_null ==> (exists|k: int| 0 <= k < j && (#[trigger] vals[k]).spec_is_null()),
        decreases probe_sorted_filter_exprs.len() - j,
    {
        let expr = probe_sorted_filter_exprs[j].intermediate_batch_filter_expr();
        let v = match expr.eval(&row) {
            Ok(v) => v,
            Err(e) => {
                proof {
                    assert(probe_sorted_filter_exprs@.take(j as int + 1).drop_last()
                        =~= probe_sorted_filter_exprs@.take(j as int));
                    assert(probe_sorted_filter_exprs@.take(j as int + 1).last()
                        == probe_sorted_filter_exprs@[j as int]);
                    lemma_eval_exprs_prefix_err(probe_sorted_filter_exprs@, rowv, j as int + 1, e);
                }
                return Err(e);
            },
        };
        if v.is_null() {
            all_non_null = false;
        }
        proof {
            assert(probe_sorted_filter_exprs@.take(j as int + 1).drop_last()
                =~= probe_sorted_filter_exprs@.take(j as int));
            assert(probe_sorted_filter_exprs@.take(j as int + 1).last()
                == probe_sorted_filter_exprs@[j as int]);
            let vals0 = vals;
            vals = vals.push(v);
            assert forall|k: int| 0 <= k < j as int + 1 implies #[trigger] vals[k] == (if k
                < j as int {
                vals0[k]
            } else {
                v
            }) by {}
            assert(vals[j as int] == v);
            if !all_non_null {
                if v.spec_is_null() {
                    assert((j as int) < vals.len() && vals[j as int].spec_is_null());
                } else {
                    let k0 = choose|k: int|
                        0 <= k < j as int && (#[trigger] vals0[k]).spec_is_null();
                    assert(vals[k0].spec_is_null());
                }
            }
        }
        j += 1;
    }
    proof {
        assert(probe_sorted_filter_exprs@.take(probe_sorted_filter_exprs@.len() as int)
            =~= probe_sorted_filter_exprs@);
        if !all_non_null {
            let k = choose|k: int| 0 <= k < vals.len() && (#[trigger] vals[k]).spec_is_null();
            assert(vals[k].spec_is_null());
            assert(!(forall|k: int| 0 <= k < vals.len() ==> !(#[trigger] vals[k]).spec_is_null()));
        }
        assert(spec_eval_exprs(probe_sorted_filter_exprs@, rowv) == Ok::<
            Seq<ScalarVal>,
            StreamJoinError,
        >(vals));
        assert(rowv == spec_projected_row(
            filter.column_indices@,
            build_side,
            *batch,
            batch.num_rows - 1,
        ));
        assert(all_non_null == (forall|k: int|
            0 <= k < vals.len() ==> !(#[trigger] vals[k]).spec_is_null()));
        let tmp = spec_eval_exprs(
            probe_sorted_filter_exprs@,
            spec_projected_row(filter.column_indices@, build_side, *batch, batch.num_rows - 1),
        );
        assert(tmp == Ok::<Seq<ScalarVal>, StreamJoinError>(vals));
        let vals2 = tmp.unwrap();
        assert(vals2 == vals);
        if all_non_null {
            assert forall|k: int| 0 <= k < vals2.len() implies !(#[trigger] vals2[k]).spec_is_null() by {
                assert(vals2[k] == vals[k]);
            }
        } else {
            let k0 = choose|k: int| 0 <= k < vals.len() && (#[trigger] vals[k]).spec_is_null();
            assert(vals2[k0].spec_is_null());
            assert(!(forall|k: int| 0 <= k < vals2.len() ==> !(#[trigger] vals2[k]).spec_is_null()));
        }
        assert(tmp matches Ok(v2) && all_non_null == (forall|k: int|
            0 <= k < v2.len() ==> !(#[trigger] v2[k]).spec_is_null()));
    }
    Ok(all_non_null)
}

/// An error on a prefix of the expressions is the whole run's error.
proof fn lemma_eval_exprs_prefix_err(
    exprs: Seq<SortedFilterExpr>,
    row: Seq<ScalarVal>,
    j: int,
    e: StreamJoinError,
)
    requires
        0 <= j <= exprs.len(),
        spec_eval_exprs(exprs.take(j), row) == Err::<Seq<ScalarVal>, StreamJoinError>(e),
    ensures
        spec_eval_exprs(exprs, row) == Err::<Seq<ScalarVal>, StreamJoinError>(e),
    decreases exprs.len() - j,
{
    if j < exprs.len() {
        assert(exprs.take(j + 1).drop_last() =~= exprs.take(j));
        assert(exprs.take(j + 1).last() == exprs[j]);
        lemma_eval_exprs_prefix_err(exprs, row, j + 1, e);
    } else {
        assert(exprs.take(j) =~= exprs);
    }
}

/// The interval a probe batch implies for one sorted filter expression:
/// `[first, last]` for an ascending sort, `[last, first]` for a descending
/// one, both endpoints open since further values may equal them.
pub open spec fn spec_probe_interval(first: ScalarVal, last: ScalarVal, descending: bool) -> Interval {
    if descending {
        Interval {
            lower: IntervalBound { value: last, open: true },
            upper: IntervalBound { value: first, open: true },
        }
    } else {
        Interval {
            lower: IntervalBound { value: first, open: true },
            upper: IntervalBound { value: last, open: true },
        }
    }
}

/// Evaluates each expression's intermediate form on the first and the last
/// projected row, expression by expression, first and then last row; the
/// first error in that order wins.
pub open spec fn spec_eval_expr_pairs(
    exprs: Seq<SortedFilterExpr>,
    first_row: Seq<ScalarVal>,
    last_row: Seq<ScalarVal>,
) -> Result<Seq<(ScalarVal, ScalarVal)>, StreamJoinError>
    decreases exprs.len(),
{
    if exprs.len() == 0 {
        Ok(Seq::empty())
    } else {
        match spec_eval_expr_pairs(exprs.drop_last(), first_row, last_row) {
            Err(e) => Err(e),
            Ok(pairs) => match spec_eval(exprs.last().spec_intermediate_expr(), first_row) {
                Err(e) => Err(e),
                Ok(fv) => match spec_eval(exprs.last().spec_intermediate_expr(), last_row) {
                    Err(e) => Err(e),
                    Ok(lv) => Ok(pairs.push((fv, lv))),
                },
            },
        }
    }
}

/// One expression updated with a fresh interval, everything else kept.
pub open spec fn spec_same_but_interval(
    before: SortedFilterExpr,
    after: SortedFilterExpr,
    interval: Interval,
) -> bool {
    &&& after.spec_origin_expr() == before.spec_origin_expr()
    &&& after.spec_descending() == before.spec_descending()
    &&& after.spec_filter_expr() == before.spec_filter_expr()
    &&& after.spec_intermediate_expr() == before.spec_intermediate_expr()
    &&& after.spec_node_index() == before.spec_node_index()
    &&& after.spec_interval() == interval
}

/// Updates the filter expression bounds on both sides from a fresh probe
/// batch. Build-side expressions get the point-null interval — their future
/// rows are unknown, so the buffered build rows contribute nothing here;
/// each probe-side expression gets the interval spanned by its values on
/// the first and last probe row, per its sort direction, with open
/// endpoints. On any error nothing is changed.
#[verifier::loop_isolation(false)]
#[allow(unused_variables)]
pub fn update_filter_expr_bounds(
    filter: &JoinFilter,
    build_inner_buffer: &ModelBatch,
    build_sorted_filter_exprs: &mut Vec<SortedFilterExpr>,
    probe_batch: &ModelBatch,
    probe_sorted_filter_exprs: &mut Vec<SortedFilterExpr>,
    probe_side: JoinSide,
) -> (r: Result<(), StreamJoinError>)
    requires
        probe_batch.wf(),
        probe_batch.num_rows >= 1,
    ensures
        (match r {
            Ok(()) => {
                &&& spec_project_ok(filter.column_indices@, probe_side, *probe_batch)
                &&& final(build_sorted_filter_exprs)@.len() == old(build_sorted_filter_exprs)@.len()
                &&& (forall|i: int|
                    0 <= i < old(build_sorted_filter_exprs)@.len() ==> spec_same_but_interval(
                        old(build_sorted_filter_exprs)@[i],
                        #[trigger] final(build_sorted_filter_exprs)@[i],
                        Interval::spec_point_null(),
                    ))
                &&& final(probe_sorted_filter_exprs)@.len() == old(probe_sorted_filter_exprs)@.len()
                &&& {
                    let first_row = spec_projected_row(
                        filter.column_indices@,
                        probe_side,
                        *probe_batch,
                        0,
                    );
                    let last_row = spec_projected_row(
                        filter.column_indices@,
                        probe_side,
                        *probe_batch,
                        probe_batch.num_rows - 1,
                    );
                    match spec_eval_expr_pairs(old(probe_sorted_filter_exprs)@, first_row, last_row) {
                        Ok(pairs) => forall|i: int|
                            0 <= i < old(probe_sorted_filter_exprs)@.len()
                                ==> spec_same_but_interval(
                                old(probe_sorted_filter_exprs)@[i],
                                #[trigger] final(probe_sorted_filter_exprs)@[i],
                                spec_probe_interval(
                                    pairs[i].0,
                                    pairs[i].1,
                                    old(probe_sorted_filter_exprs)@[i].spec_descending(),
                                ),
                            ),
                        Err(_) => false,
                    }
                }
            },
            Err(e) => {
                &&& final(build_sorted_filter_exprs)@ == old(build_sorted_filter_exprs)@
                &&& final(probe_sorted_filter_exprs)@ == old(probe_sorted_filter_exprs)@
                &&& {
                    if !spec_project_ok(filter.column_indices@, probe_side, *probe_batch) {
                        e == StreamJoinError::ColumnNotFound
                    } else {
                        spec_eval_expr_pairs(
                            old(probe_sorted_filter_exprs)@,
                            spec_projected_row(filter.column_indices@, probe_side, *probe_batch, 0),
                            spec_projected_row(
                                filter.column_indices@,
                                probe_side,
                                *probe_batch,
                                probe_batch.num_rows - 1,
                            ),
                        ) == Err::<Seq<(ScalarVal, ScalarVal)>, StreamJoinError>(e)
                    }
                }
            },
        }),
{
    let first_row = match project_row(&filter.column_indices, probe_side, probe_batch, 0) {
        Ok(v) => v,
        Err(e) => {
            return Err(e);
        },
    };
    let last_row = match project_row(
        &filter.column_indices,
        probe_side,
        probe_batch,
        probe_batch.num_rows - 1,
    ) {
        Ok(v) => v,
        Err(e) => {
            return Err(e);
        },
    };
    // Evaluate everything before committing any update, so that an error
    // leaves both expression arrays exactly as they were.
    let mut pairs: Vec<(ScalarVal, ScalarVal)> = Vec::new();
    let mut j: usize = 0;
    while j < probe_sorted_filter_exprs.len()
        invariant
            j <= probe_sorted_filter_exprs@.len(),
            spec_eval_expr_pairs(probe_sorted_filter_exprs@.take(j as int), first_row@, last_row@)
                == Ok::<Seq<(ScalarVal, ScalarVal)>, StreamJoinError>(pairs@),
            pairs@.len() == j,
        decreases probe_sorted_filter_exprs.len() - j,
    {
        let expr = probe_sorted_filter_exprs[j].intermediate_batch_filter_expr();
        proof {
            assert(probe_sorted_filter_exprs@.take(j as int + 1).drop_last()
                =~= probe_sorted_filter_exprs@.take(j as int));
            assert(probe_sorted_filter_exprs@.take(j as int + 1).last()
                == probe_sorted_filter_exprs@[j as int]);
        }
        let fv = match expr.eval(&first_row) {
            Ok(v) => v,
            Err(e) => {
                proof {
                    lemma_eval_expr_pairs_prefix_err(
                        probe_sorted_filter_exprs@,
                        first_row@,
                        last_row@,
                        j as int + 1,
                        e,
                    );
                }
                return Err(e);
            },
        };
        let lv = match expr.eval(&last_row) {
            Ok(v) => v,
            Err(e) => {
                proof {
                    lemma_eval_expr_pairs_prefix_err(
                        probe_sorted_filter_exprs@,
                        first_row@,
                        last_row@,
                        j as int + 1,
                        e,
                    );
                }
                return Err(e);
            },
        };
        pairs.push((fv, lv));
        j += 1;
    }
    proof {
        assert(probe_sorted_filter_exprs@.take(probe_sorted_filter_exprs@.len() as int)
            =~= probe_sorted_filter_exprs@);
    }
    // Commit: the build side gets the point-null interval.
    let mut new_build: Vec<SortedFilterExpr> = Vec::new();
    let mut j: usize = 0;
    while j < build_sorted_filter_exprs.len()
        invariant
            j <= build_sorted_filter_exprs@.len(),
            build_sorted_filter_exprs@ == old(build_sorted_filter_exprs)@,
            new_build@.len() == j,
            forall|i: int|
                0 <= i < j ==> spec_same_but_interval(
                    old(build_sorted_filter_exprs)@[i],
                    #[trigger] new_build@[i],
                    Interval::spec_point_null(),
                ),
        decreases build_sorted_filter_exprs.len() - j,
    {
        let updated = build_sorted_filter_exprs[j].cloned_with_interval(Interval::point_null());
        new_build.push(updated);
        j += 1;
    }
    *build_sorted_filter_exprs = new_build;
    // The probe side gets its batch-derived intervals.
    let mut new_probe: Vec<SortedFilterExpr> = Vec::new();
    let mut j: usize = 0;
    while j < probe_sorted_filter_exprs.len()
        invariant
            j <= probe_sorted_filter_exprs@.len(),
            probe_sorted_filter_exprs@ == old(probe_sorted_filter_exprs)@,
            pairs@.len() == probe_sorted_filter_exprs@.len(),
            spec_eval_expr_pairs(probe_sorted_filter_exprs@, first_row@, last_row@) == Ok::<
                Seq<(ScalarVal, ScalarVal)>,
                StreamJoinError,
            >(pairs@),
            new_probe@.len() == j,
            forall|i: int|
                0 <= i < j ==> spec_same_but_interval(
                    old(probe_sorted_filter_exprs)@[i],
                    #[trigger] new_probe@[i],
                    spec_probe_interval(
                        pairs@[i].0,
                        pairs@[i].1,
                        old(probe_sorted_filter_exprs)@[i].spec_descending(),
                    ),
                ),
        decreases probe_sorted_filter_exprs.len() - j,
    {
        let descending = probe_sorted_filter_exprs[j].descending();
        let pair = pairs[j];
        let interval = if descending {
            Interval {
                lower: IntervalBound { value: pair.1, open: true },
                upper: IntervalBound { value: pair.0, open: true },
            }
        } else {
            Interval {
                lower: IntervalBound { value: pair.0, open: true },
                upper: IntervalBound { value: pair.1, open: true },
            }
        };
        let updated = probe_sorted_filter_exprs[j].cloned_with_interval(interval);
        new_probe.push(updated);
        j += 1;
    }
    *probe_sorted_filter_exprs = new_probe;
    Ok(())
}

/// The half-unbounded interval the graph receives for a build-side
/// expression: everything from the first buffered value on (ascending), or
/// everything up to it (descending). A null scalar stands for the unbounded
/// endpoint.
pub open spec fn spec_build_graph_interval(first: ScalarVal, descending: bool) -> Interval {
    if descending {
        Interval {
            lower: IntervalBound { value: ScalarVal::Null, open: true },
            upper: IntervalBound { value: first, open: true },
        }
    } else {
        Interval {
            lower: IntervalBound { value: first, open: true },
            upper: IntervalBound { value: ScalarVal::Null, open: true },
        }
    }
}

/// The half-unbounded interval the graph receives for a probe-side
/// expression: everything up to the last seen value (ascending), or
/// everything from it on (descending).
pub open spec fn spec_probe_graph_interval(last: ScalarVal, descending: bool) -> Interval {
    if descending {
        Interval {
            lower: IntervalBound { value: last, open: true },
            upper: IntervalBound { value: ScalarVal::Null, open: true },
        }
    } else {
        Interval {
            lower: IntervalBound { value: ScalarVal::Null, open: true },
            upper: IntervalBound { value: last, open: true },
        }
    }
}

/// Recomputes the filter intervals handed to the interval graph: each
/// build-side expression gets the half-range from its value on the first
/// buffered build row, each probe-side expression the half-range up to its
/// value on the last probe row, oriented by the sort direction. The graph
/// then propagates these inward; what falls outside the shrunk build range
/// is provably unjoinable. On any error nothing is changed.
#[verifier::loop_isolation(false)]
pub fn recompute_filter_intervals(
    filter: &JoinFilter,
    build_inner_buffer: &ModelBatch,
    build_sorted_filter_exprs: &mut Vec<SortedFilterExpr>,
    probe_batch: &ModelBatch,
    probe_sorted_filter_exprs: &mut Vec<SortedFilterExpr>,
    build_side: JoinSide,
) -> (r: Result<(), StreamJoinError>)
    requires
        build_inner_buffer.wf(),
        build_inner_buffer.num_rows >= 1,
        probe_batch.wf(),
        probe_batch.num_rows >= 1,
    ensures
        (match r {
            Ok(()) => {
                &&& spec_project_ok(filter.column_indices@, build_side, *build_inner_buffer)
                &&& spec_project_ok(
                    filter.column_indices@,
                    (match build_side {
                        JoinSide::Left => JoinSide::Right,
                        JoinSide::Right => JoinSide::Left,
                    }),
                    *probe_batch,
                )
                &&& final(build_sorted_filter_exprs)@.len() == old(build_sorted_filter_exprs)@.len()
                &&& final(probe_sorted_filter_exprs)@.len() == old(probe_sorted_filter_exprs)@.len()
                &&& (spec_eval_exprs(
                    old(build_sorted_filter_exprs)@,
                    spec_projected_row(filter.column_indices@, build_side, *build_inner_buffer, 0),
                ) matches Ok(bvals) && forall|i: int|
                    0 <= i < old(build_sorted_filter_exprs)@.len() ==> spec_same_but_interval(
                        old(build_sorted_filter_exprs)@[i],
                        #[trigger] final(build_sorted_filter_exprs)@[i],
                        spec_build_graph_interval(
                            bvals[i],
                            old(build_sorted_filter_exprs)@[i].spec_descending(),
                        ),
                    ))
                &&& (spec_eval_exprs(
                    old(probe_sorted_filter_exprs)@,
                    spec_projected_row(
                        filter.column_indices@,
                        (match build_side {
                            JoinSide::Left => JoinSide::Right,
                            JoinSide::Right => JoinSide::Left,
                        }),
                        *probe_batch,
                        probe_batch.num_rows - 1,
                    ),
                ) matches Ok(pvals) && forall|i: int|
                    0 <= i < old(probe_sorted_filter_exprs)@.len() ==> spec_same_but_interval(
                        old(probe_sorted_filter_exprs)@[i],
                        #[trigger] final(probe_sorted_filter_exprs)@[i],
                        spec_probe_graph_interval(
                            pvals[i],
                            old(probe_sorted_filter_exprs)@[i].spec_descending(),
                        ),
                    ))
            },
            Err(e) => {
                &&& final(build_sorted_filter_exprs)@ == old(build_sorted_filter_exprs)@
                &&& final(probe_sorted_filter_exprs)@ == old(probe_sorted_filter_exprs)@
                &&& {
                    let probe_side = (match build_side {
                        JoinSide::Left => JoinSide::Right,
                        JoinSide::Right => JoinSide::Left,
                    });
                    let build_row = spec_projected_row(
                        filter.column_indices@,
                        build_side,
                        *build_inner_buffer,
                        0,
                    );
                    let probe_row = spec_projected_row(
                        filter.column_indices@,
                        probe_side,
                        *probe_batch,
                        probe_batch.num_rows - 1,
                    );
                    if !spec_project_ok(filter.column_indices@, build_side, *build_inner_buffer) {
                        e == StreamJoinError::ColumnNotFound
                    } else if !spec_project_ok(filter.column_indices@, probe_side, *probe_batch) {
                        e == StreamJoinError::ColumnNotFound
                    } else if spec_eval_exprs(old(build_sorted_filter_exprs)@, build_row) is Err {
                        spec_eval_exprs(old(build_sorted_filter_exprs)@, build_row) == Err::<
                            Seq<ScalarVal>,
                            StreamJoinError,
                        >(e)
                    } else {
                        spec_eval_exprs(old(probe_sorted_filter_exprs)@, probe_row) == Err::<
                            Seq<ScalarVal>,
                            StreamJoinError,
                        >(e)
                    }
                }
            },
        }),
{
    let probe_side = build_side.negate();
    let build_row = match project_row(&filter.column_indices, build_side, build_inner_buffer, 0) {
        Ok(v) => v,
        Err(e) => {
            return Err(e);
        },
    };
    let probe_row = match project_row(
        &filter.column_indices,
        probe_side,
        probe_batch,
        probe_batch.num_rows - 1,
    ) {
        Ok(v) => v,
        Err(e) => {
            return Err(e);
        },
    };
    let bvals = match eval_expr_values(build_sorted_filter_exprs, &build_row) {
        Ok(v) => v,
        Err(e) => {
            return Err(e);
        },
    };
    let pvals = match eval_expr_values(probe_sorted_filter_exprs, &probe_row) {
        Ok(v) => v,
        Err(e) => {
            return Err(e);
        },
    };
    let mut new_build: Vec<SortedFilterExpr> = Vec::new();
    let mut j: usize = 0;
    while j < build_sorted_filter_exprs.len()
        invariant
            j <= build_sorted_filter_exprs@.len(),
            build_sorted_filter_exprs@ == old(build_sorted_filter_exprs)@,
            bvals@.len() == build_sorted_filter_exprs@.len(),
            spec_eval_exprs(build_sorted_filter_exprs@, build_row@) == Ok::<
                Seq<ScalarVal>,
                StreamJoinError,
            >(bvals@),
            new_build@.len() == j,
            forall|i: int|
                0 <= i < j ==> spec_same_but_interval(
                    old(build_sorted_filter_exprs)@[i],
                    #[trigger] new_build@[i],
                    spec_build_graph_interval(
                        bvals@[i],
                        old(build_sorted_filter_exprs)@[i].spec_descending(),
                    ),
                ),
        decreases build_sorted_filter_exprs.len() - j,
    {
        let descending = build_sorted_filter_exprs[j].descending();
        let v = bvals[j];
        let interval = if descending {
            Interval {
                lower: IntervalBound { value: ScalarVal::Null, open: true },
                upper: IntervalBound { value: v, open: true },
            }
        } else {
            Interval {
                lower: IntervalBound { value: v, open: true },
                upper: IntervalBound { value: ScalarVal::Null, open: true },
            }
        };
        new_build.push(build_sorted_filter_exprs[j].cloned_with_interval(interval));
        j += 1;
    }
    *build_sorted_filter_exprs = new_build;
    let mut new_probe: Vec<SortedFilterExpr> = Vec::new();
    let mut j: usize = 0;
    while j < probe_sorted_filter_exprs.len()
        invariant
            j <= probe_sorted_filter_exprs@.len(),
            probe_sorted_filter_exprs@ == old(probe_sorted_filter_exprs)@,
            pvals@.len() == probe_sorted_filter_exprs@.len(),
            spec_eval_exprs(probe_sorted_filter_exprs@, probe_row@) == Ok::<
                Seq<ScalarVal>,
                StreamJoinError,
            >(pvals@),
            new_probe@.len() == j,
            forall|i: int|
                0 <= i < j ==> spec_same_but_interval(
                    old(probe_sorted_filter_exprs)@[i],
                    #[trigger] new_probe@[i],
                    spec_probe_graph_interval(
                        pvals@[i],
                        old(probe_sorted_filter_exprs)@[i].spec_descending(),
                    ),
                ),
        decreases probe_sorted_filter_exprs.len() - j,
    {
        let descending = probe_sorted_filter_exprs[j].descending();
        let v = pvals[j];
        let interval = if descending {
            Interval {
                lower: IntervalBound { value: v, open: true },
                upper: IntervalBound { value: ScalarVal::Null, open: true },
            }
        } else {
            Interval {
                lower: IntervalBound { value: ScalarVal::Null, open: true },
                upper: IntervalBound { value: v, open: true },
            }
        };
        new_probe.push(probe_sorted_filter_exprs[j].cloned_with_interval(interval));
        j += 1;
    }
    *probe_sorted_filter_exprs = new_probe;
    Ok(())
}

/// Evaluates each expression's intermediate form on one row, collecting
/// the scalars; the first error, in expression order, wins.
#[verifier::loop_isolation(false)]
fn eval_expr_values(exprs: &Vec<SortedFilterExpr>, row: &Vec<ScalarVal>) -> (r: Result<
    Vec<ScalarVal>,
    StreamJoinError,
>)
    ensures
        (match r {
            Ok(vals) => spec_eval_exprs(exprs@, row@) == Ok::<Seq<ScalarVal>, StreamJoinError>(
                vals@,
            ) && vals@.len() == exprs@.len(),
            Err(e) => spec_eval_exprs(exprs@, row@) == Err::<Seq<ScalarVal>, StreamJoinError>(e),
        }),
{
    let mut vals: Vec<ScalarVal> = Vec::new();
    let mut j: usize = 0;
    while j < exprs.len()
        invariant
            j <= exprs@.len(),
            vals@.len() == j,
            spec_eval_exprs(exprs@.take(j as int), row@) == Ok::<Seq<ScalarVal>, StreamJoinError>(
                vals@,
            ),
        decreases exprs.len() - j,
    {
        proof {
            assert(exprs@.take(j as int + 1).drop_last() =~= exprs@.take(j as int));
            assert(exprs@.take(j as int + 1).last() == exprs@[j as int]);
        }
        let v = match exprs[j].intermediate_batch_filter_expr().eval(row) {
            Ok(v) => v,
            Err(e) => {
                proof {
                    lemma_eval_exprs_prefix_err(exprs@, row@, j as int + 1, e);
                }
                return Err(e);
            },
        };
        vals.push(v);
        j += 1;
    }
    proof {
        assert(exprs@.take(exprs@.len() as int) =~= exprs@);
    }
    Ok(vals)
}

/// The expression interval graph, an external collaborator: it propagates
/// per-node intervals through the filter expression's graph and reports the
/// deepest nodes usable for pruning. Nothing is assumed of its results; the
/// callers state what holds whatever it returns.
pub trait IntervalGraph {
    /// Shrinks the given (node index, interval) pairs in place.
    fn update_ranges(&mut self, ranges: &mut Vec<(usize, Interval)>) -> Result<
        (),
        StreamJoinError,
    >;

    /// The deepest prunable nodes, as (node index, shrunk interval) pairs.
    fn get_deepest_pruning_exprs(&self) -> Result<Vec<(usize, Interval)>, StreamJoinError>;
}

/// The first sorted filter expression registered under graph node `node`.
pub open spec fn spec_find_by_node(exprs: Seq<SortedFilterExpr>, node: usize) -> Option<
    SortedFilterExpr,
>
    decreases exprs.len(),
{
    if exprs.len() == 0 {
        None
    } else if exprs[0].spec_node_index() == node {
        Some(exprs[0])
    } else {
        spec_find_by_node(exprs.drop_first(), node)
    }
}

/// The build-side selection of the graph's pruning output: each reported
/// node that belongs to a build-side sorted filter expression yields that
/// expression's intermediate-schema sort expression paired with the
/// reported interval; nodes of other expressions are dropped.
pub open spec fn spec_select_build_pruned(
    shrunk: Seq<(usize, Interval)>,
    exprs: Seq<SortedFilterExpr>,
) -> Seq<(SortExpr, Interval)>
    decreases shrunk.len(),
{
    if shrunk.len() == 0 {
        Seq::empty()
    } else {
        spec_select_build_pruned(shrunk.drop_last(), exprs) + (match spec_find_by_node(
            exprs,
            shrunk.last().0,
        ) {
            Some(e) => seq![
                (
                    SortExpr { expr: e.spec_intermediate_expr(), descending: e.spec_descending() },
                    shrunk.last().1,
                ),
            ],
            None => Seq::<(SortExpr, Interval)>::empty(),
        })
    }
}

/// Finds the first sorted filter expression registered under `node`.
#[verifier::loop_isolation(false)]
fn find_by_node(exprs: &Vec<SortedFilterExpr>, node: usize) -> (r: Option<usize>)
    ensures
        (match r {
            Some(i) => i < exprs@.len() && spec_find_by_node(exprs@, node) == Some(exprs@[i as int]),
            None => spec_find_by_node(exprs@, node) is None,
        }),
{
    proof {
        assert(exprs@.skip(0) =~= exprs@);
    }
    let mut j: usize = 0;
    while j < exprs.len()
        invariant
            j <= exprs@.len(),
            spec_find_by_node(exprs@, node) == spec_find_by_node(exprs@.skip(j as int), node),
        decreases exprs.len() - j,
    {
        proof {
            assert(exprs@.skip(j as int)[0] == exprs@[j as int]);
            assert(exprs@.skip(j as int).drop_first() =~= exprs@.skip(j as int + 1));
        }
        if exprs[j].node_index() == node {
            return Some(j);
        }
        j += 1;
    }
    proof {
        assert(exprs@.skip(exprs@.len() as int).len() == 0);
    }
    None
}

/// Keeps, of the graph's pruning output, the pairs whose node belongs to a
/// build-side sorted filter expression, as (sort expression over the build
/// subset of the intermediate schema, shrunk interval).
#[verifier::loop_isolation(false)]
pub fn select_build_side_pruned_exprs(
    shrunk: &Vec<(usize, Interval)>,
    build_sorted_filter_exprs: &Vec<SortedFilterExpr>,
) -> (r: Vec<(SortExpr, Interval)>)
    ensures
        r@ == spec_select_build_pruned(shrunk@, build_sorted_filter_exprs@),
{
    let mut out: Vec<(SortExpr, Interval)> = Vec::new();
    let mut j: usize = 0;
    while j < shrunk.len()
        invariant
            j <= shrunk@.len(),
            out@ == spec_select_build_pruned(shrunk@.take(j as int), build_sorted_filter_exprs@),
        decreases shrunk.len() - j,
    {
        let pair = shrunk[j];
        proof {
            assert(shrunk@.take(j as int + 1).drop_last() =~= shrunk@.take(j as int));
            assert(shrunk@.take(j as int + 1).last() == shrunk@[j as int]);
        }
        match find_by_node(build_sorted_filter_exprs, pair.0) {
            Some(i) => {
                let e = &build_sorted_filter_exprs[i];
                let sort_expr = SortExpr {
                    expr: e.intermediate_batch_filter_expr().deep_clone(),
                    descending: e.descending(),
                };
                out.push((sort_expr, pair.1));
                proof {
                    assert(spec_select_build_pruned(
                        shrunk@.take(j as int + 1),
                        build_sorted_filter_exprs@,
                    ) =~= out@);
                }
            },
            None => {
                proof {
                    assert(spec_select_build_pruned(
                        shrunk@.take(j as int + 1),
                        build_sorted_filter_exprs@,
                    ) =~= out@);
                }
            },
        }
        j += 1;
    }
    proof {
        assert(shrunk@.take(shrunk@.len() as int) =~= shrunk@);
    }
    out
}

/// Collects the (graph node, interval) pairs handed to the interval graph:
/// one pair per build-side expression, in slice order, then one per
/// probe-side expression.
#[verifier::loop_isolation(false)]
pub fn collect_filter_intervals(
    build_sorted_filter_exprs: &Vec<SortedFilterExpr>,
    probe_sorted_filter_exprs: &Vec<SortedFilterExpr>,
) -> (r: Vec<(usize, Interval)>)
    ensures
        r@.len() == build_sorted_filter_exprs@.len() + probe_sorted_filter_exprs@.len(),
        forall|i: int|
            0 <= i < build_sorted_filter_exprs@.len() ==> #[trigger] r@[i] == (
                build_sorted_filter_exprs@[i].spec_node_index(),
                build_sorted_filter_exprs@[i].spec_interval(),
            ),
        forall|i: int|
            0 <= i < probe_sorted_filter_exprs@.len() ==> #[trigger] r@[build_sorted_filter_exprs@.len() + i]
                == (
                probe_sorted_filter_exprs@[i].spec_node_index(),
                probe_sorted_filter_exprs@[i].spec_interval(),
            ),
{
    let mut out: Vec<(usize, Interval)> = Vec::new();
    let mut j: usize = 0;
    while j < build_sorted_filter_exprs.len()
        invariant
            j <= build_sorted_filter_exprs@.len(),
            out@.len() == j,
            forall|i: int|
                0 <= i < j ==> #[trigger] out@[i] == (
                    build_sorted_filter_exprs@[i].spec_node_index(),
                    build_sorted_filter_exprs@[i].spec_interval(),
                ),
        decreases build_sorted_filter_exprs.len() - j,
    {
        let e = &build_sorted_filter_exprs[j];
        out.push((e.node_index(), *e.interval()));
        j += 1;
    }
    let mut j: usize = 0;
    while j < probe_sorted_filter_exprs.len()
        invariant
            j <= probe_sorted_filter_exprs@.len(),
            out@.len() == build_sorted_filter_exprs@.len() + j,
            forall|i: int|
                0 <= i < build_sorted_filter_exprs@.len() ==> #[trigger] out@[i] == (
                    build_sorted_filter_exprs@[i].spec_node_index(),
                    build_sorted_filter_exprs@[i].spec_interval(),
                ),
            forall|i: int|
                0 <= i < j ==> #[trigger] out@[build_sorted_filter_exprs@.len() + i] == (
                    probe_sorted_filter_exprs@[i].spec_node_index(),
                    probe_sorted_filter_exprs@[i].spec_interval(),
                ),
        decreases probe_sorted_filter_exprs.len() - j,
    {
        let e = &probe_sorted_filter_exprs[j];
        out.push((e.node_index(), *e.interval()));
        j += 1;
    }
    out
}

/// Calculates the build-side range usable for join pruning: updates both
/// sides' filter expression bounds from the probe batch, hands every
/// (node, interval) pair to the interval graph, and selects from the
/// graph's deepest pruning output the pairs belonging to build-side
/// expressions. Whatever the graph answers, every returned pair carries
/// the sort expression of one of the updated build-side expressions.
#[verifier::loop_isolation(false)]
#[allow(unused_variables)]
pub fn calculate_the_necessary_build_side_range<G: IntervalGraph>(
    filter: &JoinFilter,
    build_inner_buffer: &ModelBatch,
    graph: &mut G,
    build_sorted_filter_exprs: &mut Vec<SortedFilterExpr>,
    probe_sorted_filter_exprs: &mut Vec<SortedFilterExpr>,
    probe_batch: &ModelBatch,
) -> (r: Result<Vec<(SortExpr, Interval)>, StreamJoinError>)
    requires
        probe_batch.wf(),
        probe_batch.num_rows >= 1,
    ensures
        !spec_project_ok(filter.column_indices@, JoinSide::Right, *probe_batch) ==> r == Err::<
            Vec<(SortExpr, Interval)>,
            StreamJoinError,
        >(StreamJoinError::ColumnNotFound)
            && final(build_sorted_filter_exprs)@ == old(build_sorted_filter_exprs)@
            && final(probe_sorted_filter_exprs)@ == old(probe_sorted_filter_exprs)@,
        spec_project_ok(filter.column_indices@, JoinSide::Right, *probe_batch) ==> (
        spec_eval_expr_pairs(
            old(probe_sorted_filter_exprs)@,
            spec_projected_row(filter.column_indices@, JoinSide::Right, *probe_batch, 0),
            spec_projected_row(
                filter.column_indices@,
                JoinSide::Right,
                *probe_batch,
                probe_batch.num_rows - 1,
            ),
        ) matches Err(e) ==> r == Err::<Vec<(SortExpr, Interval)>, StreamJoinError>(e)
            && final(build_sorted_filter_exprs)@ == old(build_sorted_filter_exprs)@
            && final(probe_sorted_filter_exprs)@ == old(probe_sorted_filter_exprs)@),
        (match r {
            Ok(v) => {
                &&& final(build_sorted_filter_exprs)@.len() == old(build_sorted_filter_exprs)@.len()
                &&& (forall|i: int|
                    0 <= i < old(build_sorted_filter_exprs)@.len() ==> spec_same_but_interval(
                        old(build_sorted_filter_exprs)@[i],
                        #[trigger] final(build_sorted_filter_exprs)@[i],
                        Interval::spec_point_null(),
                    ))
                &&& final(probe_sorted_filter_exprs)@.len() == old(probe_sorted_filter_exprs)@.len()
                &&& (spec_eval_expr_pairs(
                    old(probe_sorted_filter_exprs)@,
                    spec_projected_row(filter.column_indices@, JoinSide::Right, *probe_batch, 0),
                    spec_projected_row(
                        filter.column_indices@,
                        JoinSide::Right,
                        *probe_batch,
                        probe_batch.num_rows - 1,
                    ),
                ) matches Ok(pairs) && forall|i: int|
                    0 <= i < old(probe_sorted_filter_exprs)@.len() ==> spec_same_but_interval(
                        old(probe_sorted_filter_exprs)@[i],
                        #[trigger] final(probe_sorted_filter_exprs)@[i],
                        spec_probe_interval(
                            pairs[i].0,
                            pairs[i].1,
                            old(probe_sorted_filter_exprs)@[i].spec_descending(),
                        ),
                    ))
                &&& (forall|k: int|
                    0 <= k < v@.len() ==> exists|i: int|
                        0 <= i < final(build_sorted_filter_exprs)@.len() && (#[trigger] v@[k]).0.expr
                            == final(build_sorted_filter_exprs)@[i].spec_intermediate_expr()
                            && v@[k].0.descending == final(
                            build_sorted_filter_exprs)@[i].spec_descending())
            },
            Err(_) => true,
        }),
{
    match update_filter_expr_bounds(
        filter,
        build_inner_buffer,
        build_sorted_filter_exprs,
        probe_batch,
        probe_sorted_filter_exprs,
        JoinSide::Right,
    ) {
        Ok(()) => {},
        Err(e) => {
            return Err(e);
        },
    }
    let mut filter_intervals = collect_filter_intervals(
        build_sorted_filter_exprs,
        probe_sorted_filter_exprs,
    );
    match graph.update_ranges(&mut filter_intervals) {
        Ok(()) => {},
        Err(e) => {
            return Err(e);
        },
    }
    let shrunk = match graph.get_deepest_pruning_exprs() {
        Ok(v) => v,
        Err(e) => {
            return Err(e);
        },
    };
    let selected = select_build_side_pruned_exprs(&shrunk, build_sorted_filter_exprs);
    proof {
        lemma_select_build_pruned_from(shrunk@, build_sorted_filter_exprs@);
    }
    Ok(selected)
}

/// Everything the build-side selection emits comes from one of the given
/// sorted filter expressions.
proof fn lemma_select_build_pruned_from(
    shrunk: Seq<(usize, Interval)>,
    exprs: Seq<SortedFilterExpr>,
)
    ensures
        forall|k: int|
            0 <= k < spec_select_build_pruned(shrunk, exprs).len() ==> exists|i: int|
                0 <= i < exprs.len() && (#[trigger] spec_select_build_pruned(shrunk, exprs)[k]).0.expr
                    == exprs[i].spec_intermediate_expr() && spec_select_build_pruned(
                    shrunk,
                    exprs,
                )[k].0.descending == exprs[i].spec_descending(),
    decreases shrunk.len(),
{
    if shrunk.len() > 0 {
        lemma_select_build_pruned_from(shrunk.drop_last(), exprs);
        lemma_find_by_node_member(exprs, shrunk.last().0);
        let prefix = spec_select_build_pruned(shrunk.drop_last(), exprs);
        let whole = spec_select_build_pruned(shrunk, exprs);
        assert forall|k: int|
            0 <= k < whole.len() implies exists|i: int|
                0 <= i < exprs.len() && (#[trigger] whole[k]).0.expr
                    == exprs[i].spec_intermediate_expr() && whole[k].0.descending
                    == exprs[i].spec_descending() by {
            if k < prefix.len() {
                assert(whole[k] == prefix[k]);
            }
        }
    }
}

/// A found expression is a member of the sequence searched.
proof fn lemma_find_by_node_member(exprs: Seq<SortedFilterExpr>, node: usize)
    ensures
        spec_find_by_node(exprs, node) matches Some(e) ==> exists|i: int|
            0 <= i < exprs.len() && exprs[i] == e,
    decreases exprs.len(),
{
    if exprs.len() > 0 && exprs[0].spec_node_index() != node {
        lemma_find_by_node_member(exprs.drop_first(), node);
        match spec_find_by_node(exprs, node) {
            Some(e) => {
                assert(spec_find_by_node(exprs.drop_first(), node) == Some(e));
                let i = choose|i: int|
                    0 <= i < exprs.drop_first().len() && exprs.drop_first()[i] == e;
                assert(exprs[i + 1] == e);
            },
            None => {},
        }
    }
}

/// The per-expression sliding-window test: the build batch's latest value
/// must be non-null and strictly beyond the interval — above the upper
/// bound for an ascending sort, below the lower bound for a descending one.
pub open spec fn spec_window_element(v: ScalarVal, descending: bool, iv: Interval) -> bool {
    &&& !v.spec_is_null()
    &&& if descending {
        v.spec_lt(iv.lower.value)
    } else {
        iv.upper.value.spec_lt(v)
    }
}

/// Evaluates each interval's sort expression on one projected row; the
/// first error wins.
pub open spec fn spec_eval_sorts(
    pairs: Seq<(SortExpr, Interval)>,
    row: Seq<ScalarVal>,
) -> Result<Seq<ScalarVal>, StreamJoinError>
    decreases pairs.len(),
{
    if pairs.len() == 0 {
        Ok(Seq::empty())
    } else {
        match spec_eval_sorts(pairs.drop_last(), row) {
            Err(e) => Err(e),
            Ok(vals) => match spec_eval(pairs.last().0.expr, row) {
                Err(e) => Err(e),
                Ok(v) => Ok(vals.push(v)),
            },
        }
    }
}

/// Checks whether the sliding-window condition is met: on the latest row of
/// the incoming build batch — projected onto the build (left) side's
/// intermediate positions — every shrunk expression's value lies strictly
/// beyond its interval. A null value means the condition is not met.
#[verifier::loop_isolation(false)]
pub fn check_if_sliding_window_condition_is_met(
    filter: &JoinFilter,
    incoming_build_batch: &ModelBatch,
    intervals: &Vec<(SortExpr, Interval)>,
) -> (r: Result<bool, StreamJoinError>)
    requires
        incoming_build_batch.wf(),
        incoming_build_batch.num_rows >= 1,
    ensures
        (match r {
            Ok(b) => {
                &&& spec_project_ok(filter.column_indices@, JoinSide::Left, *incoming_build_batch)
                &&& (spec_eval_sorts(
                    intervals@,
                    spec_projected_row(
                        filter.column_indices@,
                        JoinSide::Left,
                        *incoming_build_batch,
                        incoming_build_batch.num_rows - 1,
                    ),
                ) matches Ok(vals) && b == (forall|k: int|
                    0 <= k < vals.len() ==> spec_window_element(
                        #[trigger] vals[k],
                        intervals@[k].0.descending,
                        intervals@[k].1,
                    )))
            },
            Err(e) => {
                if !spec_project_ok(filter.column_indices@, JoinSide::Left, *incoming_build_batch) {
                    e == StreamJoinError::ColumnNotFound
                } else {
                    spec_eval_sorts(
                        intervals@,
                        spec_projected_row(
                            filter.column_indices@,
                            JoinSide::Left,
                            *incoming_build_batch,
                            incoming_build_batch.num_rows - 1,
                        ),
                    ) == Err::<Seq<ScalarVal>, StreamJoinError>(e)
                }
            },
        }),
{
    let row = match project_row(
        &filter.column_indices,
        JoinSide::Left,
        incoming_build_batch,
        incoming_build_batch.num_rows - 1,
    ) {
        Ok(v) => v,
        Err(e) => {
            return Err(e);
        },
    };
    let ghost rowv = row@;
    let mut all_met = true;
    let ghost mut vals = Seq::<ScalarVal>::empty();
    let mut j: usize = 0;
    while j < intervals.len()
        invariant
            j <= intervals@.len(),
            spec_eval_sorts(intervals@.take(j as int), rowv) == Ok::<
                Seq<ScalarVal>,
                StreamJoinError,
            >(vals),
            vals.len() == j,
            all_met ==> (forall|k: int|
                0 <= k < j ==> spec_window_element(
                    #[trigger] vals[k],
                    intervals@[k].0.descending,
                    intervals@[k].1,
                )),
            !all_met ==> (exists|k: int|
                0 <= k < j && !spec_window_element(
                    #[trigger] vals[k],
                    intervals@[k].0.descending,
                    intervals@[k].1,
                )),
        decreases intervals.len() - j,
    {
        let pair = &intervals[j];
        proof {
            assert(intervals@.take(j as int + 1).drop_last() =~= intervals@.take(j as int));
            assert(intervals@.take(j as int + 1).last() == intervals@[j as int]);
        }
        let v = match pair.0.expr.eval(&row) {
            Ok(v) => v,
            Err(e) => {
                proof {
                    lemma_eval_sorts_prefix_err(intervals@, rowv, j as int + 1, e);
                }
                return Err(e);
            },
        };
        let met = if v.is_null() {
            false
        } else if pair.0.descending {
            v.lt(&pair.1.lower.value)
        } else {
            v.gt(&pair.1.upper.value)
        };
        if !met {
            all_met = false;
        }
        proof {
            let vals0 = vals;
            vals = vals.push(v);
            assert forall|k: int| 0 <= k < j as int + 1 implies #[trigger] vals[k] == (if k
                < j as int {
                vals0[k]
            } else {
                v
            }) by {}
            assert(vals[j as int] == v);
            if !all_met {
                if !met {
                    assert(!spec_window_element(
                        vals[j as int],
                        intervals@[j as int].0.descending,
                        intervals@[j as int].1,
                    ));
                } else {
                    let k0 = choose|k: int|
                        0 <= k < j as int && !spec_window_element(
                            #[trigger] vals0[k],
                            intervals@[k].0.descending,
                            intervals@[k].1,
                        );
                    assert(!spec_window_element(
                        vals[k0],
                        intervals@[k0].0.descending,
                        intervals@[k0].1,
                    ));
                }
            }
        }
        j += 1;
    }
    proof {
        assert(intervals@.take(intervals@.len() as int) =~= intervals@);
        let tmp = spec_eval_sorts(
            intervals@,
            spec_projected_row(
                filter.column_indices@,
                JoinSide::Left,
                *incoming_build_batch,
                incoming_build_batch.num_rows - 1,
            ),
        );
        assert(tmp == Ok::<Seq<ScalarVal>, StreamJoinError>(vals));
        let vals2 = tmp.unwrap();
        assert(vals2 == vals);
        if all_met {
            assert forall|k: int| 0 <= k < vals2.len() implies spec_window_element(
                #[trigger] vals2[k],
                intervals@[k].0.descending,
                intervals@[k].1,
            ) by {
                assert(vals2[k] == vals[k]);
            }
        } else {
            let k0 = choose|k: int|
                0 <= k < vals.len() && !spec_window_element(
                    #[trigger] vals[k],
                    intervals@[k].0.descending,
                    intervals@[k].1,
                );
            assert(!spec_window_element(vals2[k0], intervals@[k0].0.descending, intervals@[k0].1));
            assert(!(forall|k: int|
                0 <= k < vals2.len() ==> spec_window_element(
                    #[trigger] vals2[k],
                    intervals@[k].0.descending,
                    intervals@[k].1,
                )));
        }
        assert(tmp matches Ok(v2) && all_met == (forall|k: int|
            0 <= k < v2.len() ==> spec_window_element(
                #[trigger] v2[k],
                intervals@[k].0.descending,
                intervals@[k].1,
            )));
    }
    Ok(all_met)
}

/// An error on a prefix of the sort-expression evaluations is the whole
/// run's error.
proof fn lemma_eval_sorts_prefix_err(
    pairs: Seq<(SortExpr, Interval)>,
    row: Seq<ScalarVal>,
    j: int,
    e: StreamJoinError,
)
    requires
        0 <= j <= pairs.len(),
        spec_eval_sorts(pairs.take(j), row) == Err::<Seq<ScalarVal>, StreamJoinError>(e),
    ensures
        spec_eval_sorts(pairs, row) == Err::<Seq<ScalarVal>, StreamJoinError>(e),
    decreases pairs.len() - j,
{
    if j < pairs.len() {
        assert(pairs.take(j + 1).drop_last() =~= pairs.take(j));
        assert(pairs.take(j + 1).last() == pairs[j]);
        lemma_eval_sorts_prefix_err(pairs, row, j + 1, e);
    } else {
        assert(pairs.take(j) =~= pairs);
    }
}

/// Completeness of the sliding window, as far as ordering alone can say:
/// once the window test passes for an expression on the latest build value,
/// any later build value — at or beyond the latest one in the sort
/// direction — lies strictly outside the interval on the same side. No
/// future build row of a sorted stream can fall back into the range that
/// the buffered probe rows could still match.
pub proof fn lemma_window_complete_excludes_future(
    last: ScalarVal,
    future: ScalarVal,
    descending: bool,
    iv: Interval,
)
    requires
        spec_window_element(last, descending, iv),
        !future.spec_is_null(),
        !descending ==> !future.spec_lt(last),
        descending ==> !last.spec_lt(future),
    ensures
        !descending ==> iv.upper.value.spec_lt(future),
        descending ==> future.spec_lt(iv.lower.value),
{
}

/// An error on a prefix of the paired evaluations is the whole run's error.
proof fn lemma_eval_expr_pairs_prefix_err(
    exprs: Seq<SortedFilterExpr>,
    first_row: Seq<ScalarVal>,
    last_row: Seq<ScalarVal>,
    j: int,
    e: StreamJoinError,
)
    requires
        0 <= j <= exprs.len(),
        spec_eval_expr_pairs(exprs.take(j), first_row, last_row) == Err::<
            Seq<(ScalarVal, ScalarVal)>,
            StreamJoinError,
        >(e),
    ensures
        spec_eval_expr_pairs(exprs, first_row, last_row) == Err::<
            Seq<(ScalarVal, ScalarVal)>,
            StreamJoinError,
        >(e),
    decreases exprs.len() - j,
{
    if j < exprs.len() {
        assert(exprs.take(j + 1).drop_last() =~= exprs.take(j));
        assert(exprs.take(j + 1).last() == exprs[j]);
        lemma_eval_expr_pairs_prefix_err(exprs, first_row, last_row, j + 1, e);
    } else {
        assert(exprs.take(j) =~= exprs);
    }
}

} // verus!
