//! Tests for batches, interval tracking and the sliding-window condition.

use streamjoin::batch::{get_probe_batch, ModelBatch};
use streamjoin::bounds::{
    calculate_the_necessary_build_side_range, check_if_sliding_window_condition_is_met,
    is_batch_suitable_interval_calculation, recompute_filter_intervals,
    update_filter_expr_bounds, IntervalGraph,
};
use streamjoin::expr::{BinaryOp, FilterExpr};
use streamjoin::filter::{ColumnIndex, JoinFilter};
use streamjoin::interval::{Interval, IntervalBound};
use streamjoin::scalar::ScalarVal;
use streamjoin::sorted_expr::{SortExpr, SortedFilterExpr};
use streamjoin::stream_state::JoinStreamState;
use streamjoin::types::JoinSide;
use streamjoin::StreamJoinError;

fn col(i: usize) -> FilterExpr {
    FilterExpr::Column(i)
}

fn lit(v: i64) -> FilterExpr {
    FilterExpr::Literal(v)
}

fn bin(op: BinaryOp, l: FilterExpr, r: FilterExpr) -> FilterExpr {
    FilterExpr::Binary(op, Box::new(l), Box::new(r))
}

fn int_column(values: &[i64]) -> Vec<ScalarVal> {
    values.iter().map(|v| ScalarVal::Int(*v)).collect()
}

/// A filter whose intermediate schema has one column from each side:
/// position 0 from the left input's column 0, position 1 from the right
/// input's column 0.
fn two_sided_filter() -> JoinFilter {
    JoinFilter {
        expression: bin(BinaryOp::Gt, col(0), col(1)),
        column_indices: vec![
            ColumnIndex { index: 0, side: JoinSide::Left },
            ColumnIndex { index: 0, side: JoinSide::Right },
        ],
    }
}

/// A sorted filter expression on the single subset column of one side.
fn first_column_expr(descending: bool, global_pos: usize) -> SortedFilterExpr {
    SortedFilterExpr::new(col(0), descending, col(global_pos), col(0))
}

#[test]
fn scalar_evaluation_errors() {
    let row = vec![ScalarVal::Int(1)];
    let overflow = bin(BinaryOp::Add, lit(i64::MAX), lit(1));
    assert_eq!(overflow.eval(&row), Err(StreamJoinError::ArithmeticOverflow));
    let missing = col(3);
    assert_eq!(missing.eval(&row), Err(StreamJoinError::ColumnNotFound));
    let comparison = bin(BinaryOp::Gt, col(0), lit(0));
    assert_eq!(comparison.eval(&row), Err(StreamJoinError::SchemaMismatch));
    let arithmetic = bin(BinaryOp::Mul, col(0), lit(3));
    assert_eq!(arithmetic.eval(&row), Ok(ScalarVal::Int(3)));
    let with_null = bin(BinaryOp::Add, col(0), lit(1));
    assert_eq!(with_null.eval(&vec![ScalarVal::Null]), Ok(ScalarVal::Null));
}

#[test]
fn empty_or_null_batches_are_unsuitable() {
    let filter = two_sided_filter();
    let exprs = vec![first_column_expr(false, 1)];
    let empty = ModelBatch { columns: vec![vec![]], num_rows: 0 };
    assert_eq!(
        is_batch_suitable_interval_calculation(&filter, &exprs, &empty, JoinSide::Right),
        Ok(false)
    );
    let with_null = ModelBatch {
        columns: vec![vec![ScalarVal::Int(1), ScalarVal::Null]],
        num_rows: 2,
    };
    assert_eq!(
        is_batch_suitable_interval_calculation(&filter, &exprs, &with_null, JoinSide::Right),
        Ok(false)
    );
    let good = ModelBatch { columns: vec![int_column(&[1, 2])], num_rows: 2 };
    assert_eq!(
        is_batch_suitable_interval_calculation(&filter, &exprs, &good, JoinSide::Right),
        Ok(true)
    );
}

// Pins down the chosen endpoint semantics: every interval the tracker
// writes has open endpoints, on both sides.
#[test]
fn update_bounds_sets_open_endpoint_intervals() {
    let filter = two_sided_filter();
    let mut build_exprs = vec![first_column_expr(false, 0)];
    let mut probe_exprs = vec![first_column_expr(false, 1)];
    let build_buffer = ModelBatch { columns: vec![int_column(&[0])], num_rows: 1 };
    let probe_batch = ModelBatch { columns: vec![int_column(&[1, 2, 3])], num_rows: 3 };
    update_filter_expr_bounds(
        &filter,
        &build_buffer,
        &mut build_exprs,
        &probe_batch,
        &mut probe_exprs,
        JoinSide::Right,
    )
    .unwrap();
    // The probe interval spans first to last row, endpoints open.
    let iv = *probe_exprs[0].interval();
    assert_eq!(iv.lower, IntervalBound { value: ScalarVal::Int(1), open: true });
    assert_eq!(iv.upper, IntervalBound { value: ScalarVal::Int(3), open: true });
    // The build side gets the point-null interval, endpoints open.
    let biv = *build_exprs[0].interval();
    assert_eq!(biv.lower, IntervalBound { value: ScalarVal::Null, open: true });
    assert_eq!(biv.upper, IntervalBound { value: ScalarVal::Null, open: true });
}

#[test]
fn update_bounds_orders_descending_intervals() {
    let filter = two_sided_filter();
    let mut build_exprs = vec![first_column_expr(true, 0)];
    let mut probe_exprs = vec![first_column_expr(true, 1)];
    let build_buffer = ModelBatch { columns: vec![int_column(&[9])], num_rows: 1 };
    let probe_batch = ModelBatch { columns: vec![int_column(&[5, 4, 2])], num_rows: 3 };
    update_filter_expr_bounds(
        &filter,
        &build_buffer,
        &mut build_exprs,
        &probe_batch,
        &mut probe_exprs,
        JoinSide::Right,
    )
    .unwrap();
    let iv = *probe_exprs[0].interval();
    assert_eq!(iv.lower.value, ScalarVal::Int(2));
    assert_eq!(iv.upper.value, ScalarVal::Int(5));
}

#[test]
fn window_condition_requires_values_beyond_the_interval() {
    let filter = two_sided_filter();
    let interval = Interval::new(
        IntervalBound::new(ScalarVal::Int(0), true),
        IntervalBound::new(ScalarVal::Int(5), true),
    );
    let ascending = vec![(SortExpr { expr: col(0), descending: false }, interval)];
    let beyond = ModelBatch { columns: vec![int_column(&[4, 6])], num_rows: 2 };
    assert_eq!(
        check_if_sliding_window_condition_is_met(&filter, &beyond, &ascending),
        Ok(true)
    );
    let not_yet = ModelBatch { columns: vec![int_column(&[4, 5])], num_rows: 2 };
    assert_eq!(
        check_if_sliding_window_condition_is_met(&filter, &not_yet, &ascending),
        Ok(false)
    );
    let with_null = ModelBatch {
        columns: vec![vec![ScalarVal::Int(4), ScalarVal::Null]],
        num_rows: 2,
    };
    assert_eq!(
        check_if_sliding_window_condition_is_met(&filter, &with_null, &ascending),
        Ok(false)
    );
    let descending = vec![(
        SortExpr { expr: col(0), descending: true },
        Interval::new(
            IntervalBound::new(ScalarVal::Int(3), true),
            IntervalBound::new(ScalarVal::Int(9), true),
        ),
    )];
    let below = ModelBatch { columns: vec![int_column(&[7, 2])], num_rows: 2 };
    assert_eq!(
        check_if_sliding_window_condition_is_met(&filter, &below, &descending),
        Ok(true)
    );
}

#[test]
fn probe_batches_concatenate_in_order() {
    let a = ModelBatch { columns: vec![int_column(&[1, 2])], num_rows: 2 };
    let b = ModelBatch { columns: vec![int_column(&[3])], num_rows: 1 };
    let merged = get_probe_batch(vec![a, b]).unwrap();
    assert_eq!(merged.num_rows, 3);
    assert_eq!(merged.columns, vec![int_column(&[1, 2, 3])]);

    let single = ModelBatch { columns: vec![int_column(&[8])], num_rows: 1 };
    let same = get_probe_batch(vec![single]).unwrap();
    assert_eq!(same.columns, vec![int_column(&[8])]);

    let narrow = ModelBatch { columns: vec![int_column(&[1])], num_rows: 1 };
    let wide = ModelBatch {
        columns: vec![int_column(&[1]), int_column(&[2])],
        num_rows: 1,
    };
    assert_eq!(
        get_probe_batch(vec![narrow, wide]).unwrap_err(),
        StreamJoinError::SchemaMismatch
    );
}

/// A graph that shrinks nothing and reports one prunable node.
struct FixedGraph {
    node: usize,
    interval: Interval,
}

impl IntervalGraph for FixedGraph {
    fn update_ranges(&mut self, _ranges: &mut Vec<(usize, Interval)>) -> Result<(), StreamJoinError> {
        Ok(())
    }

    fn get_deepest_pruning_exprs(&self) -> Result<Vec<(usize, Interval)>, StreamJoinError> {
        Ok(vec![(self.node, self.interval)])
    }
}

#[test]
fn build_side_range_selects_build_expressions() {
    let filter = two_sided_filter();
    let mut build_exprs = vec![first_column_expr(false, 0)];
    let mut probe_exprs = vec![first_column_expr(false, 1)];
    // Register the build expression under graph node 4.
    build_exprs[0].set_node_index(4);
    probe_exprs[0].set_node_index(9);
    let shrunk_interval = Interval::new(
        IntervalBound::new(ScalarVal::Int(0), true),
        IntervalBound::new(ScalarVal::Int(7), true),
    );
    let mut graph = FixedGraph { node: 4, interval: shrunk_interval };
    let build_buffer = ModelBatch { columns: vec![int_column(&[0])], num_rows: 1 };
    let probe_batch = ModelBatch { columns: vec![int_column(&[1, 2])], num_rows: 2 };
    let ranges = calculate_the_necessary_build_side_range(
        &filter,
        &build_buffer,
        &mut graph,
        &mut build_exprs,
        &mut probe_exprs,
        &probe_batch,
    )
    .unwrap();
    assert_eq!(ranges.len(), 1);
    assert!(ranges[0].0.expr.structural_eq(build_exprs[0].intermediate_batch_filter_expr()));
    assert_eq!(ranges[0].1, shrunk_interval);
    // A node nobody registered selects nothing.
    let mut graph = FixedGraph { node: 11, interval: shrunk_interval };
    let ranges = calculate_the_necessary_build_side_range(
        &filter,
        &build_buffer,
        &mut graph,
        &mut build_exprs,
        &mut probe_exprs,
        &probe_batch,
    )
    .unwrap();
    assert!(ranges.is_empty());
}

#[test]
fn join_stream_states_carry_their_data() {
    let state = JoinStreamState::PullBuild { interval: vec![] };
    match state {
        JoinStreamState::PullBuild { interval } => assert!(interval.is_empty()),
        _ => panic!("wrong state"),
    }
    let done = JoinStreamState::BothExhausted { final_result: true };
    assert!(matches!(done, JoinStreamState::BothExhausted { final_result: true }));
}

// The graph receives half-unbounded intervals: the build side from its
// first buffered value on, the probe side up to its last seen value.
#[test]
fn recompute_intervals_are_half_unbounded() {
    let filter = two_sided_filter();
    let mut build_exprs = vec![first_column_expr(false, 0)];
    let mut probe_exprs = vec![first_column_expr(false, 1)];
    let build_buffer = ModelBatch { columns: vec![int_column(&[2, 3, 4])], num_rows: 3 };
    let probe_batch = ModelBatch { columns: vec![int_column(&[5, 6])], num_rows: 2 };
    recompute_filter_intervals(
        &filter,
        &build_buffer,
        &mut build_exprs,
        &probe_batch,
        &mut probe_exprs,
        JoinSide::Left,
    )
    .unwrap();
    let biv = *build_exprs[0].interval();
    assert_eq!(biv.lower, IntervalBound { value: ScalarVal::Int(2), open: true });
    assert_eq!(biv.upper, IntervalBound { value: ScalarVal::Null, open: true });
    let piv = *probe_exprs[0].interval();
    assert_eq!(piv.lower, IntervalBound { value: ScalarVal::Null, open: true });
    assert_eq!(piv.upper, IntervalBound { value: ScalarVal::Int(6), open: true });
}

#[test]
fn recompute_intervals_reports_missing_columns() {
    // A filter position naming a column the build batch lacks.
    let filter = JoinFilter {
        expression: bin(BinaryOp::Gt, col(0), col(1)),
        column_indices: vec![
            ColumnIndex { index: 5, side: JoinSide::Left },
            ColumnIndex { index: 0, side: JoinSide::Right },
        ],
    };
    let mut build_exprs = vec![first_column_expr(false, 0)];
    let mut probe_exprs = vec![first_column_expr(false, 1)];
    let build_buffer = ModelBatch { columns: vec![int_column(&[2])], num_rows: 1 };
    let probe_batch = ModelBatch { columns: vec![int_column(&[5])], num_rows: 1 };
    let res = recompute_filter_intervals(
        &filter,
        &build_buffer,
        &mut build_exprs,
        &probe_batch,
        &mut probe_exprs,
        JoinSide::Left,
    );
    assert_eq!(res.unwrap_err(), StreamJoinError::ColumnNotFound);
}
