//! Tests for the filter-order derivation.

use streamjoin::expr::{BinaryOp, FilterExpr};
use streamjoin::filter::{ColumnIndex, JoinFilter};
use streamjoin::filter_order::build_filter_order;
use streamjoin::sorted_expr::SortExpr;
use streamjoin::types::JoinSide;

fn col(i: usize) -> FilterExpr {
    FilterExpr::Column(i)
}

fn lit(v: i64) -> FilterExpr {
    FilterExpr::Literal(v)
}

fn bin(op: BinaryOp, l: FilterExpr, r: FilterExpr) -> FilterExpr {
    FilterExpr::Binary(op, Box::new(l), Box::new(r))
}

fn asc(e: FilterExpr) -> SortExpr {
    SortExpr { expr: e, descending: false }
}

/// The filter `a + b > c + 10 AND a + b < c + 100` over an intermediate
/// schema of three positions: 0 and 1 from the left input's columns 0 and
/// 1, position 2 from the right input's column 0.
fn example_filter() -> JoinFilter {
    let sum = bin(BinaryOp::Add, col(0), col(1));
    let low = bin(BinaryOp::Gt, sum, bin(BinaryOp::Add, col(2), lit(10)));
    let sum2 = bin(BinaryOp::Add, col(0), col(1));
    let high = bin(BinaryOp::Lt, sum2, bin(BinaryOp::Add, col(2), lit(100)));
    JoinFilter {
        expression: bin(BinaryOp::And, low, high),
        column_indices: vec![
            ColumnIndex { index: 0, side: JoinSide::Left },
            ColumnIndex { index: 1, side: JoinSide::Left },
            ColumnIndex { index: 0, side: JoinSide::Right },
        ],
    }
}

#[test]
fn filter_order_accepts_mapped_left_sum() {
    let filter = example_filter();
    // A sort on the sum of the left input's columns 0 and 1 maps onto
    // filter columns 0 and 1 and occurs verbatim in the filter tree.
    let candidate = asc(bin(BinaryOp::Add, col(0), col(1)));
    let result = build_filter_order(JoinSide::Left, &filter, &candidate, &vec![], &vec![]);
    assert_eq!(result.len(), 1);
    let expected_global = bin(BinaryOp::Add, col(0), col(1));
    assert!(result[0].filter_expr().structural_eq(&expected_global));
    // Within the left subset of the intermediate schema the positions are
    // again 0 and 1.
    assert!(result[0].intermediate_batch_filter_expr().structural_eq(&expected_global));
    assert!(!result[0].descending());
}

#[test]
fn filter_order_rejects_unmapped_columns() {
    let filter = example_filter();
    // The left input's column 2 does not appear in the filter's column map.
    let candidate = asc(col(2));
    let result = build_filter_order(JoinSide::Left, &filter, &candidate, &vec![], &vec![]);
    assert!(result.is_empty());
    // Neither does the right input's column 1.
    let candidate = asc(col(1));
    let result = build_filter_order(JoinSide::Right, &filter, &candidate, &vec![], &vec![]);
    assert!(result.is_empty());
}

#[test]
fn filter_order_accepts_right_column() {
    let filter = example_filter();
    // The right input's column 0 maps to filter column 2, which occurs in
    // the filter tree as a leaf of `c + 10`.
    let candidate = asc(col(0));
    let result = build_filter_order(JoinSide::Right, &filter, &candidate, &vec![], &vec![]);
    assert_eq!(result.len(), 1);
    assert!(result[0].filter_expr().structural_eq(&col(2)));
    // The right subset of the intermediate schema has one position.
    assert!(result[0].intermediate_batch_filter_expr().structural_eq(&col(0)));
}

// Structural, not semantic, matching: `b + a` does not match the filter's
// `a + b`, on purpose.
#[test]
fn filter_order_matching_is_structural() {
    let filter = example_filter();
    let candidate = asc(bin(BinaryOp::Add, col(1), col(0)));
    let result = build_filter_order(JoinSide::Left, &filter, &candidate, &vec![], &vec![]);
    assert!(result.is_empty());
}

#[test]
fn filter_order_seeds_equivalent_orderings() {
    let filter = example_filter();
    // The candidate names column 0; an ordering on the sum shares it, one
    // on column 5 is related to it through an equivalence class.
    let candidate = asc(col(0));
    let orderings = vec![asc(bin(BinaryOp::Add, col(0), col(1))), asc(col(5))];
    let classes = vec![vec![0, 5]];
    let result = build_filter_order(JoinSide::Left, &filter, &candidate, &classes, &orderings);
    // The candidate itself and the sum ordering are accepted; the ordering
    // on column 5 is seeded but rejected, since column 5 has no mapping.
    assert_eq!(result.len(), 2);
    assert!(result[0].origin_expr().structural_eq(&col(0)));
    assert!(result[1].origin_expr().structural_eq(&bin(BinaryOp::Add, col(0), col(1))));
}
