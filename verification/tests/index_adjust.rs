//! Tests for the per-flavor index adjustment and the pruning outer indices.

use streamjoin::index_adjust::{
    adjust_probe_side_indices_by_join_type, append_probe_indices_in_order,
    calculate_build_outer_indices_by_join_type, get_anti_indices, get_pruning_anti_indices,
    get_pruning_semi_indices, get_semi_indices,
};
use streamjoin::types::JoinType;
use streamjoin::visited::VisitedRows;
use streamjoin::StreamJoinError;

#[test]
fn test_append_left_indices_in_order() {
    let left_indices: Vec<Option<u32>> = vec![Some(1), Some(1), Some(2), Some(4)];
    let right_indices: Vec<Option<u64>> = vec![Some(10), Some(20), Some(30), Some(40)];
    let left_len: u32 = 7;

    let (new_right_indices, new_left_indices) =
        append_probe_indices_in_order(right_indices, left_indices, left_len).unwrap();

    // Expected results
    let expected_left_indices: Vec<Option<u32>> = vec![
        Some(0),
        Some(1),
        Some(1),
        Some(2),
        Some(3),
        Some(4),
        Some(5),
        Some(6),
    ];
    let expected_right_indices: Vec<Option<u64>> = vec![
        None,
        Some(10),
        Some(20),
        Some(30),
        None,
        Some(40),
        None,
        None,
    ];

    assert_eq!(new_left_indices, expected_left_indices);
    assert_eq!(new_right_indices, expected_right_indices);
}

#[test]
fn append_rejects_null_indices() {
    let build: Vec<Option<u64>> = vec![Some(10), None];
    let probe: Vec<Option<u32>> = vec![Some(0), Some(1)];
    let res = append_probe_indices_in_order(build, probe, 3);
    assert_eq!(res.unwrap_err(), StreamJoinError::Internal);
}

#[test]
fn anti_and_semi_indices_partition_the_range() {
    let probe: Vec<Option<u32>> = vec![Some(1), None, Some(9), Some(1)];
    // Values beyond the range and nulls can hit nothing.
    assert_eq!(get_anti_indices(4, &probe), vec![0, 2, 3]);
    assert_eq!(get_semi_indices(4, &probe), vec![1]);
    assert_eq!(get_anti_indices(0, &probe), Vec::<u32>::new());
}

#[test]
fn adjust_passes_inner_and_left_through() {
    let build: Vec<Option<u64>> = vec![Some(7), Some(8)];
    let probe: Vec<Option<u32>> = vec![Some(0), Some(1)];
    let (b, p) =
        adjust_probe_side_indices_by_join_type(build.clone(), probe.clone(), 5, JoinType::Inner)
            .unwrap();
    assert_eq!(b, build);
    assert_eq!(p, probe);
    let (b, p) =
        adjust_probe_side_indices_by_join_type(build.clone(), probe.clone(), 5, JoinType::Left)
            .unwrap();
    assert_eq!(b, build);
    assert_eq!(p, probe);
}

#[test]
fn adjust_right_pads_missing_probe_rows() {
    let build: Vec<Option<u64>> = vec![Some(10), Some(20), Some(30), Some(40)];
    let probe: Vec<Option<u32>> = vec![Some(1), Some(1), Some(2), Some(4)];
    let (b, p) = adjust_probe_side_indices_by_join_type(build, probe, 7, JoinType::Right).unwrap();
    assert_eq!(
        p,
        vec![Some(0), Some(1), Some(1), Some(2), Some(3), Some(4), Some(5), Some(6)]
    );
    assert_eq!(
        b,
        vec![None, Some(10), Some(20), Some(30), None, Some(40), None, None]
    );
}

#[test]
fn adjust_right_rejects_null_indices() {
    let build: Vec<Option<u64>> = vec![None];
    let probe: Vec<Option<u32>> = vec![Some(0)];
    let res = adjust_probe_side_indices_by_join_type(build, probe, 2, JoinType::Right);
    assert_eq!(res.unwrap_err(), StreamJoinError::Internal);
}

#[test]
fn adjust_full_appends_unmatched_probe_rows() {
    let build: Vec<Option<u64>> = vec![Some(1)];
    let probe: Vec<Option<u32>> = vec![Some(0)];
    let (b, p) = adjust_probe_side_indices_by_join_type(build, probe, 2, JoinType::Full).unwrap();
    assert_eq!(b, vec![Some(1), None]);
    assert_eq!(p, vec![Some(0), Some(1)]);
}

#[test]
fn adjust_right_semi_and_anti_deduplicate() {
    let build: Vec<Option<u64>> = vec![Some(5), Some(6)];
    let probe: Vec<Option<u32>> = vec![Some(1), Some(1)];
    let (b, p) = adjust_probe_side_indices_by_join_type(
        build.clone(),
        probe.clone(),
        3,
        JoinType::RightSemi,
    )
    .unwrap();
    assert_eq!(b, build);
    assert_eq!(p, vec![Some(1)]);
    let (b, p) =
        adjust_probe_side_indices_by_join_type(build.clone(), probe, 3, JoinType::RightAnti)
            .unwrap();
    assert_eq!(b, build);
    assert_eq!(p, vec![Some(0), Some(2)]);
}

#[test]
fn adjust_left_semi_and_anti_emit_nothing() {
    let build: Vec<Option<u64>> = vec![Some(5)];
    let probe: Vec<Option<u32>> = vec![Some(0)];
    let (b, p) =
        adjust_probe_side_indices_by_join_type(build.clone(), probe.clone(), 1, JoinType::LeftSemi)
            .unwrap();
    assert!(b.is_empty() && p.is_empty());
    let (b, p) =
        adjust_probe_side_indices_by_join_type(build, probe, 1, JoinType::LeftAnti).unwrap();
    assert!(b.is_empty() && p.is_empty());
}

#[test]
fn pruning_indices_split_by_visited_rows() {
    let mut visited = VisitedRows::new();
    visited.insert(2);
    visited.insert(4);
    assert_eq!(get_pruning_anti_indices(5, 0, &visited), vec![0, 1, 3]);
    assert_eq!(get_pruning_semi_indices(5, 0, &visited), vec![2, 4]);
}

#[test]
fn pruning_indices_respect_the_deleted_offset() {
    let mut visited = VisitedRows::new();
    visited.insert(12);
    assert_eq!(get_pruning_anti_indices(3, 10, &visited), vec![0, 1]);
    assert_eq!(get_pruning_semi_indices(3, 10, &visited), vec![2]);
}

#[test]
fn build_outer_indices_by_join_type() {
    let mut visited = VisitedRows::new();
    visited.insert(1);
    let (b, p) =
        calculate_build_outer_indices_by_join_type(3, &visited, 0, JoinType::Left).unwrap();
    assert_eq!(b, vec![0, 2]);
    assert_eq!(p, vec![None, None]);
    let (b, p) =
        calculate_build_outer_indices_by_join_type(3, &visited, 0, JoinType::LeftSemi).unwrap();
    assert_eq!(b, vec![1]);
    assert_eq!(p, vec![None]);
    let res = calculate_build_outer_indices_by_join_type(3, &visited, 0, JoinType::Inner);
    assert_eq!(res.unwrap_err(), StreamJoinError::Internal);
}
