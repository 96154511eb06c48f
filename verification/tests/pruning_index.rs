//! Tests for the pruning hash index.

use streamjoin::pruning_index::PruningHashIndex;

#[test]
fn probe_returns_chains_most_recent_first() {
    let mut idx = PruningHashIndex::new();
    // Rows 1..=5: hash 1 at rows 1, 3, 5 and hash 2 at rows 2, 4.
    idx.insert(1, 1);
    idx.insert(2, 2);
    idx.insert(1, 3);
    idx.insert(2, 4);
    idx.insert(1, 5);
    assert_eq!(idx.probe(1), vec![5, 3, 1]);
    assert_eq!(idx.probe(2), vec![4, 2]);
    assert_eq!(idx.probe(3), Vec::<u64>::new());
}

#[test]
fn prune_front_hides_old_rows() {
    let mut idx = PruningHashIndex::new();
    idx.insert(1, 1);
    idx.insert(2, 2);
    idx.insert(1, 3);
    idx.insert(2, 4);
    idx.insert(1, 5);
    idx.prune_front(2, 4);
    assert_eq!(idx.deleted_offset(), 2);
    // No id at or below the new offset ever comes back.
    assert_eq!(idx.probe(1), vec![5, 3]);
    assert_eq!(idx.probe(2), vec![4]);
    idx.prune_front(3, 4);
    assert_eq!(idx.probe(1), Vec::<u64>::new());
    assert_eq!(idx.probe(2), Vec::<u64>::new());
    assert_eq!(idx.len(), 0);
    // Insertion carries on with the global counter.
    idx.insert(9, 6);
    assert_eq!(idx.probe(9), vec![6]);
}

#[test]
fn pruning_shrink() {
    let mut idx = PruningHashIndex::new();
    let mut row: u64 = 1;
    for h in 0..2000u64 {
        idx.insert(h, row);
        row += 1;
    }
    let old_capacity = idx.capacity();
    assert!(idx.len() == 2000 && idx.len() <= old_capacity);
    idx.prune_front(1500, 4);
    let new_capacity = idx.capacity();
    assert_eq!(idx.len(), 500);
    assert!(idx.len() <= new_capacity);
    assert!(new_capacity <= old_capacity);
    // The threshold was crossed, so a one-in-four share was given up.
    assert!(old_capacity > 4 * idx.len());
    assert_eq!(new_capacity, old_capacity * 3 / 4);
}

#[test]
fn size_bytes_reflects_capacity_and_rows() {
    let mut idx = PruningHashIndex::new();
    assert_eq!(idx.size_bytes(), 0);
    idx.insert(7, 1);
    let expected = idx.capacity() as u128 * 16 + idx.buffered_rows() as u128 * 16;
    assert_eq!(idx.size_bytes(), expected);
}
