//! The pruning hash index: a map from 64-bit hashes to chains of global row
//! ids, with range-based eviction from the front and a capacity shrink
//! policy.
//!
//! Global row ids are handed out by the caller as a monotonically increasing
//! counter starting at one; zero is reserved as the end-of-chain sentinel.
//! Physically the index is a hash table from hash to the most recent row id
//! of that hash, plus a parallel array where the entry for a buffered row
//! holds the row id of its predecessor in the same chain.

use vstd::prelude::*;
use std::collections::HashMap;

verus! {

broadcast use vstd::std_specs::hash::group_hash_axioms;

/// The position of the last occurrence of `h` in `hs`, or -1 when `h` does
/// not occur.
pub open spec fn last_index_of(hs: Seq<u64>, h: u64) -> int
    decreases hs.len(),
{
    if hs.len() == 0 {
        -1
    } else if hs.last() == h {
        hs.len() - 1
    } else {
        last_index_of(hs.drop_last(), h)
    }
}

/// The chain the index yields for hash `h`: the global ids (`d` + position
/// + 1) of the buffered rows whose hash is `h`, most recent first.
pub open spec fn probe_seq(hs: Seq<u64>, d: int, h: u64) -> Seq<u64>
    decreases hs.len(),
{
    if hs.len() == 0 {
        Seq::empty()
    } else if hs.last() == h {
        seq![(d + hs.len()) as u64] + probe_seq(hs.drop_last(), d, h)
    } else {
        probe_seq(hs.drop_last(), d, h)
    }
}

/// A found last occurrence really holds the hash searched for.
pub proof fn lemma_last_index_of_found(hs: Seq<u64>, h: u64)
    ensures
        last_index_of(hs, h) < hs.len(),
        last_index_of(hs, h) >= 0 ==> hs[last_index_of(hs, h)] == h,
        last_index_of(hs, h) >= 0 ==> forall|j: int|
            last_index_of(hs, h) < j < hs.len() ==> hs[j] != h,
        last_index_of(hs, h) < 0 ==> forall|j: int| 0 <= j < hs.len() ==> hs[j] != h,
    decreases hs.len(),
{
    if hs.len() > 0 {
        lemma_last_index_of_found(hs.drop_last(), h);
        assert(forall|j: int| 0 <= j < hs.len() - 1 ==> hs[j] == hs.drop_last()[j]);
    }
}

/// Appending a row moves the last occurrence of its hash to the end and
/// leaves every other hash's last occurrence alone.
pub proof fn lemma_last_index_of_push(hs: Seq<u64>, x: u64, h: u64)
    ensures
        last_index_of(hs.push(x), h) == (if x == h {
            hs.len() as int
        } else {
            last_index_of(hs, h)
        }),
{
    assert(hs.push(x).drop_last() =~= hs);
    assert(hs.push(x).last() == x);
}

/// Dropping `c` rows from the front shifts the last occurrence down by `c`,
/// or erases it when it lay within the dropped range.
pub proof fn lemma_last_index_of_skip(hs: Seq<u64>, c: int, h: u64)
    requires
        0 <= c <= hs.len(),
    ensures
        last_index_of(hs.skip(c), h) == (if last_index_of(hs, h) >= c {
            last_index_of(hs, h) - c
        } else {
            -1
        }),
    decreases hs.len(),
{
    if c < hs.len() {
        assert(hs.skip(c).last() == hs.last());
        assert(hs.skip(c).drop_last() =~= hs.drop_last().skip(c));
        lemma_last_index_of_skip(hs.drop_last(), c, h);
    } else {
        assert(hs.skip(c) =~= Seq::<u64>::empty());
        lemma_last_index_of_found(hs, h);
    }
}

/// A prefix cut just past the last occurrence of `h` yields the same chain
/// as the whole sequence; with no occurrence the chain is empty.
pub proof fn lemma_probe_seq_trim(hs: Seq<u64>, d: int, h: u64, i: int)
    requires
        0 <= i <= hs.len(),
    ensures
        probe_seq(hs.take(i), d, h) == (if last_index_of(hs.take(i), h) >= 0 {
            probe_seq(hs.take(last_index_of(hs.take(i), h) + 1), d, h)
        } else {
            Seq::<u64>::empty()
        }),
    decreases i,
{
    if i > 0 {
        if hs[i - 1] == h {
            assert(hs.take(i).last() == h);
            assert(last_index_of(hs.take(i), h) == i - 1);
        } else {
            assert(hs.take(i).last() == hs[i - 1]);
            assert(hs.take(i).drop_last() =~= hs.take(i - 1));
            lemma_probe_seq_trim(hs, d, h, i - 1);
        }
    } else {
        assert(hs.take(0) =~= Seq::<u64>::empty());
    }
}

/// Pruning-index monotonicity: a chain's row ids are strictly decreasing,
/// and every id lies strictly above the deleted offset `d`, within the
/// buffered range.
pub proof fn lemma_probe_seq_monotonic(hs: Seq<u64>, d: int, h: u64)
    requires
        0 <= d,
        d + hs.len() <= u64::MAX,
    ensures
        forall|j: int, k: int|
            0 <= j < k < probe_seq(hs, d, h).len() ==> probe_seq(hs, d, h)[j] > probe_seq(
                hs,
                d,
                h,
            )[k],
        forall|j: int|
            0 <= j < probe_seq(hs, d, h).len() ==> d < #[trigger] probe_seq(hs, d, h)[j] <= d
                + hs.len(),
    decreases hs.len(),
{
    if hs.len() > 0 {
        lemma_probe_seq_monotonic(hs.drop_last(), d, h);
        let s = probe_seq(hs, d, h);
        let inner = probe_seq(hs.drop_last(), d, h);
        if hs.last() == h {
            assert(s == seq![(d + hs.len()) as u64] + inner);
            assert forall|j: int| 0 <= j < s.len() implies d < #[trigger] s[j] <= d + hs.len() by {
                if j > 0 {
                    assert(s[j] == inner[j - 1]);
                }
            }
            assert forall|j: int, k: int| 0 <= j < k < s.len() implies s[j] > s[k] by {
                assert(s[k] == inner[k - 1]);
                if j > 0 {
                    assert(s[j] == inner[j - 1]);
                }
            }
        } else {
            assert(s == inner);
        }
    }
}

/// A hash has a last occurrence exactly when it occurs at all.
pub proof fn lemma_last_index_of_contains(hs: Seq<u64>, h: u64)
    ensures
        (last_index_of(hs, h) >= 0) <==> hs.contains(h),
{
    lemma_last_index_of_found(hs, h);
    if last_index_of(hs, h) >= 0 {
        assert(hs[last_index_of(hs, h)] == h);
        assert(hs.contains(h));
    }
    if hs.contains(h) {
        let j = choose|j: int| 0 <= j < hs.len() && hs[j] == h;
        assert(last_index_of(hs, h) >= 0);
    }
}

/// The entry count of the index: exactly one table entry per distinct hash
/// among the buffered rows.
pub proof fn lemma_len_counts_distinct_hashes(index: PruningHashIndex)
    requires
        index.wf(),
    ensures
        index.spec_len() == index.spec_hashes().to_set().len(),
{
    assert forall|h: u64| #[trigger] index.map@.dom().contains(h) == index.spec_hashes().to_set().contains(
        h,
    ) by {
        lemma_last_index_of_contains(index.spec_hashes(), h);
        assert(index.map@.contains_key(h) <==> last_index_of(index.spec_hashes(), h) >= 0);
    }
    assert(index.map@.dom() =~= index.spec_hashes().to_set());
}

/// The chains of a pruned sequence: dropping `c` rows from the front and
/// raising the offset by `c` removes exactly the ids at or below the new
/// offset and keeps the rest.
pub proof fn lemma_probe_seq_skip(hs: Seq<u64>, d: int, c: int, h: u64)
    requires
        0 <= d,
        0 <= c <= hs.len(),
        d + hs.len() <= u64::MAX,
    ensures
        probe_seq(hs.skip(c), d + c, h) == probe_seq(hs, d, h).filter(|id: u64| id > d + c),
    decreases hs.len(),
{
    reveal(Seq::filter);
    if c < hs.len() {
        assert(hs.skip(c).last() == hs.last());
        assert(hs.skip(c).drop_last() =~= hs.drop_last().skip(c));
        lemma_probe_seq_skip(hs.drop_last(), d, c, h);
        lemma_probe_seq_monotonic(hs.drop_last(), d, h);
        if hs.last() == h {
            let inner = probe_seq(hs.drop_last(), d, h);
            let full = seq![(d + hs.len()) as u64] + inner;
            assert(full.drop_last() =~= if inner.len() == 0 {
                Seq::<u64>::empty()
            } else {
                seq![(d + hs.len()) as u64] + inner.drop_last()
            });
            lemma_probe_seq_filter_cons((d + hs.len()) as u64, inner, d + c);
            assert(probe_seq(hs.skip(c), d + c, h) == seq![(d + c + hs.skip(c).len()) as u64]
                + probe_seq(hs.drop_last().skip(c), d + c, h));
            assert((d + c + hs.skip(c).len()) as u64 == (d + hs.len()) as u64);
        }
    } else {
        assert(hs.skip(c) =~= Seq::<u64>::empty());
        lemma_probe_seq_all_filtered(hs, d, h, d + c);
    }
}

/// Filtering a chain headed by an id above the threshold keeps the head and
/// filters the tail.
proof fn lemma_probe_seq_filter_cons(x: u64, s: Seq<u64>, t: int)
    requires
        x > t,
    ensures
        (seq![x] + s).filter(|id: u64| id > t) == seq![x] + s.filter(|id: u64| id > t),
    decreases s.len(),
{
    reveal(Seq::filter);
    if s.len() == 0 {
        assert((seq![x] + s) =~= seq![x]);
        assert(seq![x].drop_last() =~= Seq::<u64>::empty());
        assert(Seq::<u64>::empty().filter(|id: u64| id > t) =~= Seq::<u64>::empty());
        assert(seq![x].filter(|id: u64| id > t) =~= seq![x]);
        assert(seq![x] + s.filter(|id: u64| id > t) =~= seq![x]);
    } else {
        assert((seq![x] + s).drop_last() =~= seq![x] + s.drop_last());
        assert((seq![x] + s).last() == s.last());
        lemma_probe_seq_filter_cons(x, s.drop_last(), t);
        if s.last() > t {
            assert((seq![x] + s).filter(|id: u64| id > t) == (seq![x] + s.drop_last()).filter(
                |id: u64| id > t,
            ).push(s.last()));
            assert(seq![x] + s.filter(|id: u64| id > t) =~= (seq![x] + s.drop_last().filter(
                |id: u64| id > t,
            )).push(s.last()));
        }
    }
}

/// A chain bounded above by the threshold filters to nothing.
proof fn lemma_probe_seq_all_filtered(hs: Seq<u64>, d: int, h: u64, t: int)
    requires
        0 <= d,
        d + hs.len() <= u64::MAX,
        d + hs.len() <= t,
    ensures
        probe_seq(hs, d, h).filter(|id: u64| id > t) == Seq::<u64>::empty(),
    decreases hs.len(),
{
    reveal(Seq::filter);
    let s = probe_seq(hs, d, h);
    lemma_probe_seq_monotonic(hs, d, h);
    lemma_seq_filter_none(s, t);
}

/// A hash-to-row-id-chain index over the buffered build rows, with
/// front-range eviction and a nominal capacity that grows on demand and
/// shrinks when mostly empty.
pub struct PruningHashIndex {
    map: HashMap<u64, u64>,
    next: Vec<u64>,
    hashes: Vec<u64>,
    deleted_offset: u64,
    capacity: usize,
}

impl PruningHashIndex {
    /// The hashes of the buffered rows, oldest first; the row at position
    /// `i` has global id `deleted offset + i + 1`.
    pub closed spec fn spec_hashes(self) -> Seq<u64> {
        self.hashes@
    }

    /// How many rows have been pruned from the front; equivalently, the
    /// largest inaccessible row id.
    pub closed spec fn spec_deleted_offset(self) -> u64 {
        self.deleted_offset
    }

    /// The number of hash-table entries: one per distinct live hash.
    pub closed spec fn spec_len(self) -> nat {
        self.map@.dom().len()
    }

    /// The nominal hash-table capacity.
    pub closed spec fn spec_capacity(self) -> usize {
        self.capacity
    }

    /// The structural invariant: the parallel arrays agree, ids fit, every
    /// table entry points at the last buffered row of its hash, every
    /// predecessor entry points at the previous row of the same hash (or at
    /// or below the deleted offset when there is none), and the entry count
    /// never exceeds the capacity.
    pub closed spec fn wf(self) -> bool {
        &&& self.next@.len() == self.hashes@.len()
        &&& self.deleted_offset as int + self.next@.len() <= u64::MAX
        &&& (forall|h: u64| #![trigger self.map@.contains_key(h)] #![trigger last_index_of(self.hashes@, h)]
            (self.map@.contains_key(h) <==> last_index_of(self.hashes@, h) >= 0))
        &&& (forall|h: u64|
            self.map@.contains_key(h) ==> #[trigger] self.map@[h] == self.deleted_offset as int
                + last_index_of(self.hashes@, h) + 1)
        &&& (forall|i: int|
            0 <= i < self.next@.len() ==> {
                let pred = last_index_of(self.hashes@.take(i), self.hashes@[i]);
                &&& (pred >= 0 ==> #[trigger] self.next@[i] == self.deleted_offset as int + pred
                    + 1)
                &&& (pred < 0 ==> self.next@[i] <= self.deleted_offset)
            })
        &&& self.map@.dom().len() <= self.capacity
        &&& self.map@.dom().finite()
    }

    /// Creates an empty index.
    pub fn new() -> (r: PruningHashIndex)
        ensures
            r.wf(),
            r.spec_hashes() == Seq::<u64>::empty(),
            r.spec_deleted_offset() == 0,
            r.spec_capacity() == 0,
            r.spec_len() == 0,
    {
        let r = PruningHashIndex {
            map: HashMap::new(),
            next: Vec::new(),
            hashes: Vec::new(),
            deleted_offset: 0,
            capacity: 0,
        };
        proof {
            assert forall|h: u64| !(last_index_of(r.hashes@, h) >= 0) by {
                assert(r.hashes@.len() == 0);
            }
            assert(r.map@.dom() =~= Set::<u64>::empty());
        }
        r
    }

    /// Appends `row_id` — which must be the next global row id — to the
    /// chain for `hash`.
    pub fn insert(&mut self, hash: u64, row_id: u64)
        requires
            old(self).wf(),
            row_id == old(self).spec_deleted_offset() + old(self).spec_hashes().len() + 1,
        ensures
            final(self).wf(),
            final(self).spec_hashes() == old(self).spec_hashes().push(hash),
            final(self).spec_deleted_offset() == old(self).spec_deleted_offset(),
            final(self).spec_capacity() >= old(self).spec_capacity(),
    {
        let ghost hs0 = self.hashes@;
        let tail: u64 = match self.map.get(&hash) {
            Some(v) => *v,
            None => 0,
        };
        proof {
            lemma_last_index_of_found(hs0, hash);
        }
        self.next.push(tail);
        self.hashes.push(hash);
        self.map.insert(hash, row_id);
        if self.map.len() > self.capacity {
            let len = self.map.len();
            self.capacity = if len <= usize::MAX / 2 {
                len * 2
            } else {
                len
            };
        }
        proof {
            let hs1 = self.hashes@;
            assert(hs1 == hs0.push(hash));
            assert forall|h: u64| true implies #[trigger] last_index_of(hs1, h) == (if h == hash {
                hs0.len() as int
            } else {
                last_index_of(hs0, h)
            }) by {
                lemma_last_index_of_push(hs0, hash, h);
            }
            assert(self.map@.dom() =~= old(self).map@.dom().insert(hash));
            if old(self).map@.dom().contains(hash) {
                assert(self.map@.dom() =~= old(self).map@.dom());
            }
            assert forall|i: int| 0 <= i < self.next@.len() implies {
                let pred = last_index_of(self.hashes@.take(i), self.hashes@[i]);
                &&& (pred >= 0 ==> #[trigger] self.next@[i] == self.deleted_offset as int + pred
                    + 1)
                &&& (pred < 0 ==> self.next@[i] <= self.deleted_offset)
            } by {
                assert(hs1.take(i) =~= if i < hs0.len() {
                    hs0.take(i)
                } else {
                    hs0
                });
                if i < hs0.len() {
                    assert(hs1[i] == hs0[i]);
                    assert(self.next@[i] == old(self).next@[i]);
                }
            }
        }
    }

    /// The chain for `hash`: the global ids of the buffered rows carrying
    /// that hash, most recent first. Ids at or below the deleted offset
    /// never appear.
    pub fn probe(&self, hash: u64) -> (r: Vec<u64>)
        requires
            self.wf(),
        ensures
            r@ == probe_seq(self.spec_hashes(), self.spec_deleted_offset() as int, hash),
    {
        let ghost hs = self.hashes@;
        let ghost d = self.deleted_offset as int;
        let ghost full = probe_seq(hs, d, hash);
        let hlen: usize = self.hashes.len();
        let mut out: Vec<u64> = Vec::new();
        let mut cur: u64 = match self.map.get(&hash) {
            Some(v) => *v,
            None => 0,
        };
        proof {
            lemma_last_index_of_found(hs, hash);
            assert(hs.take(hs.len() as int) =~= hs);
            lemma_probe_seq_trim(hs, d, hash, hs.len() as int);
            if last_index_of(hs, hash) >= 0 {
                assert(cur == d + last_index_of(hs, hash) + 1);
            }
        }
        while cur > self.deleted_offset
            invariant
                self.wf(),
                hs == self.hashes@,
                hs.len() == hlen,
                d == self.deleted_offset as int,
                cur <= d + hs.len(),
                cur > d ==> hs[cur - d - 1] == hash,
                out@ + (if cur > d {
                    probe_seq(hs.take(cur - d), d, hash)
                } else {
                    Seq::<u64>::empty()
                }) == full,
            decreases cur,
        {
            out.push(cur);
            proof {
                assert(cur as int - d - 1 < hlen as int);
            }
            let idx = (cur - self.deleted_offset - 1) as usize;
            let ghost i = idx as int;
            proof {
                assert(i == cur as int - d - 1);
                assert(hs.take(i + 1).last() == hs[i]);
                assert(hs.take(i + 1).drop_last() =~= hs.take(i));
                assert(probe_seq(hs.take(i + 1), d, hash) == seq![(d + i + 1) as u64] + probe_seq(
                    hs.take(i),
                    d,
                    hash,
                ));
            }
            cur = self.next[idx];
            proof {
                let pred = last_index_of(hs.take(i), hs[i]);
                lemma_last_index_of_found(hs.take(i), hs[i]);
                lemma_probe_seq_trim(hs, d, hash, i);
                if pred >= 0 {
                    assert(cur == d + pred + 1);
                    assert(hs.take(i)[pred] == hash);
                    assert(probe_seq(hs.take(i), d, hash) == probe_seq(hs.take(pred + 1), d, hash));
                } else {
                    assert(cur <= d);
                    assert(probe_seq(hs.take(i), d, hash) == Seq::<u64>::empty());
                }
                assert(out@ + (if cur > d {
                    probe_seq(hs.take(cur - d), d, hash)
                } else {
                    Seq::<u64>::empty()
                }) =~= full);
            }
        }
        proof {
            assert(out@ =~= full);
        }
        out
    }

    /// Removes the first `count` buffered rows: their ids become
    /// inaccessible, the deleted offset advances by `count`, and every hash
    /// whose chain lay entirely in the pruned range loses its table entry.
    /// With a `shrink_factor` of at least two, a table more than
    /// `shrink_factor` times larger than its entry count gives up a
    /// `1/shrink_factor` share of its capacity; the capacity never drops
    /// below the entry count and never grows here.
    pub fn prune_front(&mut self, count: usize, shrink_factor: usize)
        requires
            old(self).wf(),
            count <= old(self).spec_hashes().len(),
        ensures
            final(self).wf(),
            final(self).spec_hashes() == old(self).spec_hashes().skip(count as int),
            final(self).spec_deleted_offset() == old(self).spec_deleted_offset() + count,
            final(self).spec_capacity() <= old(self).spec_capacity(),
            final(self).spec_len() <= final(self).spec_capacity(),
            final(self).spec_capacity() as int == (if shrink_factor >= 2 && (old(
                self,
            ).spec_capacity() as int) > (shrink_factor as int) * (final(self).spec_len() as int) {
                (old(self).spec_capacity() as int) * (shrink_factor - 1) as int
                    / (shrink_factor as int)
            } else {
                old(self).spec_capacity() as int
            }),
    {
        let ghost m0 = self.map@;
        let ghost hs0 = self.hashes@;
        let ghost ns0 = self.next@;
        let ghost d0 = self.deleted_offset;
        let ghost cap0 = self.capacity;
        let threshold: u64 = self.deleted_offset + count as u64;
        // Drop the table entry of every hash whose most recent row is being
        // pruned; such a hash occurs among the pruned rows' hashes.
        let mut i: usize = 0;
        while i < count
            invariant
                i <= count,
                count <= hs0.len(),
                self.hashes@ == hs0,
                self.next@ == ns0,
                self.deleted_offset == d0,
                self.capacity == cap0,
                threshold == d0 + count,
                d0 as int + hs0.len() <= u64::MAX,
                self.map@.dom() <= m0.dom(),
                forall|h: u64|
                    #[trigger] self.map@.contains_key(h) ==> m0.contains_key(h) && self.map@[h]
                        == m0[h],
                forall|h: u64|
                    m0.contains_key(h) && m0[h] > threshold ==> #[trigger] self.map@.contains_key(
                        h,
                    ),
                forall|h: u64|
                    m0.contains_key(h) && m0[h] <= threshold && #[trigger] self.map@.contains_key(
                        h,
                    ) ==> forall|j: int| 0 <= j < i ==> hs0[j] != h,
                forall|h: u64|
                    m0.contains_key(h) && (forall|j: int| 0 <= j < i ==> hs0[j] != h)
                        ==> #[trigger] self.map@.contains_key(h),
            decreases count - i,
        {
            let h = self.hashes[i];
            let stale = match self.map.get(&h) {
                Some(tail) => *tail <= threshold,
                None => false,
            };
            if stale {
                self.map.remove(&h);
            }
            proof {
                assert forall|g: u64|
                    m0.contains_key(g) && (forall|j: int| 0 <= j < i + 1 ==> hs0[j] != g)
                        implies #[trigger] self.map@.contains_key(g) by {
                    assert(hs0[i as int] != g);
                }
            }
            i += 1;
        }
        // Slide the parallel arrays down by `count`; surviving predecessor
        // entries keep their global ids, which stay valid.
        let mut new_next: Vec<u64> = Vec::new();
        let mut new_hashes: Vec<u64> = Vec::new();
        let mut i: usize = count;
        while i < self.hashes.len()
            invariant
                count <= i <= hs0.len(),
                self.hashes@ == hs0,
                self.next@ == ns0,
                ns0.len() == hs0.len(),
                new_hashes@ == hs0.subrange(count as int, i as int),
                new_next@ == ns0.subrange(count as int, i as int),
            decreases self.hashes@.len() - i,
        {
            new_next.push(self.next[i]);
            new_hashes.push(self.hashes[i]);
            proof {
                assert(hs0.subrange(count as int, i as int + 1) =~= hs0.subrange(
                    count as int,
                    i as int,
                ).push(hs0[i as int]));
                assert(ns0.subrange(count as int, i as int + 1) =~= ns0.subrange(
                    count as int,
                    i as int,
                ).push(ns0[i as int]));
            }
            i += 1;
        }
        self.next = new_next;
        self.hashes = new_hashes;
        self.deleted_offset = threshold;
        proof {
            assert(self.hashes@ =~= hs0.skip(count as int));
            assert(self.next@ =~= ns0.skip(count as int));
            vstd::set_lib::lemma_len_subset(self.map@.dom(), m0.dom());
        }
        // Shrink the nominal capacity when the table is mostly empty: give up
        // a one-in-`shrink_factor` share. A factor below two could shrink
        // beneath the entry count and is ignored.
        if shrink_factor >= 2 {
            let entries: usize = self.map.len();
            let threshold_hit = match shrink_factor.checked_mul(entries) {
                Some(t) => self.capacity > t,
                None => false,
            };
            if threshold_hit {
                let cap_wide: u128 = self.capacity as u128;
                let factor_wide: u128 = (shrink_factor - 1) as u128;
                proof {
                    assert(cap_wide <= u64::MAX as u128);
                    assert(factor_wide <= u64::MAX as u128);
                    assert(cap_wide as int * factor_wide as int <= (u64::MAX as int) * (
                    u64::MAX as int)) by (nonlinear_arith)
                        requires
                            0 <= cap_wide as int <= u64::MAX as int,
                            0 <= factor_wide as int <= u64::MAX as int,
                    ;
                }
                let reduced128: u128 = cap_wide * factor_wide / (shrink_factor as u128);
                proof {
                    let cap = self.capacity as int;
                    let s = shrink_factor as int;
                    let len = entries as int;
                    vstd::arithmetic::mul::lemma_mul_inequality(s - 1, s, cap);
                    vstd::arithmetic::mul::lemma_mul_is_commutative(s - 1, cap);
                    vstd::arithmetic::mul::lemma_mul_is_commutative(s, cap);
                    vstd::arithmetic::div_mod::lemma_div_is_ordered(cap * (s - 1), cap * s, s);
                    vstd::arithmetic::div_mod::lemma_div_multiples_vanish(cap, s);
                    assert(cap * (s - 1) / s <= cap);
                    assert(cap * (s - 1) >= len * s) by (nonlinear_arith)
                        requires
                            cap >= s * len + 1,
                            s >= 2,
                            len >= 0,
                    ;
                    vstd::arithmetic::div_mod::lemma_div_is_ordered(len * s, cap * (s - 1), s);
                    vstd::arithmetic::div_mod::lemma_div_multiples_vanish(len, s);
                    vstd::arithmetic::mul::lemma_mul_is_commutative(len, s);
                    assert(cap * (s - 1) / s >= len);
                    assert(reduced128 == cap * (s - 1) / s);
                }
                self.capacity = reduced128 as usize;
            }
        }
        proof {
            let hs1 = hs0.skip(count as int);
            let d1 = self.deleted_offset;
            assert forall|h: u64| true implies #[trigger] last_index_of(hs1, h) == (
            if last_index_of(hs0, h) >= count {
                last_index_of(hs0, h) - count
            } else {
                -1
            }) by {
                lemma_last_index_of_skip(hs0, count as int, h);
            }
            assert forall|h: u64| #![trigger self.map@.contains_key(h)] #![trigger last_index_of(hs1, h)]
                (self.map@.contains_key(h) <==> last_index_of(hs1, h) >= 0) by {
                lemma_last_index_of_found(hs0, h);
                if self.map@.contains_key(h) {
                    assert(m0.contains_key(h));
                    if m0[h] <= threshold {
                        assert(last_index_of(hs0, h) < count);
                        assert(hs0[last_index_of(hs0, h)] == h);
                    }
                }
                if last_index_of(hs1, h) >= 0 {
                    assert(last_index_of(hs0, h) >= count);
                    assert(m0.contains_key(h));
                    assert(m0[h] == d0 as int + last_index_of(hs0, h) + 1);
                    assert(m0[h] > threshold);
                }
            }
            assert forall|i: int| 0 <= i < self.next@.len() implies {
                let pred = last_index_of(self.hashes@.take(i), self.hashes@[i]);
                &&& (pred >= 0 ==> #[trigger] self.next@[i] == self.deleted_offset as int + pred
                    + 1)
                &&& (pred < 0 ==> self.next@[i] <= self.deleted_offset)
            } by {
                let gi = i + count;
                assert(hs1[i] == hs0[gi]);
                assert(self.next@[i] == ns0[gi]);
                assert(hs1.take(i) =~= hs0.take(gi).skip(count as int));
                lemma_last_index_of_skip(hs0.take(gi), count as int, hs0[gi]);
                let pred0 = last_index_of(hs0.take(gi), hs0[gi]);
                let pred = last_index_of(hs1.take(i), hs1[i]);
                if pred0 >= count {
                    assert(pred == pred0 - count);
                    assert(ns0[gi] == d0 as int + pred0 + 1);
                } else {
                    assert(pred < 0);
                    if pred0 >= 0 {
                        assert(ns0[gi] == d0 as int + pred0 + 1);
                        assert(ns0[gi] <= d1);
                    } else {
                        assert(ns0[gi] <= d0);
                    }
                }
            }
        }
    }

    /// The number of hash-table entries: one per distinct live hash.
    pub fn len(&self) -> (r: usize)
        ensures
            r == self.spec_len(),
    {
        self.map.len()
    }

    /// The nominal hash-table capacity.
    pub fn capacity(&self) -> (r: usize)
        ensures
            r == self.spec_capacity(),
    {
        self.capacity
    }

    /// How many rows have been pruned from the front.
    pub fn deleted_offset(&self) -> (r: u64)
        ensures
            r == self.spec_deleted_offset(),
    {
        self.deleted_offset
    }

    /// The number of rows currently buffered.
    pub fn buffered_rows(&self) -> (r: usize)
        ensures
            r == self.spec_hashes().len(),
    {
        self.hashes.len()
    }

    /// The approximate memory footprint in bytes: the nominal table
    /// allocation plus the two parallel arrays.
    pub fn size_bytes(&self) -> (r: u128)
        ensures
            r == self.spec_capacity() * 16 + self.spec_hashes().len() * 16,
    {
        self.capacity as u128 * 16 + self.hashes.len() as u128 * 16
    }
}

/// Filtering a sequence with no element above the threshold yields nothing.
proof fn lemma_seq_filter_none(s: Seq<u64>, t: int)
    requires
        forall|j: int| 0 <= j < s.len() ==> !(#[trigger] s[j] > t),
    ensures
        s.filter(|id: u64| id > t) == Seq::<u64>::empty(),
    decreases s.len(),
{
    reveal(Seq::filter);
    if s.len() > 0 {
        lemma_seq_filter_none(s.drop_last(), t);
    } else {
        assert(s =~= Seq::<u64>::empty());
    }
}

} // verus!
