//! Per-flavor adjustment of the `(build index, probe index)` pairings that
//! hash probing produced, and the build-side outer indices emitted while
//! pruning.

use vstd::prelude::*;
use crate::types::JoinType;
use crate::visited::{VisitedRows, visited_contents};
use crate::StreamJoinError;

verus! {

/// `(None, Some(v))` pairs for every probe row `v` in `[from, to)`: the
/// padding emitted for probe rows without a build match.
pub open spec fn spec_null_padding(from: int, to: int) -> Seq<(Option<u64>, Option<u32>)> {
    Seq::new(
        ((if to >= from {
            to - from
        } else {
            0
        }) as nat),
        |i: int| (None::<u64>, Some((from + i) as u32)),
    )
}

/// The shorter of the two pairing arrays, as far as pairs go.
pub open spec fn spec_pair_len(build: Seq<u64>, probe: Seq<u32>) -> int {
    if build.len() <= probe.len() {
        build.len() as int
    } else {
        probe.len() as int
    }
}

/// The order-preserving right-join adjustment, from pair `i` on with `prev`
/// the next unseen probe row: before each matched pair every missing probe
/// row gets a null build index, and after the last pair the remaining probe
/// rows up to `count` are padded likewise.
pub open spec fn spec_append_in_order(
    build: Seq<u64>,
    probe: Seq<u32>,
    i: int,
    prev: int,
    count: int,
) -> Seq<(Option<u64>, Option<u32>)>
    decreases spec_pair_len(build, probe) - i,
{
    if i < 0 || i >= spec_pair_len(build, probe) {
        spec_null_padding(prev, count)
    } else {
        spec_null_padding(prev, probe[i] as int) + seq![(Some(build[i]), Some(probe[i]))]
            + spec_append_in_order(build, probe, i + 1, probe[i] as int + 1, count)
    }
}

/// The two index arrays read as one sequence of pairs.
pub open spec fn spec_zip(a: Seq<Option<u64>>, b: Seq<Option<u32>>) -> Seq<
    (Option<u64>, Option<u32>),
> {
    Seq::new(
        (if a.len() <= b.len() {
            a.len()
        } else {
            b.len()
        }),
        |i: int| (a[i], b[i]),
    )
}

/// The build values with their `Some` wrappers stripped.
pub open spec fn spec_unwrap_build(s: Seq<Option<u64>>) -> Seq<u64> {
    Seq::new(s.len(), |i: int| s[i].unwrap())
}

/// The probe values with their `Some` wrappers stripped.
pub open spec fn spec_unwrap_probe(s: Seq<Option<u32>>) -> Seq<u32> {
    Seq::new(s.len(), |i: int| s[i].unwrap())
}

/// Appends probe indices in order by considering the given build indices.
///
/// Walks the paired indices in probe order; any probe row missing between
/// the previous and the current pair is emitted with a null build index, and
/// after the last pair the probe rows up to `count_probe_batch` are padded
/// the same way. A null in either input array is an internal error.
#[verifier::loop_isolation(false)]
pub fn append_probe_indices_in_order(
    build_indices: Vec<Option<u64>>,
    probe_indices: Vec<Option<u32>>,
    count_probe_batch: u32,
) -> (r: Result<(Vec<Option<u64>>, Vec<Option<u32>>), StreamJoinError>)
    ensures
        (match r {
            Ok(p) => {
                &&& forall|k: int|
                    0 <= k < spec_pair_len(spec_unwrap_build(build_indices@), spec_unwrap_probe(probe_indices@))
                        ==> build_indices@[k] is Some && probe_indices@[k] is Some
                &&& p.0@.len() == p.1@.len()
                &&& spec_zip(p.0@, p.1@) == spec_append_in_order(
                    spec_unwrap_build(build_indices@),
                    spec_unwrap_probe(probe_indices@),
                    0,
                    0,
                    count_probe_batch as int,
                )
            },
            Err(e) => {
                &&& e == StreamJoinError::Internal
                &&& exists|k: int|
                    0 <= k < spec_pair_len(spec_unwrap_build(build_indices@), spec_unwrap_probe(probe_indices@))
                        && (build_indices@[k] is None || probe_indices@[k] is None)
            },
        }),
{
    let ghost ub = spec_unwrap_build(build_indices@);
    let ghost up = spec_unwrap_probe(probe_indices@);
    let ghost full = spec_append_in_order(ub, up, 0, 0, count_probe_batch as int);
    let min_len: usize = if build_indices.len() < probe_indices.len() {
        build_indices.len()
    } else {
        probe_indices.len()
    };
    let mut new_build: Vec<Option<u64>> = Vec::new();
    let mut new_probe: Vec<Option<u32>> = Vec::new();
    let mut prev: u64 = 0;
    let mut i: usize = 0;
    while i < min_len
        invariant
            i <= min_len,
            min_len == spec_pair_len(ub, up),
            new_build@.len() == new_probe@.len(),
            0 <= prev <= 0x1_0000_0000u64,
            forall|k: int| 0 <= k < i ==> build_indices@[k] is Some && probe_indices@[k] is Some,
            spec_zip(new_build@, new_probe@) + spec_append_in_order(
                ub,
                up,
                i as int,
                prev as int,
                count_probe_batch as int,
            ) == full,
        decreases min_len - i,
    {
        let b = match build_indices[i] {
            Some(b) => b,
            None => {
                return Err(StreamJoinError::Internal);
            },
        };
        let p = match probe_indices[i] {
            Some(p) => p,
            None => {
                return Err(StreamJoinError::Internal);
            },
        };
        let ghost base = spec_zip(new_build@, new_probe@);
        let ghost prev0 = prev as int;
        while prev < p as u64
            invariant
                prev0 <= prev as int,
                prev as int <= (if prev0 <= p as int {
                    p as int
                } else {
                    prev0
                }),
                new_build@.len() == new_probe@.len(),
                spec_zip(new_build@, new_probe@) == base + spec_null_padding(prev0, prev as int),
            decreases p as int - prev,
        {
            new_probe.push(Some(prev as u32));
            new_build.push(None);
            proof {
                assert(spec_zip(new_build@, new_probe@) =~= (base + spec_null_padding(
                    prev0,
                    prev as int,
                )).push((None::<u64>, Some(prev as u32))));
                assert(base + spec_null_padding(prev0, prev as int + 1) =~= (base
                    + spec_null_padding(prev0, prev as int)).push((None::<u64>, Some(prev as u32))));
            }
            prev = prev + 1;
        }
        new_probe.push(Some(p));
        new_build.push(Some(b));
        proof {
            assert(up[i as int] == p);
            assert(ub[i as int] == b);
            assert(spec_zip(new_build@, new_probe@) =~= (base + spec_null_padding(prev0, p as int)).push(
                (Some(b), Some(p)),
            ));
            assert((base + spec_null_padding(prev0, p as int)).push((Some(b), Some(p))) =~= base + (
            spec_null_padding(prev0, p as int) + seq![(Some(b), Some(p))]));
            assert(spec_append_in_order(ub, up, i as int, prev0, count_probe_batch as int)
                == spec_null_padding(prev0, p as int) + seq![(Some(b), Some(p))]
                + spec_append_in_order(ub, up, i as int + 1, p as int + 1, count_probe_batch as int));
            assert(spec_zip(new_build@, new_probe@) + spec_append_in_order(
                ub,
                up,
                i as int + 1,
                p as int + 1,
                count_probe_batch as int,
            ) =~= full);
        }
        prev = p as u64 + 1;
        i += 1;
    }
    let ghost base = spec_zip(new_build@, new_probe@);
    let ghost prev0 = prev as int;
    proof {
        assert(spec_append_in_order(ub, up, i as int, prev0, count_probe_batch as int)
            == spec_null_padding(prev0, count_probe_batch as int));
    }
    while prev < count_probe_batch as u64
        invariant
            prev0 <= prev as int <= if prev0 <= count_probe_batch as int {
                count_probe_batch as int
            } else {
                prev0
            },
            new_build@.len() == new_probe@.len(),
            spec_zip(new_build@, new_probe@) == base + spec_null_padding(prev0, prev as int),
        decreases count_probe_batch as int - prev,
    {
        new_probe.push(Some(prev as u32));
        new_build.push(None);
        proof {
            assert(spec_zip(new_build@, new_probe@) =~= (base + spec_null_padding(
                prev0,
                prev as int,
            )).push((None::<u64>, Some(prev as u32))));
            assert(base + spec_null_padding(prev0, prev as int + 1) =~= (base + spec_null_padding(
                prev0,
                prev as int,
            )).push((None::<u64>, Some(prev as u32))));
        }
        prev = prev + 1;
    }
    proof {
        assert(spec_null_padding(prev0, count_probe_batch as int) =~= spec_null_padding(
            prev0,
            prev as int,
        ));
        assert(spec_zip(new_build@, new_probe@) =~= full);
    }
    Ok((new_build, new_probe))
}

/// Order preservation of the right-join adjustment: when the matched probe
/// indices are pairwise strictly increasing and lie in `[prev, count)`, the
/// adjusted output enumerates the probe rows `[prev, count)` exactly once,
/// in increasing order: position `j` holds probe row `prev + j`.
pub proof fn lemma_append_in_order_enumerates(
    build: Seq<u64>,
    probe: Seq<u32>,
    i: int,
    prev: int,
    count: int,
)
    requires
        build.len() == probe.len(),
        0 <= i <= probe.len(),
        0 <= prev,
        count <= 0x1_0000_0000,
        forall|k: int, l: int| i <= k < l < probe.len() ==> probe[k] < probe[l],
        forall|k: int| i <= k < probe.len() ==> prev <= #[trigger] probe[k] < count,
    ensures
        spec_append_in_order(build, probe, i, prev, count).len() == if prev <= count {
            count - prev
        } else {
            0
        },
        forall|j: int|
            0 <= j < spec_append_in_order(build, probe, i, prev, count).len()
                ==> spec_append_in_order(build, probe, i, prev, count)[j].1 == Some(
                (prev + j) as u32,
            ),
    decreases probe.len() - i,
{
    if i < probe.len() {
        lemma_append_in_order_enumerates(build, probe, i + 1, probe[i] as int + 1, count);
        let out = spec_append_in_order(build, probe, i, prev, count);
        let pad = spec_null_padding(prev, probe[i] as int);
        let rest = spec_append_in_order(build, probe, i + 1, probe[i] as int + 1, count);
        assert(out == pad + seq![(Some(build[i]), Some(probe[i]))] + rest);
        assert(out.len() == count - prev);
        assert forall|j: int| 0 <= j < out.len() implies out[j].1 == Some((prev + j) as u32) by {
            if j < pad.len() {
                assert(out[j] == pad[j]);
            } else if j == pad.len() {
                assert(out[j] == (Some(build[i]), Some(probe[i])));
                assert(probe[i] as int == prev + j);
            } else {
                assert(out[j] == rest[j - pad.len() - 1]);
                assert(rest[j - pad.len() - 1].1 == Some(
                    (probe[i] as int + 1 + (j - pad.len() - 1)) as u32,
                ));
            }
        }
    }
}

/// True when some entry of `s` is `Some(v)`.
pub open spec fn spec_contains_probe(s: Seq<Option<u32>>, v: u32) -> bool {
    exists|j: int| 0 <= j < s.len() && s[j] == Some(v)
}

/// The probe rows of `[0, count)` that do not occur in `s`, in increasing
/// order.
pub open spec fn spec_anti_indices(s: Seq<Option<u32>>, count: int) -> Seq<u32>
    decreases count,
{
    if count <= 0 {
        Seq::empty()
    } else {
        spec_anti_indices(s, count - 1) + (if spec_contains_probe(s, (count - 1) as u32) {
            Seq::empty()
        } else {
            seq![(count - 1) as u32]
        })
    }
}

/// The probe rows of `[0, count)` that occur in `s`, in increasing order and
/// without duplicates.
pub open spec fn spec_semi_indices(s: Seq<Option<u32>>, count: int) -> Seq<u32>
    decreases count,
{
    if count <= 0 {
        Seq::empty()
    } else {
        spec_semi_indices(s, count - 1) + (if spec_contains_probe(s, (count - 1) as u32) {
            seq![(count - 1) as u32]
        } else {
            Seq::empty()
        })
    }
}

/// Whether `probe` holds the value `v`; a linear scan over the array.
#[verifier::loop_isolation(false)]
fn contains_probe_value(probe: &Vec<Option<u32>>, v: u32) -> (r: bool)
    ensures
        r == spec_contains_probe(probe@, v),
{
    let mut j: usize = 0;
    while j < probe.len()
        invariant
            j <= probe.len(),
            !spec_contains_probe(probe@.take(j as int), v),
        decreases probe.len() - j,
    {
        match probe[j] {
            Some(x) => {
                if x == v {
                    assert(probe@[j as int] == Some(v));
                    return true;
                }
            },
            None => {},
        }
        proof {
            assert forall|k: int| 0 <= k < j as int + 1 implies #[trigger] probe@.take(
                j as int + 1,
            )[k] != Some(v) by {
                if k < j as int {
                    assert(probe@.take(j as int)[k] == probe@.take(j as int + 1)[k]);
                }
            }
        }
        j += 1;
    }
    proof {
        assert(probe@.take(probe@.len() as int) =~= probe@);
    }
    false
}

/// The probe rows of `[0, count)` with no hit in `probe`, in increasing
/// order; probe entries that are null or out of range cannot hit anything.
#[verifier::loop_isolation(false)]
pub fn get_anti_indices(count: usize, probe: &Vec<Option<u32>>) -> (r: Vec<u32>)
    requires
        count <= 0xffff_ffff,
    ensures
        r@ == spec_anti_indices(probe@, count as int),
{
    let mut out: Vec<u32> = Vec::new();
    let mut i: usize = 0;
    while i < count
        invariant
            i <= count,
            out@ == spec_anti_indices(probe@, i as int),
        decreases count - i,
    {
        if !contains_probe_value(probe, i as u32) {
            out.push(i as u32);
            proof {
                assert(spec_anti_indices(probe@, i as int + 1) =~= out@);
            }
        } else {
            proof {
                assert(spec_anti_indices(probe@, i as int + 1) =~= out@);
            }
        }
        i += 1;
    }
    out
}

/// The probe rows of `[0, count)` with a hit in `probe`, in increasing order
/// and without duplicates.
#[verifier::loop_isolation(false)]
pub fn get_semi_indices(count: usize, probe: &Vec<Option<u32>>) -> (r: Vec<u32>)
    requires
        count <= 0xffff_ffff,
    ensures
        r@ == spec_semi_indices(probe@, count as int),
{
    let mut out: Vec<u32> = Vec::new();
    let mut i: usize = 0;
    while i < count
        invariant
            i <= count,
            out@ == spec_semi_indices(probe@, i as int),
        decreases count - i,
    {
        if contains_probe_value(probe, i as u32) {
            out.push(i as u32);
            proof {
                assert(spec_semi_indices(probe@, i as int + 1) =~= out@);
            }
        } else {
            proof {
                assert(spec_semi_indices(probe@, i as int + 1) =~= out@);
            }
        }
        i += 1;
    }
    out
}

/// The pruned build rows `[0, n)` whose global id (`offset` + row) was never
/// visited, in increasing order: the rows an outer join still owes output
/// for.
pub open spec fn spec_pruning_anti(vis: Set<usize>, offset: int, n: int) -> Seq<u64>
    decreases n,
{
    if n <= 0 {
        Seq::empty()
    } else {
        spec_pruning_anti(vis, offset, n - 1) + (if vis.contains((offset + n - 1) as usize) {
            Seq::empty()
        } else {
            seq![(n - 1) as u64]
        })
    }
}

/// The pruned build rows `[0, n)` whose global id was visited, in increasing
/// order.
pub open spec fn spec_pruning_semi(vis: Set<usize>, offset: int, n: int) -> Seq<u64>
    decreases n,
{
    if n <= 0 {
        Seq::empty()
    } else {
        spec_pruning_semi(vis, offset, n - 1) + (if vis.contains((offset + n - 1) as usize) {
            seq![(n - 1) as u64]
        } else {
            Seq::empty()
        })
    }
}

/// The pruned build rows without a visit, for outer output at prune time.
#[verifier::loop_isolation(false)]
pub fn get_pruning_anti_indices(
    prune_length: usize,
    deleted_offset: usize,
    visited_rows: &VisitedRows,
) -> (r: Vec<u64>)
    requires
        prune_length + deleted_offset <= usize::MAX,
    ensures
        r@ == spec_pruning_anti(
            visited_contents(*visited_rows),
            deleted_offset as int,
            prune_length as int,
        ),
{
    let ghost vis = visited_contents(*visited_rows);
    let mut out: Vec<u64> = Vec::new();
    let mut i: usize = 0;
    while i < prune_length
        invariant
            i <= prune_length,
            out@ == spec_pruning_anti(vis, deleted_offset as int, i as int),
        decreases prune_length - i,
    {
        if !visited_rows.contains(i + deleted_offset) {
            out.push(i as u64);
        }
        proof {
            assert(spec_pruning_anti(vis, deleted_offset as int, i as int + 1) =~= out@);
        }
        i += 1;
    }
    out
}

/// The pruned build rows with a visit, for left-semi output at prune time.
#[verifier::loop_isolation(false)]
pub fn get_pruning_semi_indices(
    prune_length: usize,
    deleted_offset: usize,
    visited_rows: &VisitedRows,
) -> (r: Vec<u64>)
    requires
        prune_length + deleted_offset <= usize::MAX,
    ensures
        r@ == spec_pruning_semi(
            visited_contents(*visited_rows),
            deleted_offset as int,
            prune_length as int,
        ),
{
    let ghost vis = visited_contents(*visited_rows);
    let mut out: Vec<u64> = Vec::new();
    let mut i: usize = 0;
    while i < prune_length
        invariant
            i <= prune_length,
            out@ == spec_pruning_semi(vis, deleted_offset as int, i as int),
        decreases prune_length - i,
    {
        if visited_rows.contains(i + deleted_offset) {
            out.push(i as u64);
        }
        proof {
            assert(spec_pruning_semi(vis, deleted_offset as int, i as int + 1) =~= out@);
        }
        i += 1;
    }
    out
}

/// Anti/semi duality: for any visited set, the anti and the semi indices of
/// the pruned range form a disjoint union of `[0, n)` — every pruned row
/// lands in exactly one of the two, each side is strictly increasing, and
/// the lengths add up to the range.
pub proof fn lemma_pruning_anti_semi_duality(vis: Set<usize>, offset: int, n: int)
    requires
        0 <= n <= u64::MAX,
        0 <= offset,
        offset + n <= usize::MAX,
    ensures
        spec_pruning_anti(vis, offset, n).len() + spec_pruning_semi(vis, offset, n).len() == n,
        forall|v: int|
            0 <= v < n
                ==> (spec_pruning_anti(vis, offset, n).contains(v as u64) <==> !#[trigger] vis.contains(
                (offset + v) as usize,
            )),
        forall|v: int|
            0 <= v < n
                ==> (spec_pruning_semi(vis, offset, n).contains(v as u64) <==> #[trigger] vis.contains(
                (offset + v) as usize,
            )),
        forall|j: int|
            0 <= j < spec_pruning_anti(vis, offset, n).len() ==> #[trigger] spec_pruning_anti(
                vis,
                offset,
                n,
            )[j] < n,
        forall|j: int|
            0 <= j < spec_pruning_semi(vis, offset, n).len() ==> #[trigger] spec_pruning_semi(
                vis,
                offset,
                n,
            )[j] < n,
        forall|j: int, k: int|
            0 <= j < k < spec_pruning_anti(vis, offset, n).len() ==> spec_pruning_anti(
                vis,
                offset,
                n,
            )[j] < spec_pruning_anti(vis, offset, n)[k],
        forall|j: int, k: int|
            0 <= j < k < spec_pruning_semi(vis, offset, n).len() ==> spec_pruning_semi(
                vis,
                offset,
                n,
            )[j] < spec_pruning_semi(vis, offset, n)[k],
    decreases n,
{
    if n > 0 {
        lemma_pruning_anti_semi_duality(vis, offset, n - 1);
        let anti = spec_pruning_anti(vis, offset, n);
        let semi = spec_pruning_semi(vis, offset, n);
        let anti0 = spec_pruning_anti(vis, offset, n - 1);
        let semi0 = spec_pruning_semi(vis, offset, n - 1);
        if vis.contains((offset + n - 1) as usize) {
            assert(anti =~= anti0);
            assert(semi =~= semi0 + seq![(n - 1) as u64]);
        } else {
            assert(anti =~= anti0 + seq![(n - 1) as u64]);
            assert(semi =~= semi0);
        }
        assert forall|v: int| 0 <= v < n implies (anti.contains(v as u64) <==> !#[trigger] vis.contains(
            (offset + v) as usize,
        )) by {
            if v < n - 1 {
                if anti0.contains(v as u64) {
                    let j = choose|j: int| 0 <= j < anti0.len() && anti0[j] == v as u64;
                    assert(anti[j] == v as u64);
                    assert(anti.contains(v as u64));
                }
                if anti.contains(v as u64) {
                    let j = choose|j: int| 0 <= j < anti.len() && anti[j] == v as u64;
                    if j < anti0.len() {
                        assert(anti0[j] == v as u64);
                        assert(anti0.contains(v as u64));
                    } else {
                        assert(anti[j] == (n - 1) as u64);
                    }
                }
            } else {
                if !vis.contains((offset + v) as usize) {
                    assert(anti[anti.len() - 1] == v as u64);
                    assert(anti.contains(v as u64));
                }
                if anti.contains(v as u64) && vis.contains((offset + v) as usize) {
                    let j = choose|j: int| 0 <= j < anti.len() && anti[j] == v as u64;
                    assert(anti0[j] == v as u64);
                    assert(anti0.contains(v as u64));
                }
            }
        }
        assert forall|v: int| 0 <= v < n implies (semi.contains(v as u64) <==> #[trigger] vis.contains(
            (offset + v) as usize,
        )) by {
            if v < n - 1 {
                if semi0.contains(v as u64) {
                    let j = choose|j: int| 0 <= j < semi0.len() && semi0[j] == v as u64;
                    assert(semi[j] == v as u64);
                    assert(semi.contains(v as u64));
                }
                if semi.contains(v as u64) {
                    let j = choose|j: int| 0 <= j < semi.len() && semi[j] == v as u64;
                    if j < semi0.len() {
                        assert(semi0[j] == v as u64);
                        assert(semi0.contains(v as u64));
                    } else {
                        assert(semi[j] == (n - 1) as u64);
                    }
                }
            } else {
                if vis.contains((offset + v) as usize) {
                    assert(semi[semi.len() - 1] == v as u64);
                    assert(semi.contains(v as u64));
                }
                if semi.contains(v as u64) && !vis.contains((offset + v) as usize) {
                    let j = choose|j: int| 0 <= j < semi.len() && semi[j] == v as u64;
                    assert(semi0[j] == v as u64);
                    assert(semi0.contains(v as u64));
                }
            }
        }
    }
}

/// Wraps each probe row in `Some`, the shape the adjusted pairings use.
#[verifier::loop_isolation(false)]
fn wrap_probe_values(values: Vec<u32>) -> (r: Vec<Option<u32>>)
    ensures
        r@ == values@.map_values(|v: u32| Some(v)),
{
    let mut out: Vec<Option<u32>> = Vec::new();
    let mut i: usize = 0;
    while i < values.len()
        invariant
            i <= values.len(),
            out@ == values@.take(i as int).map_values(|v: u32| Some(v)),
        decreases values.len() - i,
    {
        out.push(Some(values[i]));
        proof {
            assert(values@.take(i as int + 1).map_values(|v: u32| Some(v)) =~= out@);
        }
        i += 1;
    }
    proof {
        assert(values@.take(values@.len() as int) =~= values@);
    }
    out
}

/// A run of `count` null build indices.
#[verifier::loop_isolation(false)]
fn null_build_indices(count: usize) -> (r: Vec<Option<u64>>)
    ensures
        r@ == Seq::new(count as nat, |i: int| None::<u64>),
{
    let mut out: Vec<Option<u64>> = Vec::new();
    let mut i: usize = 0;
    while i < count
        invariant
            i <= count,
            out@ == Seq::new(i as nat, |k: int| None::<u64>),
        decreases count - i,
    {
        out.push(None);
        proof {
            assert(Seq::new(i as nat + 1, |k: int| None::<u64>) =~= out@);
        }
        i += 1;
    }
    out
}

/// A run of `count` null probe indices.
#[verifier::loop_isolation(false)]
fn null_probe_indices(count: usize) -> (r: Vec<Option<u32>>)
    ensures
        r@ == Seq::new(count as nat, |i: int| None::<u32>),
{
    let mut out: Vec<Option<u32>> = Vec::new();
    let mut i: usize = 0;
    while i < count
        invariant
            i <= count,
            out@ == Seq::new(i as nat, |k: int| None::<u32>),
        decreases count - i,
    {
        out.push(None);
        proof {
            assert(Seq::new(i as nat + 1, |k: int| None::<u32>) =~= out@);
        }
        i += 1;
    }
    out
}

/// Adjusts the hash-probe pairings for the given join flavor.
///
/// `Inner` and `Left` pass through unchanged (unmatched build rows are
/// emitted at prune time). `Right` rebuilds the pairings in probe order with
/// null build indices for unmatched probe rows. `Full` appends the unmatched
/// probe rows, with null build indices, to the matched pairings. `RightSemi`
/// and `RightAnti` replace the probe side with its distinct hit positions,
/// or their complement in `[0, count_probe_batch)`. `LeftSemi` and
/// `LeftAnti` emit nothing here: their output comes from build-side pruning.
#[verifier::loop_isolation(false)]
pub fn adjust_probe_side_indices_by_join_type(
    build_indices: Vec<Option<u64>>,
    probe_indices: Vec<Option<u32>>,
    count_probe_batch: usize,
    join_type: JoinType,
) -> (r: Result<(Vec<Option<u64>>, Vec<Option<u32>>), StreamJoinError>)
    requires
        count_probe_batch <= 0xffff_ffff,
    ensures
        (match r {
            Ok(p) => {
                &&& (join_type == JoinType::Inner || join_type == JoinType::Left ==> p.0@
                    == build_indices@ && p.1@ == probe_indices@)
                &&& (join_type == JoinType::Right ==> {
                    &&& forall|k: int|
                        0 <= k < spec_pair_len(
                            spec_unwrap_build(build_indices@),
                            spec_unwrap_probe(probe_indices@),
                        ) ==> build_indices@[k] is Some && probe_indices@[k] is Some
                    &&& p.0@.len() == p.1@.len()
                    &&& spec_zip(p.0@, p.1@) == spec_append_in_order(
                        spec_unwrap_build(build_indices@),
                        spec_unwrap_probe(probe_indices@),
                        0,
                        0,
                        count_probe_batch as int,
                    )
                })
                &&& (join_type == JoinType::Full ==> {
                    &&& p.0@ == build_indices@ + Seq::new(
                        spec_anti_indices(probe_indices@, count_probe_batch as int).len(),
                        |i: int| None::<u64>,
                    )
                    &&& p.1@ == probe_indices@ + spec_anti_indices(
                        probe_indices@,
                        count_probe_batch as int,
                    ).map_values(|v: u32| Some(v))
                })
                &&& (join_type == JoinType::RightSemi ==> p.0@ == build_indices@ && p.1@
                    == spec_semi_indices(probe_indices@, count_probe_batch as int).map_values(
                    |v: u32| Some(v),
                ))
                &&& (join_type == JoinType::RightAnti ==> p.0@ == build_indices@ && p.1@
                    == spec_anti_indices(probe_indices@, count_probe_batch as int).map_values(
                    |v: u32| Some(v),
                ))
                &&& (join_type == JoinType::LeftSemi || join_type == JoinType::LeftAnti ==> p.0@
                    == Seq::<Option<u64>>::empty() && p.1@ == Seq::<Option<u32>>::empty())
            },
            Err(e) => {
                &&& join_type == JoinType::Right
                &&& e == StreamJoinError::Internal
                &&& exists|k: int|
                    0 <= k < spec_pair_len(
                        spec_unwrap_build(build_indices@),
                        spec_unwrap_probe(probe_indices@),
                    ) && (build_indices@[k] is None || probe_indices@[k] is None)
            },
        }),
{
    match join_type {
        JoinType::Inner | JoinType::Left => Ok((build_indices, probe_indices)),
        JoinType::Right => {
            match append_probe_indices_in_order(
                build_indices,
                probe_indices,
                count_probe_batch as u32,
            ) {
                Ok(p) => Ok(p),
                Err(e) => Err(e),
            }
        },
        JoinType::Full => {
            let anti = get_anti_indices(count_probe_batch, &probe_indices);
            let nulls = null_build_indices(anti.len());
            let wrapped = wrap_probe_values(anti);
            let mut new_build = build_indices;
            let mut new_probe = probe_indices;
            let ghost b0 = new_build@;
            let ghost p0 = new_probe@;
            let mut k: usize = 0;
            while k < nulls.len()
                invariant
                    k <= nulls.len(),
                    new_build@ == b0 + nulls@.take(k as int),
                decreases nulls.len() - k,
            {
                new_build.push(nulls[k]);
                proof {
                    assert(b0 + nulls@.take(k as int + 1) =~= new_build@);
                }
                k += 1;
            }
            let mut k: usize = 0;
            while k < wrapped.len()
                invariant
                    k <= wrapped.len(),
                    new_probe@ == p0 + wrapped@.take(k as int),
                decreases wrapped.len() - k,
            {
                new_probe.push(wrapped[k]);
                proof {
                    assert(p0 + wrapped@.take(k as int + 1) =~= new_probe@);
                }
                k += 1;
            }
            proof {
                assert(nulls@.take(nulls@.len() as int) =~= nulls@);
                assert(wrapped@.take(wrapped@.len() as int) =~= wrapped@);
            }
            Ok((new_build, new_probe))
        },
        JoinType::RightSemi => {
            let semi = get_semi_indices(count_probe_batch, &probe_indices);
            Ok((build_indices, wrap_probe_values(semi)))
        },
        JoinType::RightAnti => {
            let anti = get_anti_indices(count_probe_batch, &probe_indices);
            Ok((build_indices, wrap_probe_values(anti)))
        },
        JoinType::LeftAnti | JoinType::LeftSemi => {
            Ok((Vec::new(), Vec::new()))
        },
    }
}

/// Calculates the build-side outer indices for the flavors that emit them at
/// prune time: the never-visited pruned rows for `Left`, `LeftAnti` and
/// `Full`, the visited ones for `LeftSemi`, each paired with null probe
/// indices. Any other flavor on this path is an internal error.
pub fn calculate_build_outer_indices_by_join_type(
    prune_length: usize,
    visited_rows: &VisitedRows,
    deleted_offset: usize,
    join_type: JoinType,
) -> (r: Result<(Vec<u64>, Vec<Option<u32>>), StreamJoinError>)
    requires
        prune_length + deleted_offset <= usize::MAX,
    ensures
        (match r {
            Ok(p) => {
                &&& (join_type == JoinType::Left || join_type == JoinType::LeftAnti || join_type
                    == JoinType::Full ==> p.0@ == spec_pruning_anti(
                    visited_contents(*visited_rows),
                    deleted_offset as int,
                    prune_length as int,
                ))
                &&& (join_type == JoinType::LeftSemi ==> p.0@ == spec_pruning_semi(
                    visited_contents(*visited_rows),
                    deleted_offset as int,
                    prune_length as int,
                ))
                &&& p.1@ == Seq::new(p.0@.len(), |i: int| None::<u32>)
                &&& (join_type == JoinType::Left || join_type == JoinType::LeftAnti || join_type
                    == JoinType::Full || join_type == JoinType::LeftSemi)
            },
            Err(e) => {
                &&& e == StreamJoinError::Internal
                &&& !(join_type == JoinType::Left || join_type == JoinType::LeftAnti || join_type
                    == JoinType::Full || join_type == JoinType::LeftSemi)
            },
        }),
{
    match join_type {
        JoinType::Left | JoinType::LeftAnti | JoinType::Full => {
            let build_unmatched_indices = get_pruning_anti_indices(
                prune_length,
                deleted_offset,
                visited_rows,
            );
            let probe_indices = null_probe_indices(build_unmatched_indices.len());
            Ok((build_unmatched_indices, probe_indices))
        },
        JoinType::LeftSemi => {
            let build_unmatched_indices = get_pruning_semi_indices(
                prune_length,
                deleted_offset,
                visited_rows,
            );
            let probe_indices = null_probe_indices(build_unmatched_indices.len());
            Ok((build_unmatched_indices, probe_indices))
        },
        _ => Err(StreamJoinError::Internal),
    }
}

} // verus!
