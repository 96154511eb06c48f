//! Derivation of the sorted filter expressions usable for pruning: which
//! input orderings map, through the join filter, into sortable filter
//! columns.

use vstd::prelude::*;
use crate::expr::{spec_columns, spec_is_subtree, spec_map_lookup, spec_mappable, spec_rewrites_to, FilterExpr};
use crate::filter::{spec_global_map, spec_subset_map, build_column_maps, JoinFilter};
use crate::interval::Interval;
use crate::sorted_expr::{SortExpr, SortedFilterExpr};
use crate::types::JoinSide;

verus! {

/// Two input columns known equal: the same column, or members of one
/// equivalence class.
pub open spec fn spec_cols_related(classes: Seq<Vec<usize>>, a: usize, b: usize) -> bool {
    a == b || exists|c: int|
        0 <= c < classes.len() && (#[trigger] classes[c])@.contains(a) && classes[c]@.contains(b)
}

/// Whether the two expressions name a pair of columns known equal.
pub open spec fn spec_shares_related_column(
    classes: Seq<Vec<usize>>,
    e1: FilterExpr,
    e2: FilterExpr,
) -> bool {
    exists|x: int, y: int|
        #![trigger spec_columns(e1)[x], spec_columns(e2)[y]]
        0 <= x < spec_columns(e1).len() && 0 <= y < spec_columns(e2).len() && spec_cols_related(
            classes,
            spec_columns(e1)[x],
            spec_columns(e2)[y],
        )
}

/// The orderings from the ordering-equivalence class whose leading
/// expression names a column equal, under the equivalence classes, to a
/// column of the candidate.
pub open spec fn spec_selected_orderings(
    orderings: Seq<SortExpr>,
    candidate_expr: FilterExpr,
    classes: Seq<Vec<usize>>,
) -> Seq<SortExpr>
    decreases orderings.len(),
{
    if orderings.len() == 0 {
        Seq::empty()
    } else {
        spec_selected_orderings(orderings.drop_last(), candidate_expr, classes) + (
        if spec_shares_related_column(classes, candidate_expr, orderings.last().expr) {
            seq![orderings.last()]
        } else {
            Seq::<SortExpr>::empty()
        })
    }
}

/// A seed is accepted when every column it names maps through the filter's
/// column-index table into the intermediate schema, and its rewritten form
/// occurs verbatim as a subtree of the filter expression.
pub open spec fn spec_seed_accepted(
    seed: SortExpr,
    gmap: Seq<(usize, usize)>,
    filter_expr: FilterExpr,
) -> bool {
    &&& spec_mappable(seed.expr, gmap)
    &&& exists|g: FilterExpr|
        #[trigger] spec_rewrites_to(seed.expr, gmap, g) && spec_is_subtree(g, filter_expr)
}

/// Column rewriting is a function: one input has one rewritten form.
pub proof fn lemma_rewrites_deterministic(
    e: FilterExpr,
    pairs: Seq<(usize, usize)>,
    a: FilterExpr,
    b: FilterExpr,
)
    requires
        spec_rewrites_to(e, pairs, a),
        spec_rewrites_to(e, pairs, b),
    ensures
        a == b,
    decreases e,
{
    match e {
        FilterExpr::Column(_) => {},
        FilterExpr::Literal(_) => {},
        FilterExpr::Binary(op, l, r) => {
            match (a, b) {
                (FilterExpr::Binary(_, la, ra), FilterExpr::Binary(_, lb, rb)) => {
                    lemma_rewrites_deterministic(*l, pairs, *la, *lb);
                    lemma_rewrites_deterministic(*r, pairs, *ra, *rb);
                },
                _ => {},
            }
        },
    }
}

/// The two column maps of one side share a domain: a column maps globally
/// exactly when it maps into the side subset.
proof fn lemma_map_domains_agree(
    cols: Seq<crate::filter::ColumnIndex>,
    side: JoinSide,
    c: usize,
)
    ensures
        (spec_map_lookup(spec_global_map(cols, side), c) is Some) == (spec_map_lookup(
            spec_subset_map(cols, side),
            c,
        ) is Some),
    decreases cols.len(),
{
    if cols.len() > 0 {
        lemma_map_domains_agree(cols.drop_last(), side, c);
        let g0 = spec_global_map(cols.drop_last(), side);
        let s0 = spec_subset_map(cols.drop_last(), side);
        if cols.last().side == side {
            let ge = (cols.last().index, (cols.len() - 1) as usize);
            let se = (
                cols.last().index,
                crate::filter::spec_side_count(cols, side, cols.len() - 1) as usize,
            );
            lemma_lookup_append(g0, ge, c);
            lemma_lookup_append(s0, se, c);
        } else {
            assert(spec_global_map(cols, side) =~= g0);
            assert(spec_subset_map(cols, side) =~= s0);
        }
    }
}

/// Looking a key up in a map extended at the back: the front entry still
/// wins; the new entry only answers keys the front did not hold.
proof fn lemma_lookup_append(pairs: Seq<(usize, usize)>, e: (usize, usize), c: usize)
    ensures
        spec_map_lookup(pairs + seq![e], c) == (if spec_map_lookup(pairs, c) is Some {
            spec_map_lookup(pairs, c)
        } else if e.0 == c {
            Some(e.1)
        } else {
            None::<usize>
        }),
    decreases pairs.len(),
{
    if pairs.len() == 0 {
        assert((pairs + seq![e])[0] == e);
        assert((pairs + seq![e]).drop_first() =~= Seq::<(usize, usize)>::empty());
    } else {
        assert((pairs + seq![e])[0] == pairs[0]);
        assert((pairs + seq![e]).drop_first() =~= pairs.drop_first() + seq![e]);
        lemma_lookup_append(pairs.drop_first(), e, c);
    }
}

/// Mappability agrees between the two maps of one side.
proof fn lemma_mappable_agrees(
    e: FilterExpr,
    cols: Seq<crate::filter::ColumnIndex>,
    side: JoinSide,
)
    ensures
        spec_mappable(e, spec_global_map(cols, side)) == spec_mappable(
            e,
            spec_subset_map(cols, side),
        ),
    decreases e,
{
    match e {
        FilterExpr::Column(c) => {
            lemma_map_domains_agree(cols, side, c);
        },
        FilterExpr::Literal(_) => {},
        FilterExpr::Binary(_, l, r) => {
            lemma_mappable_agrees(*l, cols, side);
            lemma_mappable_agrees(*r, cols, side);
        },
    }
}

/// Whether any column of `a` is related to any column of `b` under the
/// equivalence classes.
#[verifier::loop_isolation(false)]
fn any_related(classes: &Vec<Vec<usize>>, a: &Vec<usize>, b: &Vec<usize>) -> (r: bool)
    ensures
        r == (exists|x: int, y: int|
            #![trigger a@[x], b@[y]]
            0 <= x < a@.len() && 0 <= y < b@.len() && spec_cols_related(classes@, a@[x], b@[y])),
{
    let mut x: usize = 0;
    while x < a.len()
        invariant
            x <= a@.len(),
            forall|i: int, j: int|
                #![trigger a@[i], b@[j]]
                0 <= i < x && 0 <= j < b@.len() ==> !spec_cols_related(classes@, a@[i], b@[j]),
        decreases a.len() - x,
    {
        let mut y: usize = 0;
        while y < b.len()
            invariant
                x < a@.len(),
                y <= b@.len(),
                forall|j: int| 0 <= j < y ==> !spec_cols_related(classes@, a@[x as int], #[trigger] b@[j]),
            decreases b.len() - y,
        {
            if cols_related(classes, a[x], b[y]) {
                return true;
            }
            y += 1;
        }
        x += 1;
    }
    false
}

/// Whether the two columns are known equal.
#[verifier::loop_isolation(false)]
fn cols_related(classes: &Vec<Vec<usize>>, a: usize, b: usize) -> (r: bool)
    ensures
        r == spec_cols_related(classes@, a, b),
{
    if a == b {
        return true;
    }
    let mut c: usize = 0;
    while c < classes.len()
        invariant
            c <= classes@.len(),
            forall|i: int|
                0 <= i < c ==> !((#[trigger] classes@[i])@.contains(a) && classes@[i]@.contains(b)),
        decreases classes.len() - c,
    {
        let class = &classes[c];
        if contains_col(class, a) && contains_col(class, b) {
            return true;
        }
        c += 1;
    }
    false
}

/// Whether the column list holds `x`.
#[verifier::loop_isolation(false)]
fn contains_col(v: &Vec<usize>, x: usize) -> (r: bool)
    ensures
        r == v@.contains(x),
{
    let mut j: usize = 0;
    while j < v.len()
        invariant
            j <= v@.len(),
            forall|k: int| 0 <= k < j ==> v@[k] != x,
        decreases v.len() - j,
    {
        if v[j] == x {
            return true;
        }
        j += 1;
    }
    false
}

/// Derives the sorted filter expressions of one side: the candidate sort
/// expression is seeded together with every ordering-equivalent ordering
/// that names a column equal to one of the candidate's; each seed whose
/// columns all map through the filter's column-index table, and whose
/// rewritten form occurs verbatim in the filter tree, yields a sorted
/// filter expression carrying both the filter-schema form and the
/// side-subset form. Seeds that fail either test are dropped.
#[verifier::loop_isolation(false)]
pub fn build_filter_order(
    side: JoinSide,
    filter: &JoinFilter,
    candidate: &SortExpr,
    equivalence_classes: &Vec<Vec<usize>>,
    ordering_equivalences: &Vec<SortExpr>,
) -> (r: Vec<SortedFilterExpr>)
    ensures
        ({
            let gmap = spec_global_map(filter.column_indices@, side);
            let smap = spec_subset_map(filter.column_indices@, side);
            let seeds = seq![*candidate] + spec_selected_orderings(
                ordering_equivalences@,
                candidate.expr,
                equivalence_classes@,
            );
            &&& (forall|k: int|
                0 <= k < r@.len() ==> {
                    &&& exists|x: int|
                        0 <= x < seeds.len() && (#[trigger] r@[k]).spec_origin_expr()
                            == seeds[x].expr && r@[k].spec_descending() == seeds[x].descending
                    &&& spec_rewrites_to(r@[k].spec_origin_expr(), gmap, r@[k].spec_filter_expr())
                    &&& spec_rewrites_to(
                        r@[k].spec_origin_expr(),
                        smap,
                        r@[k].spec_intermediate_expr(),
                    )
                    &&& spec_is_subtree(r@[k].spec_filter_expr(), filter.expression)
                    &&& r@[k].spec_interval() == Interval::spec_point_null()
                    &&& r@[k].spec_node_index() == 0
                })
            &&& (forall|x: int|
                0 <= x < seeds.len() && spec_seed_accepted(
                    #[trigger] seeds[x],
                    gmap,
                    filter.expression,
                ) ==> exists|k: int|
                    0 <= k < r@.len() && (#[trigger] r@[k]).spec_origin_expr() == seeds[x].expr
                        && r@[k].spec_descending() == seeds[x].descending)
        }),
{
    let ghost gmapv = spec_global_map(filter.column_indices@, side);
    let ghost smapv = spec_subset_map(filter.column_indices@, side);
    let (gmap, smap) = build_column_maps(&filter.column_indices, side);
    // Seed with the candidate, then with every related ordering.
    let mut seeds: Vec<SortExpr> = Vec::new();
    seeds.push(candidate.deep_clone());
    let mut cand_cols: Vec<usize> = Vec::new();
    candidate.expr.collect_columns(&mut cand_cols);
    let ghost all_seeds = seq![*candidate] + spec_selected_orderings(
        ordering_equivalences@,
        candidate.expr,
        equivalence_classes@,
    );
    let mut o: usize = 0;
    while o < ordering_equivalences.len()
        invariant
            o <= ordering_equivalences@.len(),
            cand_cols@ == spec_columns(candidate.expr),
            seeds@ == seq![*candidate] + spec_selected_orderings(
                ordering_equivalences@.take(o as int),
                candidate.expr,
                equivalence_classes@,
            ),
        decreases ordering_equivalences.len() - o,
    {
        let ordering = &ordering_equivalences[o];
        let mut o_cols: Vec<usize> = Vec::new();
        ordering.expr.collect_columns(&mut o_cols);
        proof {
            assert(ordering_equivalences@.take(o as int + 1).drop_last()
                =~= ordering_equivalences@.take(o as int));
            assert(ordering_equivalences@.take(o as int + 1).last()
                == ordering_equivalences@[o as int]);
        }
        if any_related(equivalence_classes, &cand_cols, &o_cols) {
            seeds.push(ordering.deep_clone());
            proof {
                assert(spec_shares_related_column(
                    equivalence_classes@,
                    candidate.expr,
                    ordering_equivalences@[o as int].expr,
                ));
                assert(seeds@ =~= seq![*candidate] + spec_selected_orderings(
                    ordering_equivalences@.take(o as int + 1),
                    candidate.expr,
                    equivalence_classes@,
                ));
            }
        } else {
            proof {
                assert(!spec_shares_related_column(
                    equivalence_classes@,
                    candidate.expr,
                    ordering_equivalences@[o as int].expr,
                ));
                assert(seeds@ =~= seq![*candidate] + spec_selected_orderings(
                    ordering_equivalences@.take(o as int + 1),
                    candidate.expr,
                    equivalence_classes@,
                ));
            }
        }
        o += 1;
    }
    proof {
        assert(ordering_equivalences@.take(ordering_equivalences@.len() as int)
            =~= ordering_equivalences@);
        assert(seeds@ == all_seeds);
    }
    // Keep the seeds that map and occur in the filter tree.
    let mut out: Vec<SortedFilterExpr> = Vec::new();
    let mut x: usize = 0;
    while x < seeds.len()
        invariant
            x <= seeds@.len(),
            seeds@ == all_seeds,
            gmapv == spec_global_map(filter.column_indices@, side),
            smapv == spec_subset_map(filter.column_indices@, side),
            forall|k: int|
                0 <= k < out@.len() ==> {
                    &&& exists|y: int|
                        0 <= y < seeds@.len() && (#[trigger] out@[k]).spec_origin_expr()
                            == seeds@[y].expr && out@[k].spec_descending() == seeds@[y].descending
                    &&& spec_rewrites_to(out@[k].spec_origin_expr(), gmapv, out@[k].spec_filter_expr())
                    &&& spec_rewrites_to(
                        out@[k].spec_origin_expr(),
                        smapv,
                        out@[k].spec_intermediate_expr(),
                    )
                    &&& spec_is_subtree(out@[k].spec_filter_expr(), filter.expression)
                    &&& out@[k].spec_interval() == Interval::spec_point_null()
                    &&& out@[k].spec_node_index() == 0
                },
            forall|y: int|
                0 <= y < x && spec_seed_accepted(#[trigger] seeds@[y], gmapv, filter.expression)
                    ==> exists|k: int|
                    0 <= k < out@.len() && (#[trigger] out@[k]).spec_origin_expr()
                        == seeds@[y].expr && out@[k].spec_descending() == seeds@[y].descending,
        decreases seeds.len() - x,
    {
        let seed = &seeds[x];
        match seed.expr.rewrite_columns(&gmap) {
            None => {
                proof {
                    assert(!spec_seed_accepted(seeds@[x as int], gmapv, filter.expression));
                }
            },
            Some(g) => {
                if g.is_subtree_of(&filter.expression) {
                    match seed.expr.rewrite_columns(&smap) {
                        Some(s) => {
                            let ghost out0 = out@;
                            let entry = SortedFilterExpr::new(
                                seed.expr.deep_clone(),
                                seed.descending,
                                g,
                                s,
                            );
                            out.push(entry);
                            proof {
                                assert forall|k: int| 0 <= k < out0.len() implies #[trigger] out@[k]
                                    == out0[k] by {}
                                assert(out@[out@.len() - 1].spec_origin_expr()
                                    == seeds@[x as int].expr);
                                assert(out@[out@.len() - 1].spec_descending()
                                    == seeds@[x as int].descending);
                                assert forall|y: int|
                                    0 <= y < x as int + 1 && spec_seed_accepted(
                                        #[trigger] seeds@[y],
                                        gmapv,
                                        filter.expression,
                                    ) implies exists|k: int|
                                    0 <= k < out@.len() && (#[trigger] out@[k]).spec_origin_expr()
                                        == seeds@[y].expr && out@[k].spec_descending()
                                        == seeds@[y].descending by {
                                    if y < x as int {
                                        let k0 = choose|k: int|
                                            0 <= k < out0.len() && (#[trigger] out0[k]).spec_origin_expr()
                                                == seeds@[y].expr && out0[k].spec_descending()
                                                == seeds@[y].descending;
                                        assert(out@[k0].spec_origin_expr() == seeds@[y].expr);
                                    } else {
                                        assert(out@[out@.len() - 1].spec_origin_expr()
                                            == seeds@[y].expr);
                                    }
                                }
                            }
                        },
                        None => {
                            proof {
                                lemma_mappable_agrees(
                                    seeds@[x as int].expr,
                                    filter.column_indices@,
                                    side,
                                );
                                assert(false);
                            }
                        },
                    }
                } else {
                    proof {
                        if spec_seed_accepted(seeds@[x as int], gmapv, filter.expression) {
                            let g2 = choose|g2: FilterExpr|
                                #[trigger] spec_rewrites_to(seeds@[x as int].expr, gmapv, g2)
                                    && spec_is_subtree(g2, filter.expression);
                            lemma_rewrites_deterministic(seeds@[x as int].expr, gmapv, g2, g);
                            assert(false);
                        }
                    }
                }
            },
        }
        x += 1;
    }
    out
}

} // verus!
