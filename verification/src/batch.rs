//! Record batches modeled as column-major scalar values.

use vstd::prelude::*;
use crate::scalar::ScalarVal;
use crate::StreamJoinError;

verus! {

/// A record batch: columns of equal length over a single scalar type.
#[derive(Debug)]
pub struct ModelBatch {
    pub columns: Vec<Vec<ScalarVal>>,
    pub num_rows: usize,
}

impl ModelBatch {
    /// Every column holds exactly `num_rows` values.
    pub open spec fn wf(self) -> bool {
        forall|c: int| 0 <= c < self.columns@.len() ==> (#[trigger] self.columns@[c])@.len()
            == self.num_rows
    }

    /// The values of row `i`, one per column.
    pub open spec fn spec_row(self, i: int) -> Seq<ScalarVal> {
        Seq::new(self.columns@.len(), |c: int| self.columns@[c]@[i])
    }
}

/// The concatenation of column `c` over a run of batches.
pub open spec fn spec_concat_column(batches: Seq<ModelBatch>, c: int) -> Seq<ScalarVal>
    decreases batches.len(),
{
    if batches.len() == 0 {
        Seq::empty()
    } else {
        spec_concat_column(batches.drop_last(), c) + batches.last().columns@[c]@
    }
}

/// The total number of rows over a run of batches.
pub open spec fn spec_total_rows(batches: Seq<ModelBatch>) -> int
    decreases batches.len(),
{
    if batches.len() == 0 {
        0
    } else {
        spec_total_rows(batches.drop_last()) + batches.last().num_rows
    }
}

/// Constructs a single batch from a run of batches by concatenating them
/// in order. All batches must share the column count of the first; a
/// mismatch is a schema error, and a total row count beyond the address
/// space is an arithmetic error.
#[verifier::loop_isolation(false)]
pub fn get_probe_batch(batches: Vec<ModelBatch>) -> (r: Result<ModelBatch, StreamJoinError>)
    requires
        batches@.len() >= 1,
        forall|b: int| 0 <= b < batches@.len() ==> (#[trigger] batches@[b]).wf(),
    ensures
        (match r {
            Ok(out) => {
                &&& out.wf()
                &&& out.columns@.len() == batches@[0].columns@.len()
                &&& out.num_rows == spec_total_rows(batches@)
                &&& forall|c: int|
                    0 <= c < out.columns@.len() ==> (#[trigger] out.columns@[c])@
                        == spec_concat_column(batches@, c)
                &&& forall|b: int|
                    0 <= b < batches@.len() ==> (#[trigger] batches@[b]).columns@.len()
                        == batches@[0].columns@.len()
            },
            Err(e) => {
                &&& (e == StreamJoinError::SchemaMismatch || e == StreamJoinError::ArithmeticOverflow)
                &&& (e == StreamJoinError::SchemaMismatch ==> exists|b: int|
                    0 <= b < batches@.len() && (#[trigger] batches@[b]).columns@.len()
                        != batches@[0].columns@.len())
                &&& (e == StreamJoinError::ArithmeticOverflow ==> spec_total_rows(batches@)
                    > usize::MAX)
            },
        }),
{
    let ncols: usize = batches[0].columns.len();
    // Check the schemas and total the rows first; nothing is built unless
    // the whole concatenation is well formed.
    let mut total: usize = 0;
    let mut b: usize = 0;
    while b < batches.len()
        invariant
            b <= batches@.len(),
            total == spec_total_rows(batches@.take(b as int)),
            forall|k: int|
                0 <= k < b ==> (#[trigger] batches@[k]).columns@.len() == ncols,
        decreases batches.len() - b,
    {
        if batches[b].columns.len() != ncols {
            return Err(StreamJoinError::SchemaMismatch);
        }
        let rows = batches[b].num_rows;
        proof {
            assert(batches@.take(b as int + 1).drop_last() =~= batches@.take(b as int));
            assert(batches@.take(b as int + 1).last() == batches@[b as int]);
        }
        total = match total.checked_add(rows) {
            Some(t) => t,
            None => {
                proof {
                    lemma_total_rows_monotonic(batches@, b as int + 1);
                }
                return Err(StreamJoinError::ArithmeticOverflow);
            },
        };
        b += 1;
    }
    proof {
        assert(batches@.take(batches@.len() as int) =~= batches@);
    }
    let mut columns: Vec<Vec<ScalarVal>> = Vec::new();
    let mut c: usize = 0;
    while c < ncols
        invariant
            c <= ncols,
            ncols == batches@[0].columns@.len(),
            forall|k: int| 0 <= k < batches@.len() ==> (#[trigger] batches@[k]).columns@.len() == ncols,
            columns@.len() == c,
            forall|k: int|
                0 <= k < c ==> (#[trigger] columns@[k])@ == spec_concat_column(batches@, k),
            forall|k: int|
                0 <= k < c ==> (#[trigger] columns@[k])@.len() == spec_total_rows(batches@),
        decreases ncols - c,
    {
        let mut col: Vec<ScalarVal> = Vec::new();
        let mut b: usize = 0;
        while b < batches.len()
            invariant
                b <= batches@.len(),
                c < ncols,
                ncols == batches@[0].columns@.len(),
                forall|k: int|
                    0 <= k < batches@.len() ==> (#[trigger] batches@[k]).columns@.len() == ncols,
                col@ == spec_concat_column(batches@.take(b as int), c as int),
                col@.len() == spec_total_rows(batches@.take(b as int)),
            decreases batches.len() - b,
        {
            let batch = &batches[b];
            let src = &batch.columns[c];
            let mut k: usize = 0;
            while k < src.len()
                invariant
                    k <= src@.len(),
                    col@ == spec_concat_column(batches@.take(b as int), c as int) + src@.take(
                        k as int,
                    ),
                decreases src.len() - k,
            {
                col.push(src[k]);
                proof {
                    assert(src@.take(k as int + 1) =~= src@.take(k as int).push(src@[k as int]));
                    assert(spec_concat_column(batches@.take(b as int), c as int) + src@.take(
                        k as int + 1,
                    ) =~= (spec_concat_column(batches@.take(b as int), c as int) + src@.take(
                        k as int,
                    )).push(src@[k as int]));
                }
                k += 1;
            }
            proof {
                assert(src@.take(src@.len() as int) =~= src@);
                assert(batches@.take(b as int + 1).drop_last() =~= batches@.take(b as int));
                assert(batches@.take(b as int + 1).last() == batches@[b as int]);
            }
            b += 1;
        }
        proof {
            assert(batches@.take(batches@.len() as int) =~= batches@);
        }
        columns.push(col);
        c += 1;
    }
    Ok(ModelBatch { columns, num_rows: total })
}

/// Prefix row totals never exceed the whole run's total.
proof fn lemma_total_rows_monotonic(batches: Seq<ModelBatch>, b: int)
    requires
        0 <= b <= batches.len(),
    ensures
        spec_total_rows(batches.take(b)) <= spec_total_rows(batches),
    decreases batches.len() - b,
{
    if b < batches.len() {
        lemma_total_rows_monotonic(batches, b + 1);
        assert(batches.take(b + 1).drop_last() =~= batches.take(b));
        assert(batches.take(b + 1).last() == batches[b]);
    } else {
        assert(batches.take(b) =~= batches);
    }
}

} // verus!
