//! The ingestion step: one poll cycle's worth of decisions.
//!
//! The outside work of a cycle — the upstream fetch and the decoding of its
//! body into rows of strings — happens at the edge; what arrives here is the
//! outcome: either the decoded payload or the fault that ended the cycle.
//! This module owns everything after that point: a failed or empty fetch
//! leaves the store untouched and reports the fault, a payload has its
//! header row skipped and every remaining record normalized — in parallel,
//! since records are independent — and the admitted rows appended as one
//! batch. No outcome of a single cycle is fatal; the next cycle starts
//! fresh.

use vstd::prelude::*;
use vstd::slice::slice_subrange;
use rayon::iter::IntoParallelRefIterator;
use rayon::iter::ParallelIterator;
use crate::fields::FieldMap;
use crate::normalize::NormalizationError;
use crate::normalize::normalize;
use crate::normalize::normalize_post;
use crate::normalize::spec_normalize;
use crate::row::RowModel;
use crate::row::TelemetryRow;
use crate::row::row_models;
use crate::store::Store;

verus! {

/// Why a poll cycle appended nothing.
#[derive(Clone, Copy, PartialEq, Eq, Structural, Debug)]
pub enum FetchError {
    /// The upstream could not be reached, or the transfer broke off.
    Transport,
    /// The upstream answered, but not with the expected array envelope.
    NotAnArray,
    /// The upstream answered with an empty envelope — not even a header row.
    EmptyPayload,
}

/// What a poll cycle's outside work came back with: the decoded payload —
/// the header row still in front — or the fault that ended the cycle.
pub enum FetchOutcome {
    Payload(Vec<Vec<String>>),
    Failed(FetchError),
}

/// The rows a sequence of raw records normalizes to, in record order;
/// records without a usable timestamp contribute nothing.
pub open spec fn normalized_models(fm: FieldMap, recs: Seq<Seq<Seq<char>>>) -> Seq<RowModel> {
    recs.filter_map(|rec: Seq<Seq<char>>| spec_normalize(fm, rec))
}

/// The full contract of [`poll_step`]: a fault (or an empty envelope) leaves
/// the store exactly as it was and reports why; a payload appends exactly
/// the normalized rows of the records behind the header and reports how
/// many.
pub open spec fn poll_post(
    fm: FieldMap,
    outcome: FetchOutcome,
    prev: Seq<RowModel>,
    cur: Seq<RowModel>,
    r: Result<usize, FetchError>,
) -> bool {
    match outcome {
        FetchOutcome::Failed(e) => cur == prev && r == Err::<usize, FetchError>(e),
        FetchOutcome::Payload(recs) => if recs@.len() == 0 {
            cur == prev && r == Err::<usize, FetchError>(FetchError::EmptyPayload)
        } else {
            let rows = normalized_models(fm, recs.deep_view().drop_first());
            &&& cur == prev + rows
            &&& r matches Ok(n) && n == rows.len()
        },
    }
}

/// Relies on rayon's `par_iter`/`map`/`collect` over a slice: an indexed
/// parallel iterator collects into a `Vec` in the slice's order, so element
/// `i` of the result is what the library's own `normalize` returns for
/// record `i`.
#[verifier::external_body]
fn normalize_batch(fm: &FieldMap, records: &[Vec<String>]) -> (out: Vec<
    Result<TelemetryRow, NormalizationError>,
>)
    ensures
        out@.len() == records@.len(),
        forall|i: int|
            0 <= i < out@.len() ==> normalize_post(
                *fm,
                records@[i].deep_view(),
                #[trigger] out@[i],
            ),
{
    records.par_iter().map(|r| normalize(fm, r)).collect()
}

/// Applies one poll cycle's outcome to the store.
///
/// On a payload the header row (element zero) is skipped, every remaining
/// record is normalized, and the admitted rows are appended as one batch —
/// the count returned is how many. On a fault, or an envelope with nothing
/// in it, the store is left unchanged and the fault is the answer; it never
/// propagates further.
pub fn poll_step(store: &mut Store, fm: &FieldMap, outcome: FetchOutcome) -> (r: Result<
    usize,
    FetchError,
>)
    ensures
        poll_post(*fm, outcome, old(store)@, final(store)@, r),
{
    match outcome {
        FetchOutcome::Failed(e) => Err(e),
        FetchOutcome::Payload(recs) => {
            if recs.len() == 0 {
                return Err(FetchError::EmptyPayload);
            }
            let tail = slice_subrange(recs.as_slice(), 1, recs.len());
            let ghost tail_dv = recs.deep_view().drop_first();
            proof {
                assert(tail_dv =~= Seq::new(
                    tail@.len(),
                    |i: int| tail@[i].deep_view(),
                ));
            }
            let results = normalize_batch(fm, tail);
            let mut rows: Vec<TelemetryRow> = Vec::new();
            let mut i: usize = 0;
            while i < results.len()
                invariant
                    i <= results@.len(),
                    results@.len() == tail_dv.len(),
                    tail_dv =~= Seq::new(tail@.len(), |k: int| tail@[k].deep_view()),
                    forall|k: int|
                        0 <= k < results@.len() ==> normalize_post(
                            *fm,
                            tail_dv[k],
                            #[trigger] results@[k],
                        ),
                    row_models(rows@) =~= normalized_models(*fm, tail_dv.take(i as int)),
                decreases results@.len() - i,
            {
                let ghost prev_rows = rows@;
                match &results[i] {
                    Ok(row) => {
                        let dup = row.clone();
                        rows.push(dup);
                    },
                    Err(_) => {},
                }
                proof {
                    tail_dv.lemma_filter_map_take_succ(
                        |rec: Seq<Seq<char>>| spec_normalize(*fm, rec),
                        i as int,
                    );
                    assert(row_models(rows@) =~= normalized_models(
                        *fm,
                        tail_dv.take(i as int + 1),
                    ));
                }
                i += 1;
            }
            proof {
                assert(tail_dv.take(tail_dv.len() as int) =~= tail_dv);
            }
            let count = rows.len();
            store.append(rows);
            Ok(count)
        },
    }
}

/// Every row a batch normalizes to is well formed: each measurement field
/// holds numeric text, whatever the records held.
pub proof fn lemma_normalized_models_wf(fm: FieldMap, recs: Seq<Seq<Seq<char>>>)
    ensures
        forall|i: int|
            0 <= i < normalized_models(fm, recs).len() ==> (#[trigger] normalized_models(
                fm,
                recs,
            )[i]).wf(),
    decreases recs.len(),
{
    broadcast use crate::normalize::lemma_normalized_row_wf;

    if recs.len() > 0 {
        let rest = recs.drop_last();
        lemma_normalized_models_wf(fm, rest);
        let nm = normalized_models(fm, recs);
        let nr = normalized_models(fm, rest);
        match spec_normalize(fm, recs.last()) {
            Some(m) => {
                assert(m == crate::normalize::normalized_row(fm, recs.last()));
                assert(nm =~= nr + seq![m]);
                assert forall|i: int| 0 <= i < nm.len() implies (#[trigger] nm[i]).wf() by {
                    if i < nr.len() {
                        assert(nm[i] == nr[i]);
                    } else {
                        assert(nm[i] == m);
                    }
                }
            },
            None => {
                assert(nm =~= nr);
                assert forall|i: int| 0 <= i < nm.len() implies (#[trigger] nm[i]).wf() by {
                    assert(nm[i] == nr[i]);
                }
            },
        }
    }
}

/// A record that normalization rejects contributes nothing: the batch
/// normalizes to the same rows with or without it.
pub proof fn lemma_rejected_record_adds_nothing(fm: FieldMap, recs: Seq<Seq<Seq<char>>>, i: int)
    requires
        0 <= i < recs.len(),
        spec_normalize(fm, recs[i]) is None,
    ensures
        normalized_models(fm, recs) == normalized_models(fm, recs.remove(i)),
    decreases recs.len(),
{
    let f = |rec: Seq<Seq<char>>| spec_normalize(fm, rec);
    if i == recs.len() - 1 {
        assert(recs.remove(i) =~= recs.drop_last());
    } else {
        lemma_rejected_record_adds_nothing(fm, recs.drop_last(), i);
        assert(recs.remove(i).drop_last() =~= recs.drop_last().remove(i));
        assert(recs.remove(i).last() == recs.last());
        assert(recs.remove(i).len() > 0);
        match f(recs.last()) {
            Some(m) => {
                assert(normalized_models(fm, recs) =~= normalized_models(
                    fm,
                    recs.drop_last(),
                ) + seq![m]);
                assert(normalized_models(fm, recs.remove(i)) =~= normalized_models(
                    fm,
                    recs.drop_last().remove(i),
                ) + seq![m]);
            },
            None => {
                assert(normalized_models(fm, recs) =~= normalized_models(fm, recs.drop_last()));
                assert(normalized_models(fm, recs.remove(i)) =~= normalized_models(
                    fm,
                    recs.drop_last().remove(i),
                ));
            },
        }
    }
}

} // verus!
