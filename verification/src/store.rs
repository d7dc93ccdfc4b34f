//! The append-only time-series store.
//!
//! Rows enter at the tail in whatever order poll cycles complete and are
//! never mutated; the store does not re-sort on write. The one read
//! operation answers "every row newer than `since`" in ascending timestamp
//! order, so ordering is established at query time. Duplicate timestamps are
//! tolerated — upstream guarantees no deduplication — which is why the query
//! contract pins the result as a multiset: among rows of equal timestamp the
//! order is the one freedom left.

use vstd::prelude::*;
use vstd::seq_lib::group_seq_properties;
use crate::row::RowModel;
use crate::row::TelemetryRow;
use crate::row::row_models;

verus! {

broadcast use group_seq_properties;

/// Rows newer than `since`.
pub open spec fn later_than(since: int) -> spec_fn(RowModel) -> bool {
    |m: RowModel| m.timestamp > since
}

/// Timestamps never decrease along the sequence.
pub open spec fn sorted_by_timestamp(s: Seq<RowModel>) -> bool {
    forall|i: int, j: int| 0 <= i < j < s.len() ==> s[i].timestamp <= s[j].timestamp
}

/// What a query answer is: every row newer than the bound, in ascending
/// timestamp order, and as a multiset exactly the qualifying rows of the
/// store.
pub open spec fn query_answer(store: Seq<RowModel>, since: int, out: Seq<RowModel>) -> bool {
    &&& sorted_by_timestamp(out)
    &&& forall|i: int| 0 <= i < out.len() ==> #[trigger] out[i].timestamp > since
    &&& out.to_multiset() == store.filter(later_than(since)).to_multiset()
    &&& out.len() == store.filter(later_than(since)).len()
}

/// Mapping rows to their models commutes with removing one row.
proof fn lemma_models_remove(s: Seq<TelemetryRow>, i: int)
    requires
        0 <= i < s.len(),
    ensures
        row_models(s.remove(i)) =~= row_models(s).remove(i),
{
    s.remove_ensures(i);
    row_models(s).remove_ensures(i);
}

/// Mapping rows to their models commutes with appending one row.
proof fn lemma_models_push(s: Seq<TelemetryRow>, r: TelemetryRow)
    ensures
        row_models(s.push(r)) =~= row_models(s).push(r@),
{
}

/// Mapping rows to their models commutes with concatenation.
proof fn lemma_models_add(a: Seq<TelemetryRow>, b: Seq<TelemetryRow>)
    ensures
        row_models(a + b) =~= row_models(a) + row_models(b),
{
}

/// The index of a row with the least timestamp.
fn min_ts_index(v: &Vec<TelemetryRow>) -> (k: usize)
    requires
        v@.len() > 0,
    ensures
        k < v@.len(),
        forall|i: int| 0 <= i < v@.len() ==> v@[k as int]@.timestamp <= #[trigger] v@[i]@.timestamp,
{
    let mut k: usize = 0;
    let mut i: usize = 1;
    while i < v.len()
        invariant
            k < i <= v@.len(),
            forall|j: int| 0 <= j < i ==> v@[k as int]@.timestamp <= #[trigger] v@[j]@.timestamp,
        decreases v@.len() - i,
    {
        if v[i].timestamp < v[k].timestamp {
            k = i;
        }
        i += 1;
    }
    k
}

/// Sorts rows into ascending timestamp order, preserving them as a multiset.
fn sort_rows(v: Vec<TelemetryRow>) -> (out: Vec<TelemetryRow>)
    ensures
        sorted_by_timestamp(row_models(out@)),
        row_models(out@).to_multiset() == row_models(v@).to_multiset(),
        out@.len() == v@.len(),
{
    broadcast use vstd::seq_lib::group_to_multiset_ensures;

    let ghost orig = row_models(v@).to_multiset();
    let mut rest = v;
    let mut out: Vec<TelemetryRow> = Vec::new();
    while rest.len() > 0
        invariant
            row_models(out@).to_multiset().add(row_models(rest@).to_multiset()) == orig,
            sorted_by_timestamp(row_models(out@)),
            forall|a: int, b: int|
                #![trigger row_models(out@)[a], row_models(rest@)[b]]
                0 <= a < out@.len() && 0 <= b < rest@.len() ==> row_models(out@)[a].timestamp
                    <= row_models(rest@)[b].timestamp,
            out@.len() + rest@.len() == v@.len(),
        decreases rest@.len(),
    {
        let k = min_ts_index(&rest);
        let ghost prev_rest = rest@;
        let ghost prev_out = out@;
        let x = rest.remove(k);
        proof {
            lemma_models_remove(prev_rest, k as int);
            assert(row_models(rest@).to_multiset() == row_models(prev_rest).to_multiset().remove(
                row_models(prev_rest)[k as int],
            ));
        }
        out.push(x);
        proof {
            lemma_models_push(prev_out, x);
            assert(row_models(out@).to_multiset() == row_models(prev_out).to_multiset().insert(
                x@,
            ));
            assert(row_models(out@).to_multiset().add(row_models(rest@).to_multiset())
                =~= row_models(prev_out).to_multiset().add(row_models(prev_rest).to_multiset()));
            prev_rest.remove_ensures(k as int);
            assert(row_models(prev_rest)[k as int] == x@);
            assert forall|a: int| 0 <= a < prev_out.len() implies row_models(
                prev_out,
            )[a].timestamp <= x@.timestamp by {
                assert(row_models(prev_out)[a].timestamp <= row_models(prev_rest)[k as int].timestamp);
            }
            assert(sorted_by_timestamp(row_models(out@)));
            assert forall|a: int, b: int|
                #![trigger row_models(out@)[a], row_models(rest@)[b]]
                0 <= a < out@.len() && 0 <= b < rest@.len() implies row_models(
                out@,
            )[a].timestamp <= row_models(rest@)[b].timestamp by {
                if b < k {
                    assert(rest@[b] == prev_rest[b]);
                } else {
                    assert(rest@[b] == prev_rest[b + 1]);
                }
                if a < prev_out.len() {
                    assert(row_models(out@)[a] == row_models(prev_out)[a]);
                } else {
                    assert(row_models(out@)[a] == x@);
                }
            }
        }
    }
    out
}

/// No two positions hold the same timestamp.
pub open spec fn distinct_timestamps(s: Seq<RowModel>) -> bool {
    forall|i: int, j: int|
        #![trigger s[i], s[j]]
        0 <= i < j < s.len() ==> s[i].timestamp != s[j].timestamp
}

/// An element sitting at two positions counts at least twice.
proof fn lemma_dup_count(s: Seq<RowModel>, a: int, b: int)
    requires
        0 <= a < b < s.len(),
        s[a] == s[b],
    ensures
        s.to_multiset().count(s[a]) >= 2,
{
    broadcast use vstd::seq_lib::group_to_multiset_ensures;

    s.remove_ensures(b);
    assert(s.remove(b)[a] == s[a]);
    assert(s.remove(b).contains(s[a]));
    assert(s.remove(b).to_multiset() == s.to_multiset().remove(s[b]));
    assert(s.remove(b).to_multiset().count(s[a]) >= 1);
}

/// An element counting at least twice sits at two positions.
proof fn lemma_count_two_positions(s: Seq<RowModel>, m: RowModel)
    requires
        s.to_multiset().count(m) >= 2,
    ensures
        exists|a: int, b: int| 0 <= a < b < s.len() && #[trigger] s[a] == m && #[trigger] s[b] == m,
{
    broadcast use vstd::seq_lib::group_to_multiset_ensures;

    assert(s.contains(m));
    let a = choose|a: int| 0 <= a < s.len() && s[a] == m;
    assert(s.remove(a).to_multiset() == s.to_multiset().remove(s[a]));
    assert(s.remove(a).to_multiset().count(m) >= 1);
    assert(s.remove(a).contains(m));
    let c = choose|c: int| 0 <= c < s.remove(a).len() && s.remove(a)[c] == m;
    s.remove_ensures(a);
    if c < a {
        assert(s[c] == m);
    } else {
        assert(s[c + 1] == m);
    }
}

/// Filtering keeps timestamps distinct.
proof fn lemma_filter_distinct(s: Seq<RowModel>, since: int)
    requires
        distinct_timestamps(s),
    ensures
        distinct_timestamps(s.filter(later_than(since))),
    decreases s.len(),
{
    reveal(Seq::filter);
    if s.len() > 0 {
        let rest = s.drop_last();
        assert(distinct_timestamps(rest));
        lemma_filter_distinct(rest, since);
        let kept = s.filter(later_than(since));
        let kept_rest = rest.filter(later_than(since));
        if later_than(since)(s.last()) {
            assert(kept =~= kept_rest.push(s.last()));
            assert forall|i: int, j: int|
                #![trigger kept[i], kept[j]]
                0 <= i < j < kept.len() implies kept[i].timestamp != kept[j].timestamp by {
                if j < kept.len() - 1 {
                    assert(kept[i] == kept_rest[i] && kept[j] == kept_rest[j]);
                } else {
                    assert(kept[i] == kept_rest[i]);
                    assert(kept_rest.contains(kept_rest[i]));
                    rest.lemma_filter_contains_rev(later_than(since), kept_rest[i]);
                    let w = choose|w: int| 0 <= w < rest.len() && rest[w] == kept_rest[i];
                    assert(s[w] == kept[i] && s[s.len() - 1] == kept[j]);
                }
            }
        } else {
            assert(kept =~= kept_rest);
        }
    }
}

/// When the stored timestamps are pairwise distinct, a query answer is
/// strictly ascending: later positions hold strictly later instants.
pub proof fn lemma_query_strictly_ascending(store: Seq<RowModel>, since: int, out: Seq<RowModel>)
    requires
        distinct_timestamps(store),
        query_answer(store, since, out),
    ensures
        forall|i: int, j: int|
            #![trigger out[i], out[j]]
            0 <= i < j < out.len() ==> out[i].timestamp < out[j].timestamp,
{
    broadcast use vstd::seq_lib::group_to_multiset_ensures;

    let kept = store.filter(later_than(since));
    lemma_filter_distinct(store, since);
    assert forall|i: int, j: int|
        #![trigger out[i], out[j]]
        0 <= i < j < out.len() implies out[i].timestamp < out[j].timestamp by {
        if out[i].timestamp == out[j].timestamp {
            if out[i] == out[j] {
                lemma_dup_count(out, i, j);
                assert(kept.to_multiset().count(out[i]) >= 2);
                lemma_count_two_positions(kept, out[i]);
            } else {
                assert(out.to_multiset().count(out[i]) >= 1);
                assert(out.to_multiset().count(out[j]) >= 1);
                assert(kept.contains(out[i]));
                assert(kept.contains(out[j]));
                let a = choose|a: int| 0 <= a < kept.len() && kept[a] == out[i];
                let b = choose|b: int| 0 <= b < kept.len() && kept[b] == out[j];
                assert(kept[a] != kept[b]);
            }
        }
    }
}

/// A query hands out only what the store holds: when every stored row is
/// well formed, so is every row of the answer.
pub proof fn lemma_query_preserves_wf(store: Seq<RowModel>, since: int, out: Seq<RowModel>)
    requires
        forall|i: int| 0 <= i < store.len() ==> (#[trigger] store[i]).wf(),
        query_answer(store, since, out),
    ensures
        forall|j: int| 0 <= j < out.len() ==> (#[trigger] out[j]).wf(),
{
    broadcast use vstd::seq_lib::group_to_multiset_ensures;

    let kept = store.filter(later_than(since));
    assert forall|j: int| 0 <= j < out.len() implies (#[trigger] out[j]).wf() by {
        assert(out.to_multiset().contains(out[j]));
        assert(kept.to_multiset().contains(out[j]));
        assert(kept.contains(out[j]));
        store.lemma_filter_contains_rev(later_than(since), out[j]);
        let w = choose|w: int| 0 <= w < store.len() && store[w] == out[j];
        assert(store[w].wf());
    }
}

/// Appending one batch a second time doubles its share of any window that
/// covers it: against the once-appended store a query answers some count,
/// against the twice-appended store it answers that count plus the batch's
/// length again — duplicates are preserved, never merged.
pub proof fn lemma_append_twice_doubles(
    base: Seq<RowModel>,
    batch: Seq<RowModel>,
    since: int,
    out_once: Seq<RowModel>,
    out_twice: Seq<RowModel>,
)
    requires
        forall|i: int| 0 <= i < batch.len() ==> (#[trigger] batch[i]).timestamp > since,
        query_answer(base + batch, since, out_once),
        query_answer(base + batch + batch, since, out_twice),
    ensures
        out_twice.len() == out_once.len() + batch.len(),
{
    Seq::filter_distributes_over_add(base + batch, batch, later_than(since));
    lemma_filter_all(batch, since);
}

/// A batch every row of which qualifies passes the filter whole.
proof fn lemma_filter_all(s: Seq<RowModel>, since: int)
    requires
        forall|i: int| 0 <= i < s.len() ==> (#[trigger] s[i]).timestamp > since,
    ensures
        s.filter(later_than(since)) =~= s,
    decreases s.len(),
{
    reveal(Seq::filter);
    if s.len() > 0 {
        lemma_filter_all(s.drop_last(), since);
    }
}

/// The append-only, time-ordered collection of telemetry rows.
///
/// Its model is the sequence of row models in append order. Appenders and
/// readers interact with it only through [`Store::append`] and
/// [`Store::query`]; nothing reaches into the representation.
pub struct Store {
    rows: Vec<TelemetryRow>,
}

impl View for Store {
    type V = Seq<RowModel>;

    closed spec fn view(&self) -> Seq<RowModel> {
        row_models(self.rows@)
    }
}

impl Store {
    /// An empty store.
    pub fn new() -> (s: Store)
        ensures
            s@ =~= Seq::<RowModel>::empty(),
    {
        Store { rows: Vec::new() }
    }

    /// How many rows the store holds.
    pub fn len(&self) -> (n: usize)
        ensures
            n == self@.len(),
    {
        self.rows.len()
    }

    /// Adds a batch of rows at the tail, in the batch's order. Nothing
    /// already stored moves; duplicates are kept, not merged.
    pub fn append(&mut self, batch: Vec<TelemetryRow>)
        ensures
            final(self)@ =~= old(self)@ + row_models(batch@),
    {
        let ghost prev = self.rows@;
        let ghost given = batch@;
        let mut batch = batch;
        self.rows.append(&mut batch);
        proof {
            lemma_models_add(prev, given);
        }
    }

    /// Empties the store; the full reset is the one way rows ever leave it.
    pub fn clear(&mut self)
        ensures
            final(self)@ =~= Seq::<RowModel>::empty(),
    {
        self.rows.clear();
    }

    /// Every stored row newer than `since`, in ascending timestamp order.
    ///
    /// The answer is exactly the qualifying rows — as a multiset, since rows
    /// of equal timestamp may come out in either order.
    pub fn query(&self, since: i64) -> (out: Vec<TelemetryRow>)
        ensures
            query_answer(self@, since as int, row_models(out@)),
    {
        broadcast use vstd::seq_lib::group_to_multiset_ensures;

        let ghost pred = later_than(since as int);
        let mut picked: Vec<TelemetryRow> = Vec::new();
        let mut i: usize = 0;
        while i < self.rows.len()
            invariant
                i <= self.rows@.len(),
                row_models(picked@) =~= row_models(self.rows@).take(i as int).filter(
                    later_than(since as int),
                ),
            decreases self.rows@.len() - i,
        {
            let ghost prev_picked = picked@;
            let ghost taken = row_models(self.rows@).take(i as int);
            let ghost taken_next = row_models(self.rows@).take(i as int + 1);
            if self.rows[i].timestamp > since {
                let r = self.rows[i].clone();
                picked.push(r);
                proof {
                    reveal(Seq::filter);
                    assert(taken_next.drop_last() =~= taken);
                    assert(taken_next.last() == row_models(self.rows@)[i as int]);
                    lemma_models_push(prev_picked, r);
                    assert(row_models(picked@) =~= taken_next.filter(later_than(since as int)));
                }
            } else {
                proof {
                    reveal(Seq::filter);
                    assert(taken_next.drop_last() =~= taken);
                    assert(taken_next.last() == row_models(self.rows@)[i as int]);
                    assert(!(later_than(since as int)(taken_next.last())));
                    assert(row_models(picked@) =~= taken_next.filter(later_than(since as int)));
                }
            }
            i += 1;
        }
        proof {
            assert(row_models(self.rows@).take(self.rows@.len() as int) =~= row_models(
                self.rows@,
            ));
        }
        let out = sort_rows(picked);
        proof {
            let outm = row_models(out@);
            let keptm = self@.filter(later_than(since as int));
            assert(outm.to_multiset() == keptm.to_multiset());
            outm.to_multiset_ensures();
            keptm.to_multiset_ensures();
            assert(outm.len() == keptm.len());
            assert forall|j: int| 0 <= j < outm.len() implies #[trigger] outm[j].timestamp
                > since as int by {
                assert(outm.to_multiset().contains(outm[j]));
                assert(keptm.to_multiset().contains(outm[j]));
                assert(keptm.contains(outm[j]));
                let w = choose|w: int| 0 <= w < keptm.len() && keptm[w] == outm[j];
                self@.lemma_filter_pred(later_than(since as int), w);
            }
        }
        out
    }
}

} // verus!
