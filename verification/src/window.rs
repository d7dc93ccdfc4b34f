//! The window query engine.
//!
//! A client asks for "the last `hours_back` hours". The engine turns that
//! into the absolute bound `now - hours_back` hours, queries the store, and
//! reshapes the ordered rows into six parallel, index-aligned sequences —
//! the column-oriented form chart renderers consume. The engine keeps no
//! state between calls; each call re-derives the bound from the clock, which
//! is how repeated identical requests see a growing window.

use vstd::prelude::*;
use crate::clock::now_epoch_seconds;
use crate::row::RowModel;
use crate::row::TelemetryRow;
use crate::row::row_models;
use crate::store::Store;
use crate::store::later_than;
use crate::store::query_answer;

verus! {

/// Seconds in one hour, used when an "hours back" request is turned into an
/// absolute timestamp lower bound.
pub const SECONDS_PER_HOUR: i64 = 3600;

/// The absolute lower bound a window request names: `now` minus the
/// requested hours, clamped at the least representable timestamp.
pub open spec fn spec_since(now: int, hours_back: int) -> int {
    if now - hours_back * 3600 < i64::MIN {
        i64::MIN as int
    } else {
        now - hours_back * 3600
    }
}

/// Computes the absolute lower bound `now - hours_back` hours, clamping at
/// the representable minimum instead of overflowing.
pub fn since_timestamp(now: i64, hours_back: i64) -> (r: i64)
    requires
        hours_back >= 0,
    ensures
        r == spec_since(now as int, hours_back as int),
{
    let hours_wide: i128 = hours_back as i128;
    proof {
        assert(0 <= hours_wide * 3600 <= 0x7fffffffffffffffi128 * 3600) by (nonlinear_arith)
            requires
                0 <= hours_wide <= 0x7fffffffffffffffi128,
        ;
    }
    let wide: i128 = (now as i128) - hours_wide * (SECONDS_PER_HOUR as i128);
    if wide < i64::MIN as i128 {
        i64::MIN
    } else {
        wide as i64
    }
}

/// The model of a [`WindowResult`]: six sequences of text.
pub ghost struct WindowModel {
    pub time_label: Seq<Seq<char>>,
    pub bt: Seq<Seq<char>>,
    pub bz: Seq<Seq<char>>,
    pub density: Seq<Seq<char>>,
    pub speed: Seq<Seq<char>>,
    pub temperature: Seq<Seq<char>>,
}

/// The column-oriented answer to a window request: six parallel sequences,
/// index-aligned — position `i` of every column describes the same row. The
/// field order here is the wire order of the read endpoint.
pub struct WindowResult {
    pub time_label: Vec<String>,
    pub bt: Vec<String>,
    pub bz: Vec<String>,
    pub density: Vec<String>,
    pub speed: Vec<String>,
    pub temperature: Vec<String>,
}

impl View for WindowResult {
    type V = WindowModel;

    open spec fn view(&self) -> WindowModel {
        WindowModel {
            time_label: self.time_label.deep_view(),
            bt: self.bt.deep_view(),
            bz: self.bz.deep_view(),
            density: self.density.deep_view(),
            speed: self.speed.deep_view(),
            temperature: self.temperature.deep_view(),
        }
    }
}

/// The columns are exactly the given rows, reshaped: each column is as long
/// as the row sequence, and position `i` of every column holds the
/// corresponding field of row `i`.
pub open spec fn columns_of(rows: Seq<RowModel>, w: WindowModel) -> bool {
    &&& w.time_label.len() == rows.len()
    &&& w.bt.len() == rows.len()
    &&& w.bz.len() == rows.len()
    &&& w.density.len() == rows.len()
    &&& w.speed.len() == rows.len()
    &&& w.temperature.len() == rows.len()
    &&& forall|i: int|
        0 <= i < rows.len() ==> {
            &&& w.time_label[i] == (#[trigger] rows[i]).time_label
            &&& w.bt[i] == rows[i].bt
            &&& w.bz[i] == rows[i].bz
            &&& w.density[i] == rows[i].density
            &&& w.speed[i] == rows[i].speed
            &&& w.temperature[i] == rows[i].temperature
        }
}

/// A correct answer to a window request with bound `since`: some correct
/// query answer, reshaped into columns.
pub open spec fn window_answer(store: Seq<RowModel>, since: int, w: WindowModel) -> bool {
    exists|rows: Seq<RowModel>| #[trigger] query_answer(store, since, rows) && columns_of(rows, w)
}

/// Reshapes row-oriented query results into the six parallel columns.
pub fn to_columns(rows: &Vec<TelemetryRow>) -> (w: WindowResult)
    ensures
        columns_of(row_models(rows@), w@),
{
    let mut time_label: Vec<String> = Vec::new();
    let mut bt: Vec<String> = Vec::new();
    let mut bz: Vec<String> = Vec::new();
    let mut density: Vec<String> = Vec::new();
    let mut speed: Vec<String> = Vec::new();
    let mut temperature: Vec<String> = Vec::new();
    let mut i: usize = 0;
    while i < rows.len()
        invariant
            i <= rows@.len(),
            time_label.deep_view().len() == i,
            bt.deep_view().len() == i,
            bz.deep_view().len() == i,
            density.deep_view().len() == i,
            speed.deep_view().len() == i,
            temperature.deep_view().len() == i,
            forall|k: int|
                0 <= k < i ==> {
                    &&& time_label.deep_view()[k] == (#[trigger] rows@[k])@.time_label
                    &&& bt.deep_view()[k] == rows@[k]@.bt
                    &&& bz.deep_view()[k] == rows@[k]@.bz
                    &&& density.deep_view()[k] == rows@[k]@.density
                    &&& speed.deep_view()[k] == rows@[k]@.speed
                    &&& temperature.deep_view()[k] == rows@[k]@.temperature
                },
        decreases rows@.len() - i,
    {
        let r = &rows[i];
        time_label.push(r.time_label.clone());
        bt.push(r.bt.clone());
        bz.push(r.bz.clone());
        density.push(r.density.clone());
        speed.push(r.speed.clone());
        temperature.push(r.temperature.clone());
        i += 1;
    }
    WindowResult { time_label, bt, bz, density, speed, temperature }
}

/// Answers a window request against an explicit "now".
///
/// Everything after the clock reading is deterministic, so this is the
/// function that carries the full window contract; [`window`] supplies the
/// clock value.
pub fn window_at(store: &Store, now: i64, hours_back: i64) -> (w: WindowResult)
    requires
        hours_back >= 0,
    ensures
        window_answer(store@, spec_since(now as int, hours_back as int), w@),
{
    let since = since_timestamp(now, hours_back);
    let rows = store.query(since);
    let w = to_columns(&rows);
    proof {
        assert(query_answer(store@, since as int, row_models(rows@)) && columns_of(
            row_models(rows@),
            w@,
        ));
    }
    w
}

/// Answers a window request against the wall clock: all rows of the last
/// `hours_back` hours, as columns. The clock value is outside the contract,
/// but it is a representable timestamp, and whatever it was, the answer is a
/// correct window against it.
pub fn window(store: &Store, hours_back: i64) -> (w: WindowResult)
    requires
        hours_back >= 0,
    ensures
        exists|now: int|
            #![trigger window_answer(store@, spec_since(now, hours_back as int), w@)]
            i64::MIN <= now <= i64::MAX && window_answer(
                store@,
                spec_since(now, hours_back as int),
                w@,
            ),
{
    let now = now_epoch_seconds();
    window_at(store, now, hours_back)
}

/// The refresh cadence clients follow: one window request per minute,
/// replacing the displayed series wholesale each time.
pub const REFRESH_INTERVAL_SECONDS: u64 = 60;

/// The refresh protocol's one decision: how a client keeps a window live.
/// There is no server push; the client re-issues the same request at a fixed
/// cadence and redraws from the full answer.
pub struct RefreshPlan {
    /// The window to re-request.
    pub hours_back: i64,
    /// Seconds between one request and the next.
    pub interval_seconds: u64,
}

/// Plans the refresh of a window: the same window, re-requested at the
/// fixed cadence.
pub fn refresh_plan(hours_back: i64) -> (p: RefreshPlan)
    requires
        hours_back >= 0,
    ensures
        p.hours_back == hours_back,
        p.interval_seconds == REFRESH_INTERVAL_SECONDS,
{
    RefreshPlan { hours_back, interval_seconds: REFRESH_INTERVAL_SECONDS }
}

/// Rows none of which is newer than `since` all fall to the filter.
proof fn lemma_filter_none(s: Seq<RowModel>, since: int)
    requires
        forall|i: int| 0 <= i < s.len() ==> (#[trigger] s[i]).timestamp <= since,
    ensures
        s.filter(later_than(since)) =~= Seq::<RowModel>::empty(),
    decreases s.len(),
{
    reveal(Seq::filter);
    if s.len() > 0 {
        lemma_filter_none(s.drop_last(), since);
    }
}

/// A window of zero hours is empty: the bound is "now" itself, and no stored
/// observation lies in the future, so all six columns have length zero.
pub proof fn lemma_window_zero_is_empty(store: Seq<RowModel>, now: int, w: WindowModel)
    requires
        i64::MIN <= now,
        forall|i: int| 0 <= i < store.len() ==> (#[trigger] store[i]).timestamp <= now,
        window_answer(store, spec_since(now, 0), w),
    ensures
        w.time_label.len() == 0,
        w.bt.len() == 0,
        w.bz.len() == 0,
        w.density.len() == 0,
        w.speed.len() == 0,
        w.temperature.len() == 0,
{
    let rows = choose|rows: Seq<RowModel>|
        #[trigger] query_answer(store, spec_since(now, 0), rows) && columns_of(rows, w);
    assert(spec_since(now, 0) == now);
    lemma_filter_none(store, now);
    assert(rows.len() == 0);
}

} // verus!
