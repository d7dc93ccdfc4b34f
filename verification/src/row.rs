//! The typed time-series row that normalization produces and the store holds.
//!
//! A row carries one observation at one instant: an epoch timestamp used for
//! ordering and windowing, the original upstream textual timestamp preserved
//! verbatim for display, and five measurement fields. Because the verified
//! core never computes with the measurements — it only admits, stores and
//! serves them — each measurement is held as its validated upstream text
//! (or the `"0"` sentinel put in place of a malformed field); the serving
//! layer converts the text to a number at the edge.

use vstd::prelude::*;
use crate::numeric::is_numeric_text;

verus! {

/// The mathematical model of a [`TelemetryRow`]: the same fields, over `int`
/// and `Seq<char>`.
pub ghost struct RowModel {
    pub timestamp: int,
    pub time_label: Seq<char>,
    pub speed: Seq<char>,
    pub density: Seq<char>,
    pub temperature: Seq<char>,
    pub bt: Seq<char>,
    pub bz: Seq<char>,
}

/// One observation at one instant.
///
/// `timestamp` is integer seconds since the epoch (UTC), derived from the
/// upstream label; it is the ordering key. `time_label` is the upstream text
/// the timestamp was parsed from, kept verbatim for display. The measurement
/// fields hold numeric text: `speed`, `density` and `temperature` are the
/// plasma measurements, `bt` and `bz` the magnetic-field magnitude and the
/// component along the sought axis.
#[derive(Debug)]
pub struct TelemetryRow {
    pub timestamp: i64,
    pub time_label: String,
    pub speed: String,
    pub density: String,
    pub temperature: String,
    pub bt: String,
    pub bz: String,
}

impl View for TelemetryRow {
    type V = RowModel;

    open spec fn view(&self) -> RowModel {
        RowModel {
            timestamp: self.timestamp as int,
            time_label: self.time_label@,
            speed: self.speed@,
            density: self.density@,
            temperature: self.temperature@,
            bt: self.bt@,
            bz: self.bz@,
        }
    }
}

impl RowModel {
    /// A well-formed row model: every measurement field holds numeric text,
    /// so the serving layer can always turn it into a number.
    pub open spec fn wf(self) -> bool {
        &&& is_numeric_text(self.speed)
        &&& is_numeric_text(self.density)
        &&& is_numeric_text(self.temperature)
        &&& is_numeric_text(self.bt)
        &&& is_numeric_text(self.bz)
    }
}

impl Clone for TelemetryRow {
    /// A clone carries the same model as the original.
    fn clone(&self) -> (r: Self)
        ensures
            r@ == self@,
    {
        TelemetryRow {
            timestamp: self.timestamp,
            time_label: self.time_label.clone(),
            speed: self.speed.clone(),
            density: self.density.clone(),
            temperature: self.temperature.clone(),
            bt: self.bt.clone(),
            bz: self.bz.clone(),
        }
    }
}

/// The models of a sequence of rows, in the same order.
pub open spec fn row_models(rows: Seq<TelemetryRow>) -> Seq<RowModel> {
    rows.map_values(|r: TelemetryRow| r@)
}

} // verus!
