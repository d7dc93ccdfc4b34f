//! The field normalizer: one raw upstream record to one typed row.
//!
//! A raw record is an ordered list of loosely-typed string values. Guided by
//! a field map, normalization parses the time label — failure there rejects
//! the record, since an unordered row is useless — and admits each mapped
//! measurement, substituting the `"0"` sentinel for a field that is absent
//! or malformed so that one bad measurement never discards an otherwise
//! valid, timestamped observation. It is a pure function of the record.

use vstd::prelude::*;
use vstd::string::StringExecFns;
use crate::fields::FieldMap;
use crate::numeric::sanitized;
use crate::numeric::sanitize_measurement;
use crate::numeric::zero_text;
use crate::row::RowModel;
use crate::row::TelemetryRow;
use crate::timestamp::label_epoch;
use crate::timestamp::label_wf;
use crate::timestamp::parse_time_label;

verus! {

/// Why a record was rejected.
#[derive(Clone, Copy, PartialEq, Eq, Structural, Debug)]
pub enum NormalizationError {
    /// The record is too short to hold a timestamp at the mapped position.
    MissingTimestamp,
    /// The text at the timestamp position does not name an instant.
    UnparseableTimestamp,
}

/// The normalized text of the measurement mapped to `pos`: the sanitized
/// field when the record holds one there, the sentinel otherwise.
pub open spec fn selected_field(pos: Option<usize>, rec: Seq<Seq<char>>) -> Seq<char> {
    match pos {
        Some(p) => if p < rec.len() {
            sanitized(rec[p as int])
        } else {
            zero_text()
        },
        None => zero_text(),
    }
}

/// The row a well-formed record normalizes to.
pub open spec fn normalized_row(fm: FieldMap, rec: Seq<Seq<char>>) -> RowModel {
    RowModel {
        timestamp: label_epoch(rec[fm.time_label as int]),
        time_label: rec[fm.time_label as int],
        speed: selected_field(fm.speed, rec),
        density: selected_field(fm.density, rec),
        temperature: selected_field(fm.temperature, rec),
        bt: selected_field(fm.bt, rec),
        bz: selected_field(fm.bz, rec),
    }
}

/// What normalization yields for a record: a row exactly when the record
/// holds a well-formed time label at the mapped position.
pub open spec fn spec_normalize(fm: FieldMap, rec: Seq<Seq<char>>) -> Option<RowModel> {
    if fm.time_label < rec.len() && label_wf(rec[fm.time_label as int]) {
        Some(normalized_row(fm, rec))
    } else {
        None
    }
}

/// The full contract of [`normalize`], as one predicate: success yields
/// exactly the specified row, and failure names which of the two timestamp
/// faults occurred.
pub open spec fn normalize_post(
    fm: FieldMap,
    rec: Seq<Seq<char>>,
    r: Result<TelemetryRow, NormalizationError>,
) -> bool {
    match r {
        Ok(row) => spec_normalize(fm, rec) == Some(row@),
        Err(e) => {
            &&& spec_normalize(fm, rec) is None
            &&& (e == NormalizationError::MissingTimestamp <==> fm.time_label >= rec.len())
        },
    }
}

/// Extracts and normalizes the measurement mapped to `pos`.
fn select_field(pos: Option<usize>, record: &Vec<String>) -> (r: String)
    ensures
        r@ == selected_field(pos, record.deep_view()),
{
    match pos {
        Some(p) => {
            if p < record.len() {
                sanitize_measurement(record[p].as_str())
            } else {
                zero_string()
            }
        },
        None => zero_string(),
    }
}

/// The `"0"` sentinel as an owned string.
fn zero_string() -> (r: String)
    ensures
        r@ == zero_text(),
{
    let z = String::from_str("0");
    proof {
        reveal_strlit("0");
        assert(z@ =~= zero_text());
    }
    z
}

/// Normalizes one raw record into a typed row.
///
/// Fails exactly when the timestamp field is absent (the record is shorter
/// than the mapped position) or does not parse; a malformed measurement
/// never fails the record, it is replaced by the `"0"` sentinel.
pub fn normalize(fm: &FieldMap, record: &Vec<String>) -> (r: Result<
    TelemetryRow,
    NormalizationError,
>)
    ensures
        normalize_post(*fm, record.deep_view(), r),
{
    if fm.time_label >= record.len() {
        return Err(NormalizationError::MissingTimestamp);
    }
    let label = &record[fm.time_label];
    let parsed = parse_time_label(label.as_str());
    match parsed {
        None => Err(NormalizationError::UnparseableTimestamp),
        Some(ts) => {
            let row = TelemetryRow {
                timestamp: ts,
                time_label: label.clone(),
                speed: select_field(fm.speed, record),
                density: select_field(fm.density, record),
                temperature: select_field(fm.temperature, record),
                bt: select_field(fm.bt, record),
                bz: select_field(fm.bz, record),
            };
            Ok(row)
        },
    }
}

/// Every row normalization yields is well formed: each measurement field
/// holds numeric text.
pub broadcast proof fn lemma_normalized_row_wf(fm: FieldMap, rec: Seq<Seq<char>>)
    ensures
        (#[trigger] normalized_row(fm, rec)).wf(),
{
    broadcast use crate::numeric::lemma_sanitized_numeric;
    broadcast use crate::numeric::lemma_zero_text_numeric;

}

} // verus!
