use solar_wind::fields::FeedVariant;
use solar_wind::normalize::normalize;
use solar_wind::normalize::NormalizationError;

fn record(fields: &[&str]) -> Vec<String> {
    fields.iter().map(|s| s.to_string()).collect()
}

#[test]
fn plasma_record_normalizes() {
    let fm = FeedVariant::Plasma.field_map();
    let rec = record(&["2024-01-01 00:00:00.000", "5.1", "400.2", "100000"]);
    let row = normalize(&fm, &rec).unwrap();
    assert_eq!(row.timestamp, 1704067200);
    assert_eq!(row.time_label, "2024-01-01 00:00:00.000");
    assert_eq!(row.density, "5.1");
    assert_eq!(row.speed, "400.2");
    assert_eq!(row.temperature, "100000");
    assert_eq!(row.bt, "0");
    assert_eq!(row.bz, "0");
}

#[test]
fn magnetic_record_normalizes() {
    let fm = FeedVariant::Magnetic.field_map();
    let rec = record(&["2024-01-01 00:00:00.000", "1.2", "2.3", "3.4", "10", "20", "4.0"]);
    let row = normalize(&fm, &rec).unwrap();
    assert_eq!(row.timestamp, 1704067200);
    assert_eq!(row.bt, "4.0");
    assert_eq!(row.bz, "3.4");
    assert_eq!(row.speed, "0");
    assert_eq!(row.density, "0");
    assert_eq!(row.temperature, "0");
}

#[test]
fn combined_record_normalizes() {
    let fm = FeedVariant::Combined.field_map();
    let rec = record(&[
        "2024-01-01 01:00:00",
        "400.2",
        "5.1",
        "100000",
        "1.0",
        "2.0",
        "3.4",
        "4.0",
    ]);
    let row = normalize(&fm, &rec).unwrap();
    assert_eq!(row.timestamp, 1704070800);
    assert_eq!(row.speed, "400.2");
    assert_eq!(row.density, "5.1");
    assert_eq!(row.temperature, "100000");
    assert_eq!(row.bz, "3.4");
    assert_eq!(row.bt, "4.0");
}

#[test]
fn malformed_measurement_defaults_to_zero() {
    // One bad numeric field never discards the record; every other field is
    // carried over exactly.
    let fm = FeedVariant::Plasma.field_map();
    let rec = record(&["2024-01-01 00:00:00.000", "bogus", "400.2", "100000"]);
    let row = normalize(&fm, &rec).unwrap();
    assert_eq!(row.density, "0");
    assert_eq!(row.speed, "400.2");
    assert_eq!(row.temperature, "100000");
}

#[test]
fn short_record_defaults_missing_measurements() {
    let fm = FeedVariant::Plasma.field_map();
    let rec = record(&["2024-01-01 00:00:00.000", "5.1"]);
    let row = normalize(&fm, &rec).unwrap();
    assert_eq!(row.density, "5.1");
    assert_eq!(row.speed, "0");
    assert_eq!(row.temperature, "0");
}

#[test]
fn unparseable_timestamp_rejects_the_record() {
    let fm = FeedVariant::Plasma.field_map();
    let rec = record(&["yesterday", "5.1", "400.2", "100000"]);
    let e = normalize(&fm, &rec).unwrap_err();
    assert_eq!(e, NormalizationError::UnparseableTimestamp);
}

#[test]
fn empty_record_has_no_timestamp() {
    let fm = FeedVariant::Plasma.field_map();
    let rec: Vec<String> = Vec::new();
    let e = normalize(&fm, &rec).unwrap_err();
    assert_eq!(e, NormalizationError::MissingTimestamp);
}
