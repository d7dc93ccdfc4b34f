use solar_wind::fields::FeedVariant;
use solar_wind::poll::poll_step;
use solar_wind::poll::FetchError;
use solar_wind::poll::FetchOutcome;
use solar_wind::store::Store;
use solar_wind::window::window_at;

fn payload(records: &[&[&str]]) -> FetchOutcome {
    FetchOutcome::Payload(
        records.iter().map(|r| r.iter().map(|s| s.to_string()).collect()).collect(),
    )
}

#[test]
fn payload_skips_header_and_appends_rows() {
    let mut store = Store::new();
    let fm = FeedVariant::Plasma.field_map();
    let outcome = payload(&[
        &["time_tag", "density", "speed", "temperature"],
        &["2024-01-01 00:00:00.000", "5.1", "400.2", "100000"],
        &["2024-01-01 00:01:00.000", "5.2", "401.0", "100500"],
    ]);
    let appended = poll_step(&mut store, &fm, outcome).unwrap();
    assert_eq!(appended, 2);
    assert_eq!(store.len(), 2);
}

#[test]
fn records_without_timestamps_contribute_no_rows() {
    let mut store = Store::new();
    let fm = FeedVariant::Plasma.field_map();
    let outcome = payload(&[
        &["time_tag", "density", "speed", "temperature"],
        &["not a time", "5.1", "400.2", "100000"],
        &["2024-01-01 00:01:00.000", "5.2", "401.0", "100500"],
        &["", "1", "2", "3"],
    ]);
    let appended = poll_step(&mut store, &fm, outcome).unwrap();
    assert_eq!(appended, 1);
    assert_eq!(store.len(), 1);
    let rows = store.query(0);
    assert_eq!(rows[0].time_label, "2024-01-01 00:01:00.000");
}

#[test]
fn failed_fetch_leaves_the_store_unchanged() {
    // A timed-out fetch changes nothing, and the next scheduled poll
    // proceeds normally.
    let mut store = Store::new();
    let fm = FeedVariant::Plasma.field_map();
    let first = payload(&[
        &["time_tag", "density", "speed", "temperature"],
        &["2024-01-01 00:00:00.000", "5.1", "400.2", "100000"],
    ]);
    poll_step(&mut store, &fm, first).unwrap();
    assert_eq!(store.len(), 1);

    let e = poll_step(&mut store, &fm, FetchOutcome::Failed(FetchError::Transport)).unwrap_err();
    assert_eq!(e, FetchError::Transport);
    assert_eq!(store.len(), 1);

    let next = payload(&[
        &["time_tag", "density", "speed", "temperature"],
        &["2024-01-01 00:01:00.000", "5.2", "401.0", "100500"],
    ]);
    let appended = poll_step(&mut store, &fm, next).unwrap();
    assert_eq!(appended, 1);
    assert_eq!(store.len(), 2);
}

#[test]
fn non_array_envelope_is_reported() {
    let mut store = Store::new();
    let fm = FeedVariant::Plasma.field_map();
    let e = poll_step(&mut store, &fm, FetchOutcome::Failed(FetchError::NotAnArray)).unwrap_err();
    assert_eq!(e, FetchError::NotAnArray);
    assert_eq!(store.len(), 0);
}

#[test]
fn empty_envelope_is_reported() {
    let mut store = Store::new();
    let fm = FeedVariant::Plasma.field_map();
    let e = poll_step(&mut store, &fm, payload(&[])).unwrap_err();
    assert_eq!(e, FetchError::EmptyPayload);
    assert_eq!(store.len(), 0);
}

#[test]
fn header_only_payload_appends_nothing() {
    let mut store = Store::new();
    let fm = FeedVariant::Plasma.field_map();
    let outcome = payload(&[&["time_tag", "density", "speed", "temperature"]]);
    let appended = poll_step(&mut store, &fm, outcome).unwrap();
    assert_eq!(appended, 0);
    assert_eq!(store.len(), 0);
}

#[test]
fn two_feeds_share_one_window() {
    // The plasma and magnetic feeds of the same instant land as two rows;
    // each keeps its own fields, index-aligned to its own time label.
    let mut store = Store::new();
    let plasma = FeedVariant::Plasma.field_map();
    let magnetic = FeedVariant::Magnetic.field_map();
    poll_step(
        &mut store,
        &plasma,
        payload(&[
            &["time_tag", "density", "speed", "temperature"],
            &["2024-01-01 00:00:00.000", "5.1", "400.2", "100000"],
        ]),
    )
    .unwrap();
    poll_step(
        &mut store,
        &magnetic,
        payload(&[
            &["time_tag", "bx", "by", "bz", "lon", "lat", "bt"],
            &["2024-01-01 00:00:00.000", "1.2", "2.3", "3.4", "10", "20", "4.0"],
        ]),
    )
    .unwrap();
    let now = 1704067200 + 3600; // one hour past the shared instant
    let w = window_at(&store, now, 24);
    assert_eq!(w.time_label.len(), 2);
    assert_eq!(w.bt.len(), 2);
    assert_eq!(w.bz.len(), 2);
    assert_eq!(w.density.len(), 2);
    assert_eq!(w.speed.len(), 2);
    assert_eq!(w.temperature.len(), 2);
    // The two rows share a timestamp, so either order is allowed; find the
    // plasma row by its density.
    let p = if w.density[0] == "5.1" { 0 } else { 1 };
    let m = 1 - p;
    assert_eq!(w.time_label[p], "2024-01-01 00:00:00.000");
    assert_eq!(w.density[p], "5.1");
    assert_eq!(w.speed[p], "400.2");
    assert_eq!(w.temperature[p], "100000");
    assert_eq!(w.bt[p], "0");
    assert_eq!(w.bz[p], "0");
    assert_eq!(w.time_label[m], "2024-01-01 00:00:00.000");
    assert_eq!(w.bt[m], "4.0");
    assert_eq!(w.bz[m], "3.4");
    assert_eq!(w.density[m], "0");
    assert_eq!(w.speed[m], "0");
    assert_eq!(w.temperature[m], "0");
}

#[test]
fn corrupted_density_still_yields_a_row() {
    let mut store = Store::new();
    let fm = FeedVariant::Combined.field_map();
    poll_step(
        &mut store,
        &fm,
        payload(&[
            &["time_tag", "speed", "density", "temperature", "bx", "by", "bz", "bt"],
            &["2024-01-01 00:00:00.000", "400.2", "NaNtext", "100000", "1.0", "2.0", "3.4", "4.0"],
        ]),
    )
    .unwrap();
    let w = window_at(&store, 1704067200 + 3600, 24);
    assert_eq!(w.time_label.len(), 1);
    assert_eq!(w.density[0], "0");
    assert_eq!(w.speed[0], "400.2");
    assert_eq!(w.temperature[0], "100000");
    assert_eq!(w.bz[0], "3.4");
    assert_eq!(w.bt[0], "4.0");
}
