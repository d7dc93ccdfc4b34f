use solar_wind::fields::FeedVariant;
use solar_wind::normalize::normalize;
use solar_wind::row::TelemetryRow;
use solar_wind::store::Store;
use solar_wind::window::since_timestamp;
use solar_wind::window::refresh_plan;
use solar_wind::window::to_columns;
use solar_wind::window::window;
use solar_wind::window::window_at;

fn plasma_row(label: &str, density: &str, speed: &str, temperature: &str) -> TelemetryRow {
    let fm = FeedVariant::Plasma.field_map();
    let rec: Vec<String> = vec![label, density, speed, temperature]
        .into_iter()
        .map(|s| s.to_string())
        .collect();
    normalize(&fm, &rec).unwrap()
}

#[test]
fn query_is_ascending_for_any_append_order() {
    let mut store = Store::new();
    let batch = vec![
        plasma_row("2024-01-01 03:00:00", "3", "3", "3"),
        plasma_row("2024-01-01 01:00:00", "1", "1", "1"),
        plasma_row("2024-01-01 02:00:00", "2", "2", "2"),
    ];
    store.append(batch);
    let rows = store.query(0);
    assert_eq!(rows.len(), 3);
    assert!(rows[0].timestamp < rows[1].timestamp);
    assert!(rows[1].timestamp < rows[2].timestamp);
    assert_eq!(rows[0].density, "1");
    assert_eq!(rows[1].density, "2");
    assert_eq!(rows[2].density, "3");
}

#[test]
fn query_excludes_the_bound_itself() {
    let mut store = Store::new();
    store.append(vec![
        plasma_row("2024-01-01 01:00:00", "1", "1", "1"),
        plasma_row("2024-01-01 02:00:00", "2", "2", "2"),
    ]);
    let bound = 1704070800; // 2024-01-01 01:00:00
    let rows = store.query(bound);
    assert_eq!(rows.len(), 1);
    assert!(rows[0].timestamp > bound);
    assert_eq!(rows[0].density, "2");
}

#[test]
fn appending_a_batch_twice_doubles_the_window() {
    let mut store = Store::new();
    let batch = vec![
        plasma_row("2024-01-01 01:00:00", "1", "1", "1"),
        plasma_row("2024-01-01 02:00:00", "2", "2", "2"),
    ];
    let copy = vec![
        plasma_row("2024-01-01 01:00:00", "1", "1", "1"),
        plasma_row("2024-01-01 02:00:00", "2", "2", "2"),
    ];
    store.append(batch);
    assert_eq!(store.query(0).len(), 2);
    store.append(copy);
    let rows = store.query(0);
    assert_eq!(rows.len(), 4);
    // Duplicates are preserved, not merged, and order stays non-decreasing.
    assert_eq!(rows[0].timestamp, rows[1].timestamp);
    assert_eq!(rows[2].timestamp, rows[3].timestamp);
    assert!(rows[1].timestamp < rows[2].timestamp);
}

#[test]
fn clear_resets_the_store() {
    let mut store = Store::new();
    store.append(vec![plasma_row("2024-01-01 01:00:00", "1", "1", "1")]);
    assert_eq!(store.len(), 1);
    store.clear();
    assert_eq!(store.len(), 0);
    assert_eq!(store.query(0).len(), 0);
}

#[test]
fn window_of_zero_hours_is_empty() {
    let mut store = Store::new();
    store.append(vec![
        plasma_row("2024-01-01 01:00:00", "1", "1", "1"),
        plasma_row("2024-01-01 02:00:00", "2", "2", "2"),
    ]);
    let now = 1704153600; // 2024-01-02 00:00:00, later than everything stored
    let w = window_at(&store, now, 0);
    assert_eq!(w.time_label.len(), 0);
    assert_eq!(w.bt.len(), 0);
    assert_eq!(w.bz.len(), 0);
    assert_eq!(w.density.len(), 0);
    assert_eq!(w.speed.len(), 0);
    assert_eq!(w.temperature.len(), 0);
}

#[test]
fn window_columns_align_with_rows() {
    let mut store = Store::new();
    store.append(vec![
        plasma_row("2024-01-01 02:00:00", "2.5", "500", "90000"),
        plasma_row("2024-01-01 01:00:00", "1.5", "400", "80000"),
    ]);
    let now = 1704078000; // 2024-01-01 03:00:00
    let w = window_at(&store, now, 24);
    assert_eq!(w.time_label, vec!["2024-01-01 01:00:00", "2024-01-01 02:00:00"]);
    assert_eq!(w.density, vec!["1.5", "2.5"]);
    assert_eq!(w.speed, vec!["400", "500"]);
    assert_eq!(w.temperature, vec!["80000", "90000"]);
    assert_eq!(w.bt, vec!["0", "0"]);
    assert_eq!(w.bz, vec!["0", "0"]);
}

#[test]
fn window_bound_excludes_older_rows() {
    let mut store = Store::new();
    store.append(vec![
        plasma_row("2024-01-01 01:00:00", "1", "1", "1"),
        plasma_row("2024-01-02 01:00:00", "2", "2", "2"),
    ]);
    let now = 1704157200; // 2024-01-02 01:00:00... exactly the newest row
    let w = window_at(&store, now, 24);
    // The 24-hour bound is 2024-01-01 01:00:00; the row at the bound itself
    // is excluded, the strictly newer one stays.
    assert_eq!(w.time_label, vec!["2024-01-02 01:00:00"]);
}

#[test]
fn to_columns_reshapes_rows() {
    let rows = vec![plasma_row("2024-01-01 01:00:00", "1.5", "400", "80000")];
    let w = to_columns(&rows);
    assert_eq!(w.time_label, vec!["2024-01-01 01:00:00"]);
    assert_eq!(w.density, vec!["1.5"]);
}

#[test]
fn since_timestamp_subtracts_hours() {
    assert_eq!(since_timestamp(1000, 0), 1000);
    assert_eq!(since_timestamp(0, 1), -3600);
    assert_eq!(since_timestamp(1704157200, 24), 1704070800);
}

#[test]
fn since_timestamp_clamps_instead_of_overflowing() {
    assert_eq!(since_timestamp(i64::MIN + 100, 1), i64::MIN);
    assert_eq!(since_timestamp(0, i64::MAX), i64::MIN);
}

#[test]
fn live_window_of_past_data_is_empty() {
    // Against the real clock: everything stored lies decades in the past, so
    // even a wide window holds nothing.
    let mut store = Store::new();
    store.append(vec![plasma_row("1970-01-02 00:00:00", "1", "1", "1")]);
    let w = window(&store, 24);
    assert_eq!(w.time_label.len(), 0);
}

#[test]
fn refresh_plan_keeps_the_window_and_cadence() {
    let p = refresh_plan(6);
    assert_eq!(p.hours_back, 6);
    assert_eq!(p.interval_seconds, 60);
}
