use stof_runner::metrics::{snapshot_due, MetricsCounters, PERSIST_INTERVAL_MS};

#[test]
fn counters_increment_and_floor_at_zero() {
    let mut m = MetricsCounters::new(0);
    m.registry_packages_deincrement_count(1);
    assert_eq!(m.registry_packages_count(), 0);
    m.increment_server_run_count(1);
    m.increment_server_run_count(1);
    assert_eq!(m.server_run_count(), 2);
    m.registry_packages_increment_count(1);
    m.registry_packages_increment_count(1);
    m.registry_packages_deincrement_count(1);
    assert_eq!(m.registry_packages_count(), 1);
}

#[test]
fn counters_saturate_at_max() {
    let mut m = MetricsCounters::restored(i64::MAX, i64::MAX, i64::MAX, 0);
    m.increment_server_run_count(0);
    m.registry_packages_increment_count(0);
    assert_eq!(m.server_run_count(), i64::MAX);
    assert_eq!(m.registry_packages_count(), i64::MAX);
}

#[test]
fn persistence_is_debounced() {
    let mut m = MetricsCounters::new(1_000);
    assert!(!m.increment_server_run_count(1_000 + PERSIST_INTERVAL_MS));
    assert_eq!(m.last_persisted_at(), 1_000);
    assert!(m.increment_server_run_count(1_001 + PERSIST_INTERVAL_MS));
    assert_eq!(m.last_persisted_at(), 1_001 + PERSIST_INTERVAL_MS);
    assert!(!m.increment_server_run_count(1_002 + PERSIST_INTERVAL_MS));
    assert!(!snapshot_due(5, 10));
    assert!(snapshot_due(600_001, 0));
    assert!(!snapshot_due(600_000, 0));
}

#[test]
fn restored_downloads() {
    let mut m = MetricsCounters::restored(1, 2, 10, 0);
    m.restore_downloads("ns/a", 7);
    assert_eq!(m.registry_downloads_count("ns/a"), 7);
    m.registry_downloads_increment_count("ns/a", 0);
    assert_eq!(m.registry_downloads_count("ns/a"), 8);
    assert_eq!(m.registry_downloads_total_count(), 11);
    assert_eq!(m.server_run_count(), 1);
}

#[test]
fn download_entries_list_each_package_once() {
    let mut m = MetricsCounters::new(0);
    m.registry_downloads_increment_count("ns/a", 0);
    m.registry_downloads_increment_count("ns/b", 0);
    m.registry_downloads_increment_count("ns/a", 0);
    let mut entries = m.download_entries().clone();
    entries.sort();
    assert_eq!(entries, vec![("ns/a".to_string(), 2), ("ns/b".to_string(), 1)]);
    assert_eq!(m.registry_downloads_total_count(), 3);
}
