use stof_runner::config::RunnerConfig;
use stof_runner::registry::{
    is_package_path, should_remove_package, should_write_archive, trim_pkg_suffix, MemoryRegistry,
    SystemRegistry,
};

#[test]
fn publish_overwrite_twice_is_idempotent() {
    let mut r = MemoryRegistry::new();
    assert!(r.publish("ns/pkg", true, vec![1, 2, 3]));
    let first = r.get("ns/pkg");
    assert!(r.publish("ns/pkg", true, vec![1, 2, 3]));
    assert_eq!(r.get("ns/pkg"), first);
    assert_eq!(r.get("ns/pkg"), Some(vec![1, 2, 3]));
}

#[test]
fn publish_without_overwrite_keeps_existing() {
    let mut r = MemoryRegistry::new();
    assert!(r.publish("ns/pkg", false, vec![1, 2, 3]));
    assert!(!r.publish("ns/pkg", false, vec![9, 9]));
    assert_eq!(r.get("ns/pkg"), Some(vec![1, 2, 3]));
}

#[test]
fn delete_missing_and_existing() {
    let mut r = MemoryRegistry::new();
    assert!(!r.delete("ns/pkg"));
    assert!(r.get("ns/pkg").is_none());
    r.publish("ns/pkg", true, vec![4]);
    r.publish("ns/other", true, vec![5]);
    assert!(r.delete("ns/pkg"));
    assert!(r.get("ns/pkg").is_none());
    assert_eq!(r.get("ns/other"), Some(vec![5]));
}

#[test]
fn single_segment_paths_are_refused() {
    let mut r = MemoryRegistry::new();
    assert!(!is_package_path("onlyone"));
    assert!(is_package_path("a/b"));
    assert!(is_package_path("a/"));
    assert!(!r.publish("onlyone", true, vec![1]));
    assert!(r.get("onlyone").is_none());
    assert!(!r.delete("onlyone"));
}

#[test]
fn pkg_suffix_is_ignored_in_keys() {
    assert_eq!(trim_pkg_suffix("ns/a.pkg"), "ns/a");
    assert_eq!(trim_pkg_suffix("ns/a.pkg.pkg"), "ns/a");
    assert_eq!(trim_pkg_suffix("ns/a.pk"), "ns/a.pk");
    assert_eq!(trim_pkg_suffix(".pkg"), "");
    let mut r = MemoryRegistry::new();
    r.publish("ns/a.pkg", true, vec![3]);
    assert_eq!(r.get("ns/a"), Some(vec![3]));
}

#[test]
fn system_registry_layout() {
    let mut c = RunnerConfig::typed_defaults();
    c.registry_path = Some("/srv/reg".to_string());
    let s = SystemRegistry::new(&c);
    assert_eq!(s.base_path, "/srv/reg");
    assert_eq!(s.package_dir("@ns/tool.pkg"), "/srv/reg/@ns/tool");
    assert_eq!(s.archive_path("@ns/tool"), "/srv/reg/@ns/tool/__pkg__.pkg");
}

#[test]
fn file_store_decisions() {
    assert!(should_write_archive(Some(false), false));
    assert!(!should_write_archive(Some(true), false));
    assert!(should_write_archive(Some(true), true));
    assert!(!should_write_archive(None, true));
    assert!(should_remove_package(Some(true)));
    assert!(!should_remove_package(Some(false)));
    assert!(!should_remove_package(None));
}
