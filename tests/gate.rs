use stof_runner::api::{counts_as_new, handle_delete, handle_get, handle_publish};
use stof_runner::auth::{authorize, authorize_header, credential_from_header, Credential, Operation};
use stof_runner::config::RunnerConfig;
use stof_runner::metrics::MetricsCounters;
use stof_runner::registry::MemoryRegistry;
use stof_runner::users::CredentialStore;

const ROOT_HEADER: &str = "Basic cm9vdDpodW50ZXIy";

fn admin_config(read: bool, write: bool, delete: bool, exec: bool) -> RunnerConfig {
    let mut c = RunnerConfig::typed_defaults();
    c.admin_username = Some("root".to_string());
    c.admin_password = Some("hunter2".to_string());
    let mut perms = 0;
    if read { perms |= 1; }
    if write { perms |= 2; }
    if delete { perms |= 4; }
    if exec { perms |= 8; }
    c.unauth_perms = Some(perms);
    c
}

#[test]
fn admin_scenario_read_default_and_admin_override() {
    let config = admin_config(true, false, false, false);
    let users = CredentialStore::new();
    let mut registry = MemoryRegistry::new();
    let mut metrics = MetricsCounters::new(0);
    assert!(registry.publish("a/b", true, vec![1, 2, 3]));

    let (get, _) = handle_get(&config, &users, None, "a/b", &registry, &mut metrics, 1);
    assert_eq!(get.status, 200);
    assert_eq!(get.bytes_body, Some(vec![1, 2, 3]));

    let (put, _) = handle_publish(&config, &users, None, "a/b", None, vec![9], &mut registry, &mut metrics, 2);
    assert_eq!(put.status, 403);
    assert_eq!(put.str_body, "access denied");
    assert_eq!(registry.get("a/b"), Some(vec![1, 2, 3]));

    let (put, _) = handle_publish(&config, &users, Some(ROOT_HEADER), "a/b", None, vec![9], &mut registry, &mut metrics, 3);
    assert_eq!(put.status, 200);
    assert_eq!(registry.get("a/b"), Some(vec![9]));
}

#[test]
fn no_admin_allows_everything() {
    let mut config = RunnerConfig::typed_defaults();
    config.unauth_perms = Some(0);
    let users = CredentialStore::new();
    for op in [Operation::Read, Operation::Write, Operation::Delete, Operation::Execute, Operation::Admin] {
        assert!(authorize_header(&config, &users, None, op, "a/b"));
        assert!(authorize_header(&config, &users, Some("Basic YWxpY2U6cHc="), op, "a/b"));
    }
}

#[test]
fn stored_user_rights_and_scope() {
    let config = admin_config(false, false, false, false);
    let mut users = CredentialStore::new();
    users.set_user("alice".to_string(), "pw".to_string(), 0b0011, "acme".to_string());
    let alice = Some("Basic YWxpY2U6cHc=");
    assert!(authorize_header(&config, &users, alice, Operation::Read, ""));
    assert!(authorize_header(&config, &users, alice, Operation::Write, "acme/tool"));
    assert!(!authorize_header(&config, &users, alice, Operation::Write, "other/tool"));
    assert!(!authorize_header(&config, &users, alice, Operation::Delete, "acme/tool"));
    assert!(!authorize_header(&config, &users, alice, Operation::Execute, ""));
    assert!(!authorize_header(&config, &users, alice, Operation::Admin, ""));
    assert!(!authorize_header(&config, &users, Some("Basic Ym9iOnB3"), Operation::Read, ""));
}

#[test]
fn malformed_header_counts_as_no_credential() {
    let config = admin_config(true, false, false, false);
    let users = CredentialStore::new();
    for h in ["garbage", "Basic !!!", "Bearer cm9vdDpodW50ZXIy", "Basic bm9jb2xvbg=="] {
        assert!(authorize_header(&config, &users, Some(h), Operation::Read, "a/b"));
        assert!(!authorize_header(&config, &users, Some(h), Operation::Write, "a/b"));
        assert!(!authorize_header(&config, &users, Some(h), Operation::Admin, ""));
    }
}

#[test]
fn admin_class_needs_admin_credential() {
    let config = admin_config(true, true, true, true);
    let mut users = CredentialStore::new();
    users.set_user("alice".to_string(), "pw".to_string(), 0b1111, String::new());
    assert!(authorize_header(&config, &users, Some(ROOT_HEADER), Operation::Admin, ""));
    assert!(!authorize_header(&config, &users, None, Operation::Admin, ""));
    assert!(!authorize_header(&config, &users, Some("Basic YWxpY2U6cHc="), Operation::Admin, ""));
}

#[test]
fn basic_header_is_decoded() {
    let c = credential_from_header(Some(ROOT_HEADER)).unwrap();
    assert_eq!(c.identity, "root");
    assert_eq!(c.secret, "hunter2");
    assert!(credential_from_header(Some("Basic")).is_none());
    assert!(credential_from_header(None).is_none());
    let cred = Credential { identity: "root".to_string(), secret: "hunter2".to_string() };
    let config = admin_config(false, false, false, false);
    assert!(authorize(&config, &CredentialStore::new(), Some(&cred), Operation::Delete, "a/b"));
}

#[test]
fn single_segment_path_rejected_before_store() {
    let config = admin_config(true, true, true, false);
    let users = CredentialStore::new();
    let mut registry = MemoryRegistry::new();
    let mut metrics = MetricsCounters::new(0);
    for header in [None, Some(ROOT_HEADER)] {
        let (get, _) = handle_get(&config, &users, header, "onlyone", &registry, &mut metrics, 0);
        assert_eq!(get.status, 400);
        assert_eq!(get.str_body, "package directory not found");
        let (put, _) = handle_publish(&config, &users, header, "onlyone", None, vec![1], &mut registry, &mut metrics, 0);
        assert_eq!(put.status, 400);
        let (del, _) = handle_delete(&config, &users, header, "onlyone", &mut registry, &mut metrics, 0);
        assert_eq!(del.status, 400);
    }
    assert!(registry.get("onlyone").is_none());
    assert_eq!(metrics.registry_packages_count(), 0);
    assert_eq!(metrics.registry_downloads_total_count(), 0);
}

#[test]
fn disabled_registry_answers_not_implemented() {
    let mut config = admin_config(true, true, true, true);
    config.registry_enabled = Some(false);
    let users = CredentialStore::new();
    let registry = MemoryRegistry::new();
    let mut metrics = MetricsCounters::new(0);
    let (get, _) = handle_get(&config, &users, None, "a/b", &registry, &mut metrics, 0);
    assert_eq!(get.status, 501);
}

#[test]
fn package_counter_follows_publishes_and_deletes() {
    let config = RunnerConfig::typed_defaults();
    let users = CredentialStore::new();
    let mut registry = MemoryRegistry::new();
    let mut metrics = MetricsCounters::new(0);
    assert_eq!(metrics.registry_packages_count(), 0);
    for path in ["ns/one", "ns/two", "@other/three"] {
        let (r, _) = handle_publish(&config, &users, None, path, None, vec![7], &mut registry, &mut metrics, 1);
        assert_eq!(r.status, 200);
    }
    assert_eq!(metrics.registry_packages_count(), 3);
    let (r, _) = handle_delete(&config, &users, None, "ns/two", &mut registry, &mut metrics, 2);
    assert_eq!(r.status, 200);
    assert_eq!(r.str_body, "package removed");
    assert_eq!(metrics.registry_packages_count(), 2);
    let (r, _) = handle_delete(&config, &users, None, "ns/two", &mut registry, &mut metrics, 3);
    assert_eq!(r.status, 400);
    assert_eq!(metrics.registry_packages_count(), 2);
}

#[test]
fn downloads_are_counted_per_package() {
    let config = RunnerConfig::typed_defaults();
    let users = CredentialStore::new();
    let mut registry = MemoryRegistry::new();
    let mut metrics = MetricsCounters::new(0);
    registry.publish("ns/one", false, vec![1]);
    handle_get(&config, &users, None, "ns/one", &registry, &mut metrics, 1);
    handle_get(&config, &users, None, "ns/one", &registry, &mut metrics, 2);
    let (missing, _) = handle_get(&config, &users, None, "ns/two", &registry, &mut metrics, 3);
    assert_eq!(missing.status, 400);
    assert_eq!(metrics.registry_downloads_total_count(), 2);
    assert_eq!(metrics.registry_downloads_count("ns/one"), 2);
    assert_eq!(metrics.registry_downloads_count("ns/two"), 0);
    handle_get(&config, &users, None, "ns/one.pkg", &registry, &mut metrics, 4);
    assert_eq!(metrics.registry_downloads_count("ns/one"), 3);
    assert_eq!(metrics.registry_downloads_count("ns/one.pkg"), 0);
}

#[test]
fn overwrite_query_controls_republish() {
    let config = RunnerConfig::typed_defaults();
    let users = CredentialStore::new();
    let mut registry = MemoryRegistry::new();
    let mut metrics = MetricsCounters::new(0);
    handle_publish(&config, &users, None, "ns/p", None, vec![1], &mut registry, &mut metrics, 0);
    let (r, _) = handle_publish(&config, &users, None, "ns/p", Some("false"), vec![2], &mut registry, &mut metrics, 0);
    assert_eq!(r.status, 400);
    assert_eq!(r.str_body, "package not created");
    assert_eq!(registry.get("ns/p"), Some(vec![1]));
    let (r, _) = handle_publish(&config, &users, None, "ns/p", Some("true"), vec![2], &mut registry, &mut metrics, 0);
    assert_eq!(r.status, 200);
    assert_eq!(registry.get("ns/p"), Some(vec![2]));
    assert_eq!(metrics.registry_packages_count(), 1);
}

#[test]
fn new_package_needs_known_absence_and_success() {
    assert!(counts_as_new(Some(false), Some(true)));
    assert!(!counts_as_new(Some(true), Some(true)));
    assert!(!counts_as_new(None, Some(true)));
    assert!(!counts_as_new(Some(false), Some(false)));
    assert!(!counts_as_new(Some(false), None));
}
