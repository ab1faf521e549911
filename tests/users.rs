use stof_runner::users::CredentialStore;

#[test]
fn store_set_lookup_delete() {
    let mut s = CredentialStore::new();
    assert_eq!(s.len(), 0);
    assert!(s.set_user("alice".to_string(), "pw".to_string(), 0b0011, "acme".to_string()));
    assert!(s.set_user("bob".to_string(), "pw2".to_string(), 0b1000, String::new()));
    assert_eq!(s.len(), 2);
    let a = s.authenticate("alice", "pw").unwrap();
    assert_eq!(a.perms, 0b0011);
    assert_eq!(a.scope, "acme");
    assert!(s.authenticate("alice", "wrong").is_none());
    assert!(s.authenticate("carol", "pw").is_none());
    assert!(s.delete_user("alice"));
    assert!(!s.delete_user("alice"));
    assert_eq!(s.len(), 1);
    assert!(s.authenticate("alice", "pw").is_none());
}

#[test]
fn store_set_replaces_existing_user() {
    let mut s = CredentialStore::new();
    s.set_user("alice".to_string(), "old".to_string(), 0b0001, String::new());
    s.set_user("alice".to_string(), "new".to_string(), 0b0010, "ns".to_string());
    assert_eq!(s.len(), 1);
    assert!(s.authenticate("alice", "old").is_none());
    let a = s.authenticate("alice", "new").unwrap();
    assert_eq!(a.perms, 0b0010);
    assert_eq!(s.users().len(), 1);
}

#[test]
fn store_permission_queries() {
    let mut s = CredentialStore::new();
    s.set_user("alice".to_string(), "pw".to_string(), 0b0111, "acme".to_string());
    assert!(s.can_read("alice", "pw"));
    assert!(!s.can_read("alice", "nope"));
    assert!(s.can_write("alice", "pw", "acme/x"));
    assert!(!s.can_write("alice", "pw", "other/x"));
    assert!(s.can_delete("alice", "pw", "@acme/x"));
    assert!(!s.can_exec("alice", "pw"));
    assert!(!s.can_read("nobody", "pw"));
}

#[test]
fn update_needs_name_secret_and_mask() {
    let mut s = CredentialStore::new();
    assert!(!s.apply_update(Some("alice".to_string()), None, Some(1), None));
    assert!(!s.apply_update(None, Some("pw".to_string()), Some(1), None));
    assert!(!s.apply_update(Some("alice".to_string()), Some("pw".to_string()), None, None));
    assert_eq!(s.len(), 0);
    assert!(s.apply_update(Some("alice".to_string()), Some("pw".to_string()), Some(0b0001), None));
    let a = s.authenticate("alice", "pw").unwrap();
    assert_eq!(a.scope, "");
    assert!(s.apply_update(Some("alice".to_string()), Some("pw".to_string()), Some(0b0010), Some("acme".to_string())));
    assert_eq!(s.authenticate("alice", "pw").unwrap().scope, "acme");
    assert_eq!(s.len(), 1);
}
