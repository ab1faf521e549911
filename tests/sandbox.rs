use stof_runner::run::{
    export_outcome, has_parent_dir_segment, is_within_root, run_response, stage_error_message, trim_start_all, wants_text_export, FsDecision,
    PFileSystemLibrary, RunOutcome, Stage, RPKG,
};

#[test]
fn timeout_gives_request_timeout_without_export() {
    let r = run_response(RunOutcome::TimedOut, false);
    assert_eq!(r.status, 408);
    assert!(r.bytes_body.is_none());
    assert!(r.headers.is_empty());
    assert_eq!(r.str_body, "timeout while running document");
}

#[test]
fn opaque_errors_hide_diagnostics() {
    let a = run_response(RunOutcome::Failed(Stage::Parse, "unexpected token at 1:3".to_string()), true);
    let b = run_response(RunOutcome::Failed(Stage::Parse, "unterminated string".to_string()), true);
    assert_eq!(a.status, 400);
    assert_eq!(a.str_body, b.str_body);
    assert_eq!(a.str_body, "error parsing document");
    let c = run_response(RunOutcome::Failed(Stage::Parse, "unexpected token at 1:3".to_string()), false);
    let d = run_response(RunOutcome::Failed(Stage::Parse, "unterminated string".to_string()), false);
    assert_ne!(c.str_body, d.str_body);
    assert_eq!(c.str_body, "unexpected token at 1:3");
    assert_eq!(stage_error_message(Stage::Execute), "error executing document");
    assert_eq!(stage_error_message(Stage::Deferred), "error running document");
}

#[test]
fn exports_become_ok_responses() {
    let t = run_response(export_outcome(Some(("{}".to_string(), "application/json".to_string())), None), true);
    assert_eq!(t.status, 200);
    assert_eq!(t.str_body, "{}");
    assert_eq!(t.headers, vec![("content-type".to_string(), "application/json".to_string())]);
    let b = run_response(export_outcome(None, Some(vec![1, 2])), true);
    assert_eq!(b.status, 200);
    assert_eq!(b.bytes_body, Some(vec![1, 2]));
    assert_eq!(b.headers[0].1, "application/bstof");
    let f = run_response(export_outcome(None, None), false);
    assert_eq!(f.status, 500);
    assert!(wants_text_export("json"));
    assert!(!wants_text_export("bstof"));
}

#[test]
fn sandbox_fs_is_confined() {
    let lib = PFileSystemLibrary::new("/tmp/scratch", "/tmp/__stof_staging__");
    assert_eq!(lib.scope(), "fs");
    let one = |p: &str| vec![p.to_string()];
    assert!(matches!(lib.decide("read", &one("/tmp/scratch/a.txt")), FsDecision::ReadText(p) if p == "/tmp/scratch/a.txt"));
    assert!(matches!(lib.decide("read_blob", &one("/tmp/__stof_staging__/x/y")), FsDecision::ReadBlob(_)));
    assert!(matches!(lib.decide("read", &one("/etc/passwd")), FsDecision::Denied));
    assert!(matches!(lib.decide("read", &one("/tmp/scratch/../../etc/passwd")), FsDecision::Denied));
    assert!(matches!(lib.decide("read_blob", &one("/tmp/scratch/a/..")), FsDecision::Denied));
    assert!(matches!(lib.decide("read", &one("/tmp/scratch-other/x")), FsDecision::Denied));
    assert!(matches!(lib.decide("read", &one("/tmp/scratchx")), FsDecision::Denied));
    assert!(matches!(lib.decide("read", &one("/tmp/scratch")), FsDecision::ReadText(_)));
    assert!(matches!(lib.decide("read", &one("/tmp/scratch/a..b/..c")), FsDecision::ReadText(_)));
    assert!(matches!(lib.decide("read", &one("/tmp/scratch/./a")), FsDecision::ReadText(_)));
    let unrooted = PFileSystemLibrary::new("", "");
    assert!(matches!(unrooted.decide("read", &one("/tmp/a")), FsDecision::Denied));
    assert!(matches!(lib.decide("read", &vec![]), FsDecision::InvalidArguments));
    assert!(matches!(lib.decide("write", &one("/tmp/scratch/a")), FsDecision::UnknownFunction));
}

#[test]
fn imports_resolve_into_registry() {
    let r = RPKG::new("registry");
    assert_eq!(r.import_path("__stof__/@ns/name/lib.stof"), "registry/@ns/name/lib.stof");
    assert_eq!(r.import_path("__stof__/__stof__/a/b"), "registry/a/b");
    assert_eq!(r.import_path("a/b"), "registry/a/b");
    assert_eq!(trim_start_all("xxa", "x"), "a");
}

#[test]
fn root_and_parent_segment_rules() {
    assert!(is_within_root("/a/b", "/a"));
    assert!(is_within_root("/a", "/a"));
    assert!(!is_within_root("/ab", "/a"));
    assert!(!is_within_root("/a", ""));
    assert!(has_parent_dir_segment(".."));
    assert!(has_parent_dir_segment("a/../b"));
    assert!(has_parent_dir_segment("a/.."));
    assert!(!has_parent_dir_segment("a/...b"));
    assert!(!has_parent_dir_segment("a/.b/c."));
}
