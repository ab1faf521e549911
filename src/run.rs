//! The execution sandbox's decisions: the capability rules it installs and
//! how an execution's outcome becomes a response.

use vstd::prelude::*;
use crate::response::{
    is_bytes_reply, is_text_reply, StofResponse, BSTOF_CONTENT_TYPE, CONTENT_TYPE,
    STATUS_BAD_REQUEST, STATUS_INTERNAL_SERVER_ERROR, STATUS_OK, STATUS_REQUEST_TIMEOUT,
};
use crate::text::same_text;

verus! {

/// Export format that selects the runtime's native binary snapshot.
pub const NATIVE_FORMAT: &'static str = "bstof";
/// Content type assumed for a payload that declares none.
pub const DEFAULT_CONTENT_TYPE: &'static str = "stof";
/// Body of a timed-out execution's response.
pub const TIMEOUT_MESSAGE: &'static str = "timeout while running document";
/// Body of the response when the finished document cannot be exported.
pub const EXPORT_FAILED_MESSAGE: &'static str = "error exporting document";
/// Prefix that the runtime puts before paths of imported package files.
pub const IMPORT_PREFIX: &'static str = "__stof__/";

/// The stages of an execution that can fail on the program's account.
#[derive(Clone, Copy, Debug, PartialEq, Eq, Structural)]
pub enum Stage {
    /// Loading the payload.
    Parse,
    /// Running the entry object.
    Execute,
    /// Running the deferred group.
    Deferred,
}

/// How one execution ended.
pub enum RunOutcome {
    /// The deadline passed before the execution finished.
    TimedOut,
    /// A stage failed, with the runtime's diagnostic.
    Failed(Stage, String),
    /// Exported as text in the requested format, with that format's content type.
    Text(String, String),
    /// Exported in the native binary snapshot format.
    Binary(Vec<u8>),
    /// Nothing could be exported.
    ExportFailed,
}

/// The fixed message of a failed stage.
pub open spec fn stage_message(stage: Stage) -> Seq<char> {
    match stage {
        Stage::Parse => "error parsing document"@,
        Stage::Execute => "error executing document"@,
        Stage::Deferred => "error running document"@,
    }
}

/// The body of a failed stage's response: the diagnostic, or the stage's
/// fixed message when errors are opaque.
pub open spec fn failure_body(stage: Stage, diagnostic: Seq<char>, opaque: bool) -> Seq<char> {
    if opaque {
        stage_message(stage)
    } else {
        diagnostic
    }
}

/// The fixed message of a failed stage.
pub fn stage_error_message(stage: Stage) -> (r: &'static str)
    ensures
        r@ == stage_message(stage),
{
    match stage {
        Stage::Parse => "error parsing document",
        Stage::Execute => "error executing document",
        Stage::Deferred => "error running document",
    }
}

/// Whether the export format asks for text rather than the native snapshot.
pub fn wants_text_export(format: &str) -> (r: bool)
    ensures
        r == (format@ != NATIVE_FORMAT@),
{
    !same_text(format, NATIVE_FORMAT)
}

/// The outcome of exporting a finished document: the text export when the
/// requested format gave one, else the native snapshot, else a failure.
pub fn export_outcome(text_export: Option<(String, String)>, binary_export: Option<Vec<u8>>) -> (r: RunOutcome)
    ensures
        match text_export {
            Some((t, c)) => r matches RunOutcome::Text(t2, c2) && t2@ == t@ && c2@ == c@,
            None => match binary_export {
                Some(b) => r matches RunOutcome::Binary(b2) && b2@ == b@,
                None => r is ExportFailed,
            },
        },
{
    match text_export {
        Some((t, c)) => RunOutcome::Text(t, c),
        None => match binary_export {
            Some(b) => RunOutcome::Binary(b),
            None => RunOutcome::ExportFailed,
        },
    }
}

/// The response for an execution's outcome. A timeout gives 408 with a fixed
/// message and no export; a failed stage gives 400 with the diagnostic, or
/// the stage's fixed message when `opaque`; exports give 200.
pub fn run_response(outcome: RunOutcome, opaque: bool) -> (r: StofResponse)
    ensures
        match outcome {
            RunOutcome::TimedOut => is_text_reply(r, STATUS_REQUEST_TIMEOUT, TIMEOUT_MESSAGE@),
            RunOutcome::Failed(stage, d) => is_text_reply(r, STATUS_BAD_REQUEST, failure_body(stage, d@, opaque)),
            RunOutcome::Text(t, c) => r.status == STATUS_OK && r.str_body@ == t@ && r.bytes_body is None
                && r.headers@.len() == 1 && r.headers@[0].0@ == CONTENT_TYPE@ && r.headers@[0].1@ == c@,
            RunOutcome::Binary(b) => is_bytes_reply(r, STATUS_OK, BSTOF_CONTENT_TYPE@, b@),
            RunOutcome::ExportFailed => is_text_reply(r, STATUS_INTERNAL_SERVER_ERROR, EXPORT_FAILED_MESSAGE@),
        },
{
    match outcome {
        RunOutcome::TimedOut => StofResponse::error(STATUS_REQUEST_TIMEOUT, TIMEOUT_MESSAGE),
        RunOutcome::Failed(stage, d) => {
            if opaque {
                StofResponse::error(STATUS_BAD_REQUEST, stage_error_message(stage))
            } else {
                StofResponse::error(STATUS_BAD_REQUEST, d.as_str())
            }
        },
        RunOutcome::Text(t, c) => StofResponse::text(STATUS_OK, t, c.as_str()),
        RunOutcome::Binary(b) => StofResponse::bstof(STATUS_OK, b),
        RunOutcome::ExportFailed => StofResponse::error(STATUS_INTERNAL_SERVER_ERROR, EXPORT_FAILED_MESSAGE),
    }
}

/// A timed-out execution is answered with the timeout status and never
/// with an export.
pub proof fn lemma_timeout_never_exports(r: StofResponse)
    requires
        is_text_reply(r, STATUS_REQUEST_TIMEOUT, TIMEOUT_MESSAGE@),
    ensures
        r.status == STATUS_REQUEST_TIMEOUT,
        r.status != STATUS_OK,
        r.bytes_body is None,
        r.headers@.len() == 0,
{
}

/// With opaque errors two failures at the same stage give the same body;
/// without, the body is the diagnostic, so different diagnostics give
/// different bodies.
pub proof fn lemma_opaque_failures(stage: Stage, d1: Seq<char>, d2: Seq<char>)
    ensures
        failure_body(stage, d1, true) == failure_body(stage, d2, true),
        failure_body(stage, d1, false) == d1,
        d1 != d2 ==> failure_body(stage, d1, false) != failure_body(stage, d2, false),
{
}

/// Whether `p` begins with `prefix`.
pub open spec fn starts_with(p: Seq<char>, prefix: Seq<char>) -> bool {
    prefix.len() <= p.len() && p.subrange(0, prefix.len() as int) == prefix
}

/// Whether `p` is the directory `root` or lies below it: equal to it, or
/// starting with it followed by `/`. An empty root holds nothing.
pub open spec fn within_root(p: Seq<char>, root: Seq<char>) -> bool {
    root.len() > 0 && (p == root || starts_with(p, root.push('/')))
}

/// Whether the `/`-separated segment of `p` that starts at `i` is `..`.
pub open spec fn parent_segment_at(p: Seq<char>, i: int) -> bool {
    &&& 0 <= i
    &&& i + 1 < p.len()
    &&& p[i] == '.'
    &&& p[i + 1] == '.'
    &&& (i == 0 || p[i - 1] == '/')
    &&& (i + 2 == p.len() || p[i + 2] == '/')
}

/// Whether some `/`-separated segment of `p` is `..`.
pub open spec fn has_parent_segment(p: Seq<char>) -> bool {
    exists|i: int| #[trigger] parent_segment_at(p, i)
}

/// Whether `p` is `root` or lies below it (see `within_root`).
pub fn is_within_root(p: &str, root: &str) -> (r: bool)
    ensures
        r == within_root(p@, root@),
{
    let n = p.unicode_len();
    let k = root.unicode_len();
    if k == 0 {
        return false;
    }
    if same_text(p, root) {
        return true;
    }
    if k >= n {
        return false;
    }
    let head = same_text(p.substring_char(0, k), root);
    let slash = p.get_char(k) == '/';
    assert(p@.subrange(0, k + 1) =~= p@.subrange(0, k as int).push(p@[k as int]));
    if head && slash {
        assert(p@.subrange(0, k + 1) =~= root@.push('/'));
    } else if !head {
        proof {
            let q = p@.subrange(0, k + 1);
            if q == root@.push('/') {
                assert(p@.subrange(0, k as int) =~= q.subrange(0, k as int));
                assert(q.subrange(0, k as int) =~= root@);
            }
        }
    } else {
        assert(root@.push('/')[k as int] == '/');
    }
    head && slash
}

/// Whether some `/`-separated segment of `p` is `..`.
pub fn has_parent_dir_segment(p: &str) -> (r: bool)
    ensures
        r == has_parent_segment(p@),
{
    let n = p.unicode_len();
    let mut i: usize = 0;
    while i < n && i + 1 < n
        invariant
            n == p@.len(),
            i <= n,
            forall|j: int| 0 <= j < i ==> !parent_segment_at(p@, j),
        decreases n - i,
    {
        if p.get_char(i) == '.' && p.get_char(i + 1) == '.'
            && (i == 0 || p.get_char(i - 1) == '/')
            && (i + 2 == n || p.get_char(i + 2) == '/') {
            assert(parent_segment_at(p@, i as int));
            return true;
        }
        i = i + 1;
    }
    assert forall|j: int| !parent_segment_at(p@, j) by {
        if 0 <= j < i {
        }
    }
    false
}

/// `p` with every leading `prefix` removed (`prefix` non-empty).
pub open spec fn trim_leading(p: Seq<char>, prefix: Seq<char>) -> Seq<char>
    decreases p.len(),
{
    if prefix.len() > 0 && starts_with(p, prefix) {
        trim_leading(p.subrange(prefix.len() as int, p.len() as int), prefix)
    } else {
        p
    }
}

/// Removes every leading `prefix` of `p`.
pub fn trim_start_all<'a>(p: &'a str, prefix: &str) -> (r: &'a str)
    ensures
        r@ == trim_leading(p@, prefix@),
{
    let n = p.unicode_len();
    let k = prefix.unicode_len();
    if k == 0 {
        return p;
    }
    let mut start: usize = 0;
    assert(p@.subrange(0, n as int) =~= p@);
    while start <= n && k <= n - start && same_text(p.substring_char(start, start + k), prefix)
        invariant
            n == p@.len(),
            k == prefix@.len(),
            k > 0,
            start <= n,
            trim_leading(p@, prefix@) == trim_leading(p@.subrange(start as int, n as int), prefix@),
        decreases n - start,
    {
        let ghost q = p@.subrange(start as int, n as int);
        assert(q.subrange(0, k as int) =~= p@.subrange(start as int, start + k));
        assert(q.subrange(k as int, q.len() as int) =~= p@.subrange(start + k, n as int));
        start = start + k;
    }
    let ghost q = p@.subrange(start as int, n as int);
    assert(k <= n - start ==> q.subrange(0, k as int) =~= p@.subrange(start as int, start + k));
    p.substring_char(start, n)
}

/// What a call into the sandboxed file-system capability does.
pub enum FsDecision {
    /// Read the file at this path as text.
    ReadText(String),
    /// Read the file at this path as bytes.
    ReadBlob(String),
    /// The path lies outside the allowed roots.
    Denied,
    /// The call did not carry exactly one path.
    InvalidArguments,
    /// The capability has no function of that name.
    UnknownFunction,
}

/// Read-only file-system capability confined to two directories: a prefix path
/// and the scratch directory where packages are extracted.
pub struct PFileSystemLibrary {
    pub prefix_path: String,
    pub temp_dir: String,
}

impl PFileSystemLibrary {
    /// A capability confined to `prefix_path` and the scratch directory `temp_dir`.
    pub fn new(prefix_path: &str, temp_dir: &str) -> (r: Self)
        ensures
            r.prefix_path@ == prefix_path@,
            r.temp_dir@ == temp_dir@,
    {
        PFileSystemLibrary { prefix_path: prefix_path.to_owned(), temp_dir: temp_dir.to_owned() }
    }

    /// Name of the capability this library replaces.
    pub fn scope(&self) -> (r: &'static str)
        ensures
            r@ == "fs"@,
    {
        "fs"
    }

    /// Whether `path` lies at or below one of the two allowed roots and has
    /// no `..` segment that could climb out of it.
    pub open spec fn admits(&self, path: Seq<char>) -> bool {
        (within_root(path, self.prefix_path@) || within_root(path, self.temp_dir@))
            && !has_parent_segment(path)
    }

    /// Decides a call `name(args)`: `read` and `read_blob` take exactly one
    /// path, which must lie at or below an allowed root without a `..`
    /// segment; every other path is denied.
    pub fn decide(&self, name: &str, args: &Vec<String>) -> (r: FsDecision)
        ensures
            name@ == "read"@ || name@ == "read_blob"@ ==> match r {
                FsDecision::ReadText(p) => name@ == "read"@ && args@.len() == 1
                    && p@ == args@[0]@ && self.admits(p@),
                FsDecision::ReadBlob(p) => name@ == "read_blob"@ && args@.len() == 1
                    && p@ == args@[0]@ && self.admits(p@),
                FsDecision::Denied => args@.len() == 1 && !self.admits(args@[0]@),
                FsDecision::InvalidArguments => args@.len() != 1,
                FsDecision::UnknownFunction => false,
            },
            !(name@ == "read"@ || name@ == "read_blob"@) ==> r is UnknownFunction,
    {
        let is_read = same_text(name, "read");
        let is_blob = same_text(name, "read_blob");
        if !is_read && !is_blob {
            return FsDecision::UnknownFunction;
        }
        if args.len() != 1 {
            return FsDecision::InvalidArguments;
        }
        let path = args[0].as_str();
        let inside = is_within_root(path, self.prefix_path.as_str()) || is_within_root(path, self.temp_dir.as_str());
        if !inside || has_parent_dir_segment(path) {
            return FsDecision::Denied;
        }
        if is_read {
            FsDecision::ReadText(path.to_owned())
        } else {
            FsDecision::ReadBlob(path.to_owned())
        }
    }
}

/// Package-import capability that resolves imports against this runner's
/// registry instead of a public one.
pub struct RPKG {
    pub base_path: String,
}

impl RPKG {
    /// Resolves imports under `registry_path`.
    pub fn new(registry_path: &str) -> (r: Self)
        ensures
            r.base_path@ == registry_path@,
    {
        RPKG { base_path: registry_path.to_owned() }
    }

    /// Where an imported package file is read from:
    /// `<base>/<path without its leading import prefixes>`.
    pub fn import_path(&self, full_path: &str) -> (r: String)
        ensures
            r@ == self.base_path@ + "/"@ + trim_leading(full_path@, IMPORT_PREFIX@),
    {
        self.base_path.clone().concat("/").concat(trim_start_all(full_path, IMPORT_PREFIX))
    }
}

} // verus!
