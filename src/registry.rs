//! Package registry: path rules, the on-disk layout of the file-system
//! store, and an in-memory store with the same publish/delete/get rules.

use vstd::prelude::*;
use crate::config::{registry_path_of, RunnerConfig};
use crate::text::{has_slash, same_text};

verus! {

/// A package path names a namespace and a name: it has at least two
/// `/`-separated segments.
pub fn is_package_path(path: &str) -> (r: bool)
    ensures
        r == has_slash(path@),
{
    let n = path.unicode_len();
    let mut i: usize = 0;
    while i < n
        invariant
            n == path@.len(),
            i <= n,
            forall|j: int| 0 <= j < i ==> path@[j] != '/',
        decreases n - i,
    {
        if path.get_char(i) == '/' {
            return true;
        }
        i = i + 1;
    }
    false
}

/// `p` with every trailing `.pkg` removed.
pub open spec fn trim_pkg(p: Seq<char>) -> Seq<char>
    decreases p.len(),
{
    if p.len() >= 4 && p.subrange(p.len() - 4, p.len() as int) == ".pkg"@ {
        trim_pkg(p.subrange(0, p.len() - 4))
    } else {
        p
    }
}

/// Removes every trailing `.pkg` from a package path.
pub fn trim_pkg_suffix(path: &str) -> (r: &str)
    ensures
        r@ == trim_pkg(path@),
{
    let n = path.unicode_len();
    let mut end: usize = n;
    assert(path@.subrange(0, n as int) =~= path@);
    while end >= 4 && same_text(path.substring_char(end - 4, end), ".pkg")
        invariant
            n == path@.len(),
            end <= n,
            trim_pkg(path@) == trim_pkg(path@.subrange(0, end as int)),
        decreases end,
    {
        let ghost p = path@.subrange(0, end as int);
        assert(p.subrange(p.len() - 4, p.len() as int) =~= path@.subrange(end - 4, end as int));
        assert(p.subrange(0, p.len() - 4) =~= path@.subrange(0, end - 4));
        end = end - 4;
    }
    let ghost p = path@.subrange(0, end as int);
    assert(end >= 4 ==> p.subrange(p.len() - 4, p.len() as int) =~= path@.subrange(end - 4, end as int));
    path.substring_char(0, end)
}

/// The key a package is stored under.
pub open spec fn package_key(path: Seq<char>) -> Seq<char> {
    trim_pkg(path)
}

/// The packages of a registry: key to archive bytes.
pub type Packages = Map<Seq<char>, Seq<u8>>;

/// Every key has two segments and is its own package key.
pub open spec fn keys_canonical(m: Packages) -> bool {
    forall|k: Seq<char>| #[trigger] m.contains_key(k) ==> has_slash(k) && trim_pkg(k) == k
}

/// Trimming `.pkg` suffixes keeps every `/`.
pub proof fn lemma_trim_keeps_slash(p: Seq<char>)
    requires
        has_slash(p),
    ensures
        has_slash(trim_pkg(p)),
    decreases p.len(),
{
    if p.len() >= 4 && p.subrange(p.len() - 4, p.len() as int) == ".pkg"@ {
        let q = p.subrange(0, p.len() - 4);
        let i = choose|i: int| 0 <= i < p.len() && p[i] == '/';
        reveal_strlit(".pkg");
        if i >= p.len() - 4 {
            assert(p.subrange(p.len() - 4, p.len() as int)[i - (p.len() - 4)] == p[i]);
        }
        assert(q[i] == '/');
        lemma_trim_keeps_slash(q);
    }
}

/// Trimming twice is trimming once.
pub proof fn lemma_trim_idempotent(p: Seq<char>)
    ensures
        trim_pkg(trim_pkg(p)) == trim_pkg(p),
    decreases p.len(),
{
    if p.len() >= 4 && p.subrange(p.len() - 4, p.len() as int) == ".pkg"@ {
        lemma_trim_idempotent(p.subrange(0, p.len() - 4));
    }
}

/// Publishing `bytes` at `path`: refused for a path of one segment and for
/// an existing package without `overwrite`; else the archive is stored.
pub open spec fn publish_result(m: Packages, path: Seq<char>, overwrite: bool, bytes: Seq<u8>) -> (Packages, bool) {
    if !has_slash(path) {
        (m, false)
    } else if m.contains_key(package_key(path)) && !overwrite {
        (m, false)
    } else {
        (m.insert(package_key(path), bytes), true)
    }
}

/// Deleting `path`: removes an existing package, else changes nothing.
pub open spec fn delete_result(m: Packages, path: Seq<char>) -> (Packages, bool) {
    if has_slash(path) && m.contains_key(package_key(path)) {
        (m.remove(package_key(path)), true)
    } else {
        (m, false)
    }
}

/// Fetching `path`: the stored archive, or `None` (not found).
pub open spec fn get_result(m: Packages, path: Seq<char>) -> Option<Seq<u8>> {
    if has_slash(path) && m.contains_key(package_key(path)) {
        Some(m[package_key(path)])
    } else {
        None
    }
}

/// Whether a publish may write the archive, given whether one exists at
/// the package's archive path (`None` when that could not be determined).
pub fn should_write_archive(found: Option<bool>, overwrite: bool) -> (r: bool)
    ensures
        r == match found {
            Some(e) => overwrite || !e,
            None => false,
        },
{
    match found {
        Some(e) => overwrite || !e,
        None => false,
    }
}

/// Whether a delete may remove the package directory, given whether its
/// archive exists (`None` when that could not be determined).
pub fn should_remove_package(found: Option<bool>) -> (r: bool)
    ensures
        r == (found == Some(true)),
{
    match found {
        Some(e) => e,
        None => false,
    }
}

/// Registry kept in a directory tree: one directory per package, holding
/// the canonical archive and its unpacked contents.
pub struct SystemRegistry {
    /// Base registry path.
    pub base_path: String,
}

/// Name of the canonical archive inside a package directory.
pub const ARCHIVE_FILE: &'static str = "__pkg__.pkg";

impl SystemRegistry {
    /// A registry rooted at the configured registry path.
    pub fn new(config: &RunnerConfig) -> (r: Self)
        ensures
            r.base_path@ == registry_path_of(*config),
    {
        SystemRegistry { base_path: config.registry_path() }
    }

    /// Directory of the package at `path`: `<base>/<path without .pkg>`.
    pub fn package_dir(&self, path: &str) -> (r: String)
        ensures
            r@ == self.base_path@ + "/"@ + trim_pkg(path@),
    {
        self.base_path.clone().concat("/").concat(trim_pkg_suffix(path))
    }

    /// The canonical archive of the package at `path`.
    pub fn archive_path(&self, path: &str) -> (r: String)
        ensures
            r@ == self.base_path@ + "/"@ + trim_pkg(path@) + "/"@ + ARCHIVE_FILE@,
    {
        self.package_dir(path).concat("/").concat(ARCHIVE_FILE)
    }
}

/// Registry held in memory, with the same rules as the file-system one.
pub struct MemoryRegistry {
    entries: Vec<(String, Vec<u8>)>,
    packages: Ghost<Packages>,
}

impl View for MemoryRegistry {
    type V = Packages;

    closed spec fn view(&self) -> Packages {
        self.packages@
    }
}

impl MemoryRegistry {
    /// Keys are unique and the packages are exactly the entries held.
    pub closed spec fn wf(&self) -> bool {
        &&& forall|i: int, j: int|
            0 <= i < j < self.entries@.len() ==> self.entries@[i].0@ != self.entries@[j].0@
        &&& forall|i: int|
            0 <= i < self.entries@.len() ==> #[trigger] self.packages@.contains_key(self.entries@[i].0@)
                && self.packages@[self.entries@[i].0@] == self.entries@[i].1@
        &&& forall|k: Seq<char>|
            #[trigger] self.packages@.contains_key(k) ==> exists|i: int|
                0 <= i < self.entries@.len() && self.entries@[i].0@ == k
        &&& keys_canonical(self.packages@)
    }

    /// Every stored package is named by its own key, which has two segments,
    /// so fetching and deleting reach it.
    pub proof fn lemma_stored_keys_reachable(&self)
        requires
            self.wf(),
        ensures
            keys_canonical(self@),
            forall|k: Seq<char>| #[trigger] self@.contains_key(k) ==> get_result(self@, k) == Some(self@[k]),
    {
    }

    /// An empty registry.
    pub fn new() -> (r: Self)
        ensures
            r.wf(),
            r@ == Map::<Seq<char>, Seq<u8>>::empty(),
    {
        MemoryRegistry { entries: Vec::new(), packages: Ghost(Map::empty()) }
    }

    fn find(&self, key: &str) -> (r: Option<usize>)
        requires
            self.wf(),
        ensures
            match r {
                Some(i) => i < self.entries@.len() && self.entries@[i as int].0@ == key@
                    && self@.contains_key(key@) && self@[key@] == self.entries@[i as int].1@,
                None => !self@.contains_key(key@),
            },
    {
        let mut i: usize = 0;
        while i < self.entries.len()
            invariant
                self.wf(),
                i <= self.entries@.len(),
                forall|j: int| 0 <= j < i ==> self.entries@[j].0@ != key@,
            decreases self.entries@.len() - i,
        {
            if same_text(self.entries[i].0.as_str(), key) {
                assert(self.packages@.contains_key(self.entries@[i as int].0@));
                return Some(i);
            }
            i = i + 1;
        }
        None
    }

    fn remove_at(&mut self, i: usize)
        requires
            old(self).wf(),
            i < old(self).entries@.len(),
        ensures
            final(self).wf(),
            final(self)@ == old(self)@.remove(old(self).entries@[i as int].0@),
    {
        let ghost before = self.entries@;
        let ghost key = before[i as int].0@;
        let _ = self.entries.remove(i);
        proof {
            self.packages@ = self.packages@.remove(key);
            assert forall|j: int| 0 <= j < self.entries@.len() implies
                #[trigger] self.packages@.contains_key(self.entries@[j].0@)
                && self.packages@[self.entries@[j].0@] == self.entries@[j].1@ by {
                if j < i {
                    assert(self.entries@[j] == before[j]);
                } else {
                    assert(self.entries@[j] == before[j + 1]);
                }
            }
            assert forall|k: Seq<char>| #[trigger] self.packages@.contains_key(k) implies exists|j: int|
                0 <= j < self.entries@.len() && self.entries@[j].0@ == k by {
                let j = choose|j: int| 0 <= j < before.len() && before[j].0@ == k;
                if j < i {
                    assert(self.entries@[j] == before[j]);
                } else {
                    assert(j != i);
                    assert(self.entries@[j - 1] == before[j]);
                }
            }
        }
    }

    fn insert_new(&mut self, key: String, bytes: Vec<u8>)
        requires
            old(self).wf(),
            !old(self)@.contains_key(key@),
            has_slash(key@),
            trim_pkg(key@) == key@,
        ensures
            final(self).wf(),
            final(self)@ == old(self)@.insert(key@, bytes@),
    {
        let ghost before = self.entries@;
        let ghost k0 = key@;
        let ghost b0 = bytes@;
        proof {
            assert forall|i: int| 0 <= i < before.len() implies before[i].0@ != k0 by {
                assert(self.packages@.contains_key(before[i].0@));
            }
        }
        self.entries.push((key, bytes));
        proof {
            self.packages@ = self.packages@.insert(k0, b0);
            assert forall|i: int, j: int| 0 <= i < j < self.entries@.len() implies
                self.entries@[i].0@ != self.entries@[j].0@ by {
                assert(self.entries@[i] == before[i]);
                if j < before.len() {
                    assert(self.entries@[j] == before[j]);
                }
            }
            assert forall|i: int| 0 <= i < self.entries@.len() implies
                #[trigger] self.packages@.contains_key(self.entries@[i].0@)
                && self.packages@[self.entries@[i].0@] == self.entries@[i].1@ by {
                if i < before.len() {
                    assert(self.entries@[i] == before[i]);
                }
            }
            assert forall|k: Seq<char>| #[trigger] self.packages@.contains_key(k) implies exists|i: int|
                0 <= i < self.entries@.len() && self.entries@[i].0@ == k by {
                if k == k0 {
                    assert(self.entries@[before.len() as int].0@ == k);
                } else {
                    let i = choose|i: int| 0 <= i < before.len() && before[i].0@ == k;
                    assert(self.entries@[i] == before[i]);
                }
            }
        }
    }

    /// Publishes `bytes` at `path`. Refused (false, nothing changed) for a
    /// path of one segment, and for an existing package unless `overwrite`.
    pub fn publish(&mut self, path: &str, overwrite: bool, bytes: Vec<u8>) -> (r: bool)
        requires
            old(self).wf(),
        ensures
            final(self).wf(),
            (final(self)@, r) == publish_result(old(self)@, path@, overwrite, bytes@),
    {
        if !is_package_path(path) {
            return false;
        }
        let key = trim_pkg_suffix(path);
        match self.find(key) {
            Some(i) => {
                if !overwrite {
                    return false;
                }
                self.remove_at(i);
            },
            None => {},
        }
        proof {
            lemma_trim_keeps_slash(path@);
            lemma_trim_idempotent(path@);
        }
        self.insert_new(key.to_owned(), bytes);
        proof {
            assert(self@ =~= old(self)@.insert(key@, bytes@));
        }
        true
    }

    /// Deletes the package at `path`; false, changing nothing, when there
    /// is none.
    pub fn delete(&mut self, path: &str) -> (r: bool)
        requires
            old(self).wf(),
        ensures
            final(self).wf(),
            (final(self)@, r) == delete_result(old(self)@, path@),
    {
        if !is_package_path(path) {
            return false;
        }
        let key = trim_pkg_suffix(path);
        match self.find(key) {
            Some(i) => {
                self.remove_at(i);
                true
            },
            None => false,
        }
    }

    /// The archive stored at `path`, or `None` (not found).
    pub fn get(&self, path: &str) -> (r: Option<Vec<u8>>)
        requires
            self.wf(),
        ensures
            match r {
                Some(b) => get_result(self@, path@) == Some(b@),
                None => get_result(self@, path@) is None,
            },
    {
        if !is_package_path(path) {
            return None;
        }
        let key = trim_pkg_suffix(path);
        match self.find(key) {
            Some(i) => Some(self.entries[i].1.clone()),
            None => None,
        }
    }
}

/// Publishing the same archive twice with overwrite on succeeds both times
/// and leaves the same packages as publishing it once.
pub proof fn lemma_publish_overwrite_idempotent(m: Packages, path: Seq<char>, bytes: Seq<u8>)
    requires
        has_slash(path),
    ensures
        publish_result(m, path, true, bytes).1,
        publish_result(publish_result(m, path, true, bytes).0, path, true, bytes).1,
        publish_result(publish_result(m, path, true, bytes).0, path, true, bytes).0
            == publish_result(m, path, true, bytes).0,
        get_result(publish_result(m, path, true, bytes).0, path) == Some(bytes),
{
    let m1 = m.insert(package_key(path), bytes);
    assert(m1.insert(package_key(path), bytes) =~= m1);
}

/// Publishing without overwrite over an existing package is refused and
/// leaves its archive exactly as it was.
pub proof fn lemma_publish_no_overwrite_keeps(m: Packages, path: Seq<char>, bytes: Seq<u8>)
    requires
        get_result(m, path) is Some,
    ensures
        publish_result(m, path, false, bytes) == (m, false),
        get_result(publish_result(m, path, false, bytes).0, path) == get_result(m, path),
{
}

/// Deleting a missing package is refused and changes nothing; deleting an
/// existing one succeeds, and a later fetch finds nothing.
pub proof fn lemma_delete(m: Packages, path: Seq<char>)
    ensures
        get_result(m, path) is None ==> delete_result(m, path) == (m, false),
        get_result(m, path) is Some ==> delete_result(m, path).1
            && get_result(delete_result(m, path).0, path) is None,
{
}

} // verus!
