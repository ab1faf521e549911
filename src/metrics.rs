//! Usage counters with debounced persistence.

use vstd::prelude::*;
use crate::text::same_text;

verus! {

/// Minimum time between two snapshots of the counters: ten minutes, in
/// milliseconds.
pub const PERSIST_INTERVAL_MS: u64 = 600_000;

/// `x + 1`, held at the largest value.
pub open spec fn bump(x: i64) -> i64 {
    if x < i64::MAX {
        (x + 1) as i64
    } else {
        x
    }
}

/// `x - 1`, but never below zero.
pub open spec fn drop_one(x: i64) -> i64 {
    if x > 0 {
        (x - 1) as i64
    } else {
        x
    }
}

/// Whether a snapshot is due at `now` when the last one was taken at `last`:
/// strictly more than the interval has passed.
pub open spec fn persist_due(now: u64, last: u64) -> bool {
    now > last && now - last > PERSIST_INTERVAL_MS
}

/// Run, package and download counters, and when they were last persisted.
pub struct MetricsCounters {
    run_count: i64,
    package_count: i64,
    download_total: i64,
    downloads: Vec<(String, i64)>,
    per_package: Ghost<Map<Seq<char>, i64>>,
    last_persisted_ms: u64,
}

fn bump_exec(x: i64) -> (r: i64)
    ensures
        r == bump(x),
{
    if x < i64::MAX {
        x + 1
    } else {
        x
    }
}

/// Decides whether a snapshot is due at `now`.
pub fn snapshot_due(now: u64, last: u64) -> (r: bool)
    ensures
        r == persist_due(now, last),
{
    now > last && now - last > PERSIST_INTERVAL_MS
}

impl MetricsCounters {
    /// Number of runs.
    pub closed spec fn runs(&self) -> i64 {
        self.run_count
    }

    /// Number of packages.
    pub closed spec fn packages(&self) -> i64 {
        self.package_count
    }

    /// Number of downloads over all packages.
    pub closed spec fn total_downloads(&self) -> i64 {
        self.download_total
    }

    /// Downloads per package path.
    pub closed spec fn downloads(&self) -> Map<Seq<char>, i64> {
        self.per_package@
    }

    /// When the counters were last persisted, in milliseconds.
    pub closed spec fn last_persisted(&self) -> u64 {
        self.last_persisted_ms
    }

    /// Downloads of one package; zero when it has none recorded.
    pub open spec fn downloads_of(&self, package: Seq<char>) -> i64 {
        if self.downloads().contains_key(package) {
            self.downloads()[package]
        } else {
            0
        }
    }

    /// Package paths are unique and the per-package map is exactly the
    /// entries held.
    pub closed spec fn wf(&self) -> bool {
        &&& forall|i: int, j: int|
            0 <= i < j < self.downloads@.len() ==> self.downloads@[i].0@ != self.downloads@[j].0@
        &&& forall|i: int|
            0 <= i < self.downloads@.len() ==> #[trigger] self.per_package@.contains_key(self.downloads@[i].0@)
                && self.per_package@[self.downloads@[i].0@] == self.downloads@[i].1
        &&& forall|k: Seq<char>|
            #[trigger] self.per_package@.contains_key(k) ==> exists|i: int|
                0 <= i < self.downloads@.len() && self.downloads@[i].0@ == k
    }

    /// All counters at zero, last persisted at `now`.
    pub fn new(now: u64) -> (r: Self)
        ensures
            r.wf(),
            r.runs() == 0,
            r.packages() == 0,
            r.total_downloads() == 0,
            r.downloads() == Map::<Seq<char>, i64>::empty(),
            r.last_persisted() == now,
    {
        MetricsCounters {
            run_count: 0,
            package_count: 0,
            download_total: 0,
            downloads: Vec::new(),
            per_package: Ghost(Map::empty()),
            last_persisted_ms: now,
        }
    }

    /// Counters restored from a snapshot, with no per-package downloads yet.
    pub fn restored(runs: i64, packages: i64, total_downloads: i64, now: u64) -> (r: Self)
        ensures
            r.wf(),
            r.runs() == runs,
            r.packages() == packages,
            r.total_downloads() == total_downloads,
            r.downloads() == Map::<Seq<char>, i64>::empty(),
            r.last_persisted() == now,
    {
        MetricsCounters {
            run_count: runs,
            package_count: packages,
            download_total: total_downloads,
            downloads: Vec::new(),
            per_package: Ghost(Map::empty()),
            last_persisted_ms: now,
        }
    }

    /// Number of runs.
    pub fn server_run_count(&self) -> (r: i64)
        ensures
            r == self.runs(),
    {
        self.run_count
    }

    /// Number of packages.
    pub fn registry_packages_count(&self) -> (r: i64)
        ensures
            r == self.packages(),
    {
        self.package_count
    }

    /// Number of downloads over all packages.
    pub fn registry_downloads_total_count(&self) -> (r: i64)
        ensures
            r == self.total_downloads(),
    {
        self.download_total
    }

    /// When the counters were last persisted.
    pub fn last_persisted_at(&self) -> (r: u64)
        ensures
            r == self.last_persisted(),
    {
        self.last_persisted_ms
    }

    /// The per-package download counts, for writing a snapshot.
    pub fn download_entries(&self) -> (r: &Vec<(String, i64)>)
        requires
            self.wf(),
        ensures
            forall|i: int| 0 <= i < r@.len() ==> #[trigger] self.downloads().contains_key(r@[i].0@)
                && self.downloads()[r@[i].0@] == r@[i].1,
            forall|k: Seq<char>| #[trigger] self.downloads().contains_key(k) ==> exists|i: int|
                0 <= i < r@.len() && r@[i].0@ == k,
    {
        proof {
            assert forall|i: int| 0 <= i < self.downloads@.len() implies #[trigger] self.downloads().contains_key(self.downloads@[i].0@)
                && self.downloads()[self.downloads@[i].0@] == self.downloads@[i].1 by {
                assert(self.per_package@.contains_key(self.downloads@[i].0@));
            }
        }
        &self.downloads
    }

    fn find(&self, package: &str) -> (r: Option<usize>)
        requires
            self.wf(),
        ensures
            match r {
                Some(i) => i < self.downloads@.len() && self.downloads@[i as int].0@ == package@
                    && self.downloads().contains_key(package@)
                    && self.downloads()[package@] == self.downloads@[i as int].1,
                None => !self.downloads().contains_key(package@),
            },
    {
        let mut i: usize = 0;
        while i < self.downloads.len()
            invariant
                self.wf(),
                i <= self.downloads@.len(),
                forall|j: int| 0 <= j < i ==> self.downloads@[j].0@ != package@,
            decreases self.downloads@.len() - i,
        {
            if same_text(self.downloads[i].0.as_str(), package) {
                assert(self.per_package@.contains_key(self.downloads@[i as int].0@));
                return Some(i);
            }
            i = i + 1;
        }
        None
    }

    /// Downloads of one package; zero when it has none recorded.
    pub fn registry_downloads_count(&self, package: &str) -> (r: i64)
        requires
            self.wf(),
        ensures
            r == self.downloads_of(package@),
    {
        match self.find(package) {
            Some(i) => self.downloads[i].1,
            None => 0,
        }
    }

    /// Sets the recorded downloads of one package, leaving the total alone.
    pub fn restore_downloads(&mut self, package: &str, count: i64)
        requires
            old(self).wf(),
        ensures
            final(self).wf(),
            final(self).downloads() == old(self).downloads().insert(package@, count),
            final(self).runs() == old(self).runs(),
            final(self).packages() == old(self).packages(),
            final(self).total_downloads() == old(self).total_downloads(),
            final(self).last_persisted() == old(self).last_persisted(),
    {
        match self.find(package) {
            Some(i) => {
                let ghost before = self.downloads@;
                let name = self.downloads[i].0.clone();
                self.downloads.set(i, (name, count));
                proof {
                    self.per_package@ = self.per_package@.insert(package@, count);
                    assert forall|a: int, b: int| 0 <= a < b < self.downloads@.len() implies
                        self.downloads@[a].0@ != self.downloads@[b].0@ by {
                        assert(self.downloads@[a].0@ == before[a].0@);
                        assert(self.downloads@[b].0@ == before[b].0@);
                    }
                    assert forall|j: int| 0 <= j < self.downloads@.len() implies
                        #[trigger] self.per_package@.contains_key(self.downloads@[j].0@)
                        && self.per_package@[self.downloads@[j].0@] == self.downloads@[j].1 by {
                        if j != i {
                            assert(self.downloads@[j] == before[j]);
                            assert(old(self).per_package@.contains_key(before[j].0@));
                            if j < i {
                                assert(before[j].0@ != before[i as int].0@);
                            } else {
                                assert(before[i as int].0@ != before[j].0@);
                            }
                        } else {
                            assert(self.downloads@[j].0@ == package@);
                            assert(self.downloads@[j].1 == count);
                        }
                    }
                    assert forall|k: Seq<char>| #[trigger] self.per_package@.contains_key(k) implies exists|j: int|
                        0 <= j < self.downloads@.len() && self.downloads@[j].0@ == k by {
                        if k == package@ {
                            assert(self.downloads@[i as int].0@ == k);
                        } else {
                            let j = choose|j: int| 0 <= j < before.len() && before[j].0@ == k;
                            assert(self.downloads@[j].0@ == before[j].0@);
                        }
                    }
                }
            },
            None => {
                let ghost before = self.downloads@;
                proof {
                    assert forall|j: int| 0 <= j < before.len() implies before[j].0@ != package@ by {
                        assert(self.per_package@.contains_key(before[j].0@));
                    }
                }
                self.downloads.push((package.to_owned(), count));
                proof {
                    self.per_package@ = self.per_package@.insert(package@, count);
                    assert forall|a: int, b: int| 0 <= a < b < self.downloads@.len() implies
                        self.downloads@[a].0@ != self.downloads@[b].0@ by {
                        assert(self.downloads@[a] == before[a]);
                        if b < before.len() {
                            assert(self.downloads@[b] == before[b]);
                        }
                    }
                    assert forall|j: int| 0 <= j < self.downloads@.len() implies
                        #[trigger] self.per_package@.contains_key(self.downloads@[j].0@)
                        && self.per_package@[self.downloads@[j].0@] == self.downloads@[j].1 by {
                        if j < before.len() {
                            assert(self.downloads@[j] == before[j]);
                        }
                    }
                    assert forall|k: Seq<char>| #[trigger] self.per_package@.contains_key(k) implies exists|j: int|
                        0 <= j < self.downloads@.len() && self.downloads@[j].0@ == k by {
                        if k == package@ {
                            assert(self.downloads@[before.len() as int].0@ == k);
                        } else {
                            let j = choose|j: int| 0 <= j < before.len() && before[j].0@ == k;
                            assert(self.downloads@[j] == before[j]);
                        }
                    }
                }
            },
        }
    }

    proof fn lemma_wf_kept(a: &Self, b: &Self)
        requires
            a.wf(),
            a.downloads == b.downloads,
            a.per_package == b.per_package,
        ensures
            b.wf(),
    {
    }

    /// Takes a snapshot decision at `now`: when one is due, records `now`
    /// as the time of the last snapshot and returns true.
    fn try_persist(&mut self, now: u64) -> (r: bool)
        requires
            old(self).wf(),
        ensures
            final(self).wf(),
            r == persist_due(now, old(self).last_persisted()),
            final(self).last_persisted() == if r { now } else { old(self).last_persisted() },
            final(self).runs() == old(self).runs(),
            final(self).packages() == old(self).packages(),
            final(self).total_downloads() == old(self).total_downloads(),
            final(self).downloads() == old(self).downloads(),
    {
        if snapshot_due(now, self.last_persisted_ms) {
            self.last_persisted_ms = now;
            proof { Self::lemma_wf_kept(&*old(self), &*self); }
            true
        } else {
            false
        }
    }

    /// Counts one run. Returns whether a snapshot is due (and then takes
    /// `now` as the time of the last snapshot).
    pub fn increment_server_run_count(&mut self, now: u64) -> (r: bool)
        requires
            old(self).wf(),
        ensures
            final(self).wf(),
            final(self).runs() == bump(old(self).runs()),
            final(self).packages() == old(self).packages(),
            final(self).total_downloads() == old(self).total_downloads(),
            final(self).downloads() == old(self).downloads(),
            r == persist_due(now, old(self).last_persisted()),
            final(self).last_persisted() == if r { now } else { old(self).last_persisted() },
    {
        self.run_count = bump_exec(self.run_count);
        proof { Self::lemma_wf_kept(&*old(self), &*self); }
        self.try_persist(now)
    }

    /// Counts one published package. Returns whether a snapshot is due.
    pub fn registry_packages_increment_count(&mut self, now: u64) -> (r: bool)
        requires
            old(self).wf(),
        ensures
            final(self).wf(),
            final(self).packages() == bump(old(self).packages()),
            final(self).runs() == old(self).runs(),
            final(self).total_downloads() == old(self).total_downloads(),
            final(self).downloads() == old(self).downloads(),
            r == persist_due(now, old(self).last_persisted()),
            final(self).last_persisted() == if r { now } else { old(self).last_persisted() },
    {
        self.package_count = bump_exec(self.package_count);
        proof { Self::lemma_wf_kept(&*old(self), &*self); }
        self.try_persist(now)
    }

    /// Counts one deleted package; the count never drops below zero.
    /// Returns whether a snapshot is due.
    pub fn registry_packages_deincrement_count(&mut self, now: u64) -> (r: bool)
        requires
            old(self).wf(),
        ensures
            final(self).wf(),
            final(self).packages() == drop_one(old(self).packages()),
            final(self).runs() == old(self).runs(),
            final(self).total_downloads() == old(self).total_downloads(),
            final(self).downloads() == old(self).downloads(),
            r == persist_due(now, old(self).last_persisted()),
            final(self).last_persisted() == if r { now } else { old(self).last_persisted() },
    {
        if self.package_count > 0 {
            self.package_count = self.package_count - 1;
        }
        proof { Self::lemma_wf_kept(&*old(self), &*self); }
        self.try_persist(now)
    }

    /// Counts one download of `package`, in its own count and in the total.
    /// Returns whether a snapshot is due.
    pub fn registry_downloads_increment_count(&mut self, package: &str, now: u64) -> (r: bool)
        requires
            old(self).wf(),
        ensures
            final(self).wf(),
            final(self).total_downloads() == bump(old(self).total_downloads()),
            final(self).downloads() == old(self).downloads().insert(package@, bump(old(self).downloads_of(package@))),
            final(self).runs() == old(self).runs(),
            final(self).packages() == old(self).packages(),
            r == persist_due(now, old(self).last_persisted()),
            final(self).last_persisted() == if r { now } else { old(self).last_persisted() },
    {
        self.download_total = bump_exec(self.download_total);
        proof { Self::lemma_wf_kept(&*old(self), &*self); }
        let current = self.registry_downloads_count(package);
        self.restore_downloads(package, bump_exec(current));
        self.try_persist(now)
    }
}

} // verus!
