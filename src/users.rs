//! The credential store: user records keyed by username.

use vstd::prelude::*;
use crate::permissions::{
    User, has_bit, write_allowed, delete_allowed, READ_BIT, EXEC_BIT,
};
use crate::text::same_text;

verus! {

/// What the store keeps of one user: secret, permission mask, scope.
pub type UserRecord = (Seq<char>, i64, Seq<char>);

/// The record that `u` stands for.
pub open spec fn record_of(u: User) -> UserRecord {
    (u.password@, u.perms, u.scope@)
}

/// Users keyed by name; at most one record per name.
pub struct CredentialStore {
    users: Vec<User>,
    records: Ghost<Map<Seq<char>, UserRecord>>,
}

/// Whether `m` authenticates `name` with `password`.
pub open spec fn authenticates(m: Map<Seq<char>, UserRecord>, name: Seq<char>, password: Seq<char>) -> bool {
    m.contains_key(name) && m[name].0 == password
}

impl View for CredentialStore {
    type V = Map<Seq<char>, UserRecord>;

    closed spec fn view(&self) -> Map<Seq<char>, UserRecord> {
        self.records@
    }
}

impl CredentialStore {
    /// Names are unique and the records are exactly those of the users held.
    pub closed spec fn wf(&self) -> bool {
        &&& forall|i: int, j: int|
            0 <= i < j < self.users@.len() ==> self.users@[i].username@ != self.users@[j].username@
        &&& forall|i: int|
            0 <= i < self.users@.len() ==> #[trigger] self.records@.contains_key(self.users@[i].username@)
                && self.records@[self.users@[i].username@] == record_of(self.users@[i])
        &&& forall|k: Seq<char>|
            #[trigger] self.records@.contains_key(k) ==> exists|i: int|
                0 <= i < self.users@.len() && self.users@[i].username@ == k
    }

    /// An empty store.
    pub fn new() -> (r: Self)
        ensures
            r.wf(),
            r@ == Map::<Seq<char>, UserRecord>::empty(),
    {
        CredentialStore { users: Vec::new(), records: Ghost(Map::empty()) }
    }

    /// Number of users held.
    pub fn len(&self) -> (r: usize)
        requires
            self.wf(),
        ensures
            r == self@.dom().len(),
    {
        proof { self.lemma_dom_len(); }
        self.users.len()
    }

    proof fn lemma_dom_len(&self)
        requires
            self.wf(),
        ensures
            self@.dom().finite(),
            self@.dom().len() == self.users@.len(),
    {
        let names = self.users@.map_values(|u: User| u.username@);
        assert(names.no_duplicates()) by {
            assert forall|i: int, j: int| 0 <= i < names.len() && 0 <= j < names.len() && i != j
                implies names[i] != names[j] by {
                if j < i {
                    assert(self.users@[j].username@ != self.users@[i].username@);
                }
            }
        }
        assert(self@.dom() =~= names.to_set()) by {
            assert forall|k: Seq<char>| self@.dom().contains(k) implies names.to_set().contains(k) by {
                let i = choose|i: int| 0 <= i < self.users@.len() && self.users@[i].username@ == k;
                assert(names[i] == k);
            }
            assert forall|k: Seq<char>| names.to_set().contains(k) implies self@.dom().contains(k) by {
                let i = choose|i: int| 0 <= i < names.len() && names[i] == k;
                assert(self.records@.contains_key(self.users@[i].username@));
            }
        }
        names.unique_seq_to_set();
    }

    /// Index of the user named `name`, if any.
    fn find(&self, name: &str) -> (r: Option<usize>)
        requires
            self.wf(),
        ensures
            match r {
                Some(i) => i < self.users@.len() && self.users@[i as int].username@ == name@,
                None => !self@.contains_key(name@),
            },
    {
        let mut i: usize = 0;
        while i < self.users.len()
            invariant
                self.wf(),
                i <= self.users@.len(),
                forall|j: int| 0 <= j < i ==> self.users@[j].username@ != name@,
            decreases self.users@.len() - i,
        {
            if same_text(self.users[i].username.as_str(), name) {
                return Some(i);
            }
            i = i + 1;
        }
        None
    }

    /// The user named `username`, if its secret is exactly `password`.
    pub fn authenticate(&self, username: &str, password: &str) -> (r: Option<&User>)
        requires
            self.wf(),
        ensures
            r is Some <==> authenticates(self@, username@, password@),
            r matches Some(u) ==> u.username@ == username@ && record_of(*u) == self@[username@],
    {
        match self.find(username) {
            Some(i) => {
                let u = &self.users[i];
                assert(self.records@.contains_key(self.users@[i as int].username@));
                if u.authenticated(password) {
                    Some(u)
                } else {
                    None
                }
            },
            None => None,
        }
    }

    /// Creates or replaces the user named `username`. Always succeeds.
    pub fn set_user(&mut self, username: String, password: String, perms: i64, scope: String) -> (r: bool)
        requires
            old(self).wf(),
        ensures
            r,
            final(self).wf(),
            final(self)@ == old(self)@.insert(username@, (password@, perms, scope@)),
    {
        self.delete_user(username.as_str());
        let ghost name = username@;
        let ghost rec: UserRecord = (password@, perms, scope@);
        let ghost before = self.users@;
        let u = User { username, password, perms, scope };
        self.users.push(u);
        proof {
            assert forall|i: int| 0 <= i < before.len() implies before[i].username@ != name by {
                assert(self.records@.contains_key(before[i].username@));
            }
            self.records@ = self.records@.insert(name, rec);
            assert(self.users@[before.len() as int] == u);
            assert forall|i: int, j: int| 0 <= i < j < self.users@.len() implies
                self.users@[i].username@ != self.users@[j].username@ by {
                if j < before.len() {
                    assert(self.users@[i] == before[i]);
                    assert(self.users@[j] == before[j]);
                } else {
                    assert(self.users@[i] == before[i]);
                }
            }
            assert forall|i: int| 0 <= i < self.users@.len() implies
                #[trigger] self.records@.contains_key(self.users@[i].username@)
                && self.records@[self.users@[i].username@] == record_of(self.users@[i]) by {
                if i < before.len() {
                    assert(self.users@[i] == before[i]);
                }
            }
            assert forall|k: Seq<char>| #[trigger] self.records@.contains_key(k) implies exists|i: int|
                0 <= i < self.users@.len() && self.users@[i].username@ == k by {
                if k == name {
                    assert(self.users@[before.len() as int].username@ == k);
                } else {
                    let i = choose|i: int| 0 <= i < before.len() && before[i].username@ == k;
                    assert(self.users@[i] == before[i]);
                }
            }
        }
        true
    }

    /// Removes the user named `username`; true when there was one.
    pub fn delete_user(&mut self, username: &str) -> (r: bool)
        requires
            old(self).wf(),
        ensures
            r == old(self)@.contains_key(username@),
            final(self).wf(),
            final(self)@ == old(self)@.remove(username@),
    {
        match self.find(username) {
            Some(i) => {
                let ghost before = self.users@;
                let _ = self.users.remove(i);
                proof {
                    self.records@ = self.records@.remove(username@);
                    assert forall|j: int| 0 <= j < self.users@.len() implies
                        #[trigger] self.records@.contains_key(self.users@[j].username@)
                        && self.records@[self.users@[j].username@] == record_of(self.users@[j]) by {
                        if j < i {
                            assert(self.users@[j] == before[j]);
                            assert(old(self).records@.contains_key(before[j].username@));
                            assert(before[j].username@ != before[i as int].username@);
                        } else {
                            assert(self.users@[j] == before[j + 1]);
                            assert(old(self).records@.contains_key(before[j + 1].username@));
                            assert(before[i as int].username@ != before[j + 1].username@);
                        }
                    }
                    assert forall|k: Seq<char>| #[trigger] self.records@.contains_key(k) implies exists|j: int|
                        0 <= j < self.users@.len() && self.users@[j].username@ == k by {
                        let j = choose|j: int| 0 <= j < before.len() && before[j].username@ == k;
                        if j < i {
                            assert(self.users@[j] == before[j]);
                        } else {
                            assert(j != i);
                            assert(self.users@[j - 1] == before[j]);
                        }
                    }
                }
                true
            },
            None => {
                assert(self.records@.remove(username@) =~= self.records@);
                false
            },
        }
    }

    /// The users held, for writing a snapshot.
    pub fn users(&self) -> (r: &Vec<User>)
        requires
            self.wf(),
        ensures
            forall|i: int| 0 <= i < r@.len() ==> #[trigger] self@.contains_key(r@[i].username@)
                && self@[r@[i].username@] == record_of(r@[i]),
            forall|i: int, j: int| 0 <= i < j < r@.len() ==> r@[i].username@ != r@[j].username@,
            forall|k: Seq<char>| #[trigger] self@.contains_key(k) ==> exists|i: int|
                0 <= i < r@.len() && r@[i].username@ == k,
            r@.len() == self@.dom().len(),
    {
        proof {
            self.lemma_dom_len();
            assert(self@ == self.records@);
            assert forall|i: int| 0 <= i < self.users@.len() implies #[trigger] self@.contains_key(self.users@[i].username@)
                && self@[self.users@[i].username@] == record_of(self.users@[i]) by {
                assert(self.records@.contains_key(self.users@[i].username@));
            }
        }
        &self.users
    }

    /// Applies a user update read from a request body: it takes effect only
    /// when the name, the secret and the permission mask are all present; a
    /// missing scope is empty. Returns whether it took effect.
    pub fn apply_update(
        &mut self,
        username: Option<String>,
        password: Option<String>,
        perms: Option<i64>,
        scope: Option<String>,
    ) -> (r: bool)
        requires
            old(self).wf(),
        ensures
            final(self).wf(),
            r == (username is Some && password is Some && perms is Some),
            r ==> final(self)@ == old(self)@.insert(
                username->0@,
                (password->0@, perms->0, match scope {
                    Some(s) => s@,
                    None => Seq::<char>::empty(),
                }),
            ),
            !r ==> final(self)@ == old(self)@,
    {
        match (username, password, perms) {
            (Some(u), Some(p), Some(bits)) => {
                let s = match scope {
                    Some(s) => s,
                    None => String::new(),
                };
                self.set_user(u, p, bits, s)
            },
            _ => false,
        }
    }

    /// Does `username` authenticate with `password` and hold the read bit?
    pub fn can_read(&self, username: &str, password: &str) -> (r: bool)
        requires
            self.wf(),
        ensures
            r == (authenticates(self@, username@, password@) && has_bit(self@[username@].1, READ_BIT)),
    {
        match self.authenticate(username, password) {
            Some(u) => u.can_read(),
            None => false,
        }
    }

    /// Does `username` authenticate with `password`, hold the write bit, and
    /// have a scope that admits `path`?
    pub fn can_write(&self, username: &str, password: &str, path: &str) -> (r: bool)
        requires
            self.wf(),
        ensures
            r == (authenticates(self@, username@, password@)
                && write_allowed(self@[username@].1, self@[username@].2, path@)),
    {
        match self.authenticate(username, password) {
            Some(u) => u.may_write(path),
            None => false,
        }
    }

    /// Does `username` authenticate with `password`, hold the delete bit, and
    /// have a scope that admits `path`?
    pub fn can_delete(&self, username: &str, password: &str, path: &str) -> (r: bool)
        requires
            self.wf(),
        ensures
            r == (authenticates(self@, username@, password@)
                && delete_allowed(self@[username@].1, self@[username@].2, path@)),
    {
        match self.authenticate(username, password) {
            Some(u) => u.may_delete(path),
            None => false,
        }
    }

    /// Does `username` authenticate with `password` and hold the execute bit?
    pub fn can_exec(&self, username: &str, password: &str) -> (r: bool)
        requires
            self.wf(),
        ensures
            r == (authenticates(self@, username@, password@) && has_bit(self@[username@].1, EXEC_BIT)),
    {
        match self.authenticate(username, password) {
            Some(u) => u.can_exec(),
            None => false,
        }
    }
}

} // verus!
