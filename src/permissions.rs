//! User records and the permission rules over them.

use vstd::prelude::*;
use crate::text::{first_path_segment, first_segment, same_text, strip_at};

verus! {

/// Bit of a permission mask that grants reading.
pub const READ_BIT: i64 = 1;
/// Bit of a permission mask that grants writing.
pub const WRITE_BIT: i64 = 2;
/// Bit of a permission mask that grants deleting.
pub const DELETE_BIT: i64 = 4;
/// Bit of a permission mask that grants executing.
pub const EXEC_BIT: i64 = 8;

/// A stored user: name, secret, permission mask and optional scope
/// (an empty scope means unrestricted).
pub struct User {
    pub username: String,
    pub password: String,
    pub perms: i64,
    pub scope: String,
}

/// Whether `perms` has `bit` set.
pub open spec fn has_bit(perms: i64, bit: i64) -> bool {
    perms & bit != 0
}

/// Whether a user with scope `scope` may modify the package at `path`.
pub open spec fn scope_allows(scope: Seq<char>, path: Seq<char>) -> bool {
    scope.len() == 0 || strip_at(first_segment(path)) == scope
}

/// Whether a user with the given mask and scope may write at `path`.
/// An empty path names no package and is not restricted by scope.
pub open spec fn write_allowed(perms: i64, scope: Seq<char>, path: Seq<char>) -> bool {
    has_bit(perms, WRITE_BIT) && (path.len() == 0 || scope_allows(scope, path))
}

/// Whether a user with the given mask and scope may delete at `path`.
pub open spec fn delete_allowed(perms: i64, scope: Seq<char>, path: Seq<char>) -> bool {
    has_bit(perms, DELETE_BIT) && (path.len() == 0 || scope_allows(scope, path))
}

/// `s` without one leading `@`.
pub fn strip_at_prefix(s: &str) -> (r: &str)
    ensures
        r@ == strip_at(s@),
{
    let n = s.unicode_len();
    if n > 0 && s.get_char(0) == '@' {
        let r = s.substring_char(1, n);
        assert(r@ =~= s@.drop_first());
        r
    } else {
        s
    }
}

impl User {
    /// Whether `password` is exactly this user's secret.
    pub fn authenticated(&self, password: &str) -> (r: bool)
        ensures
            r == (self.password@ == password@),
    {
        same_text(self.password.as_str(), password)
    }

    /// Read bit set?
    pub fn can_read(&self) -> (r: bool)
        ensures
            r == has_bit(self.perms, READ_BIT),
    {
        self.perms & READ_BIT != 0
    }

    /// Write bit set?
    pub fn can_write(&self) -> (r: bool)
        ensures
            r == has_bit(self.perms, WRITE_BIT),
    {
        self.perms & WRITE_BIT != 0
    }

    /// Delete bit set?
    pub fn can_delete(&self) -> (r: bool)
        ensures
            r == has_bit(self.perms, DELETE_BIT),
    {
        self.perms & DELETE_BIT != 0
    }

    /// Execute bit set?
    pub fn can_exec(&self) -> (r: bool)
        ensures
            r == has_bit(self.perms, EXEC_BIT),
    {
        self.perms & EXEC_BIT != 0
    }

    /// Whether this user's scope lets it modify the package at `path`:
    /// always when the scope is empty, else exactly when the path's first
    /// segment, without a leading `@`, equals the scope.
    pub fn can_modify_scope(&self, path: &str) -> (r: bool)
        ensures
            r == scope_allows(self.scope@, path@),
    {
        if self.scope.unicode_len() == 0 {
            return true;
        }
        let seg = strip_at_prefix(first_path_segment(path));
        same_text(seg, self.scope.as_str())
    }

    /// Write bit set and, for a non-empty path, the scope admits it.
    pub fn may_write(&self, path: &str) -> (r: bool)
        ensures
            r == write_allowed(self.perms, self.scope@, path@),
    {
        self.can_write() && (path.unicode_len() == 0 || self.can_modify_scope(path))
    }

    /// Delete bit set and, for a non-empty path, the scope admits it.
    pub fn may_delete(&self, path: &str) -> (r: bool)
        ensures
            r == delete_allowed(self.perms, self.scope@, path@),
    {
        self.can_delete() && (path.unicode_len() == 0 || self.can_modify_scope(path))
    }
}

/// A user whose mask lacks the write bit may write nowhere, whatever its scope.
pub proof fn lemma_no_write_bit_no_write(perms: i64, scope: Seq<char>, path: Seq<char>)
    requires
        !has_bit(perms, WRITE_BIT),
    ensures
        !write_allowed(perms, scope, path),
{
}

/// With a non-empty scope, modifying a path is allowed exactly when the
/// path's first segment, stripped of one leading `@`, equals the scope.
pub proof fn lemma_scope_matches_first_segment(scope: Seq<char>, path: Seq<char>)
    requires
        scope.len() > 0,
    ensures
        scope_allows(scope, path) <==> strip_at(first_segment(path)) == scope,
{
}

} // verus!
