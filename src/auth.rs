//! Authorization: one allow/deny decision per request.

use vstd::prelude::*;
use crate::config::{admin_of, unauth_allows, RunnerConfig};
use crate::permissions::{delete_allowed, has_bit, write_allowed, READ_BIT, WRITE_BIT, DELETE_BIT, EXEC_BIT};
use crate::text::same_text;
use crate::users::{authenticates, CredentialStore, UserRecord};

verus! {

/// The classes of protected operations.
#[derive(Clone, Copy, Debug, PartialEq, Eq, Structural)]
pub enum Operation {
    Read,
    Write,
    Delete,
    Execute,
    Admin,
}

/// A name and secret taken from a request's Basic authorization header.
pub struct Credential {
    pub identity: String,
    pub secret: String,
}

/// The name and secret that a Basic authorization header carries, or
/// `None` when the header is not a well-formed Basic header.
pub uninterp spec fn basic_credentials(header: Seq<char>) -> Option<(Seq<char>, Seq<char>)>;

/// Relies on `http_auth_basic::Credentials::from_header`: it splits the
/// header at its first space, takes the scheme `Basic` in any case, decodes
/// the base64 token and splits it at its first `:`. The result depends on the
/// header alone, and a header without a space is refused.
#[verifier::external_body]
fn decode_basic_header(header: &str) -> (r: Option<(String, String)>)
    ensures
        match r {
            Some((u, p)) => basic_credentials(header@) == Some((u@, p@)),
            None => basic_credentials(header@) is None,
        },
        !header@.contains(' ') ==> r is None,
{
    match http_auth_basic::Credentials::from_header(header.to_string()) {
        Ok(c) => Some((c.user_id, c.password)),
        Err(_) => None,
    }
}

/// The credential of a request whose authorization header is `header`:
/// absent and malformed headers both give `None`.
pub open spec fn credential_of(header: Option<Seq<char>>) -> Option<(Seq<char>, Seq<char>)> {
    match header {
        Some(h) => basic_credentials(h),
        None => None,
    }
}

/// The text of an optional header.
pub open spec fn header_view(header: Option<&str>) -> Option<Seq<char>> {
    match header {
        Some(h) => Some(h@),
        None => None,
    }
}

/// The name and secret of an optional credential.
pub open spec fn cred_view(cred: Option<&Credential>) -> Option<(Seq<char>, Seq<char>)> {
    match cred {
        Some(c) => Some((c.identity@, c.secret@)),
        None => None,
    }
}

/// Reads the credential out of an authorization header. A missing or
/// malformed header is no credential at all.
pub fn credential_from_header(header: Option<&str>) -> (r: Option<Credential>)
    ensures
        match r {
            Some(c) => credential_of(header_view(header)) == Some((c.identity@, c.secret@)),
            None => credential_of(header_view(header)) is None,
        },
{
    match header {
        Some(h) => match decode_basic_header(h) {
            Some((identity, secret)) => Some(Credential { identity, secret }),
            None => None,
        },
        None => None,
    }
}

/// The permission bit an operation needs; the admin class has none.
pub open spec fn bit_of(op: Operation) -> Option<i64> {
    match op {
        Operation::Read => Some(READ_BIT),
        Operation::Write => Some(WRITE_BIT),
        Operation::Delete => Some(DELETE_BIT),
        Operation::Execute => Some(EXEC_BIT),
        Operation::Admin => None,
    }
}

/// Whether the stored user `name` with secret `secret` may perform `op` on `path`.
pub open spec fn user_allows(
    store: Map<Seq<char>, UserRecord>,
    name: Seq<char>,
    secret: Seq<char>,
    op: Operation,
    path: Seq<char>,
) -> bool {
    authenticates(store, name, secret) && match op {
        Operation::Read => has_bit(store[name].1, READ_BIT),
        Operation::Write => write_allowed(store[name].1, store[name].2, path),
        Operation::Delete => delete_allowed(store[name].1, store[name].2, path),
        Operation::Execute => has_bit(store[name].1, EXEC_BIT),
        Operation::Admin => false,
    }
}

/// The authorization decision. Without an admin identity everything is allowed.
/// With one: the admin's own credential is always allowed; another
/// credential is allowed by the store's record of it; no credential falls
/// back to the unauthenticated defaults (none for the admin class).
pub open spec fn access_allowed(
    config: RunnerConfig,
    store: Map<Seq<char>, UserRecord>,
    cred: Option<(Seq<char>, Seq<char>)>,
    op: Operation,
    path: Seq<char>,
) -> bool {
    match admin_of(config) {
        None => true,
        Some((admin, admin_secret)) => match cred {
            Some((name, secret)) => (name == admin && secret == admin_secret)
                || user_allows(store, name, secret, op, path),
            None => match bit_of(op) {
                Some(bit) => unauth_allows(config, bit),
                None => false,
            },
        },
    }
}

/// A stored user whose mask lacks the write bit is never allowed to write,
/// whatever its scope and the path.
pub proof fn lemma_no_write_bit_never_writes(
    store: Map<Seq<char>, UserRecord>,
    name: Seq<char>,
    secret: Seq<char>,
    path: Seq<char>,
)
    requires
        store.contains_key(name),
        !has_bit(store[name].1, WRITE_BIT),
    ensures
        !user_allows(store, name, secret, Operation::Write, path),
{
}

/// Decides whether a request with credential `cred` may perform `op` on
/// `path` (the path matters for write and delete only).
pub fn authorize(
    config: &RunnerConfig,
    users: &CredentialStore,
    cred: Option<&Credential>,
    op: Operation,
    path: &str,
) -> (r: bool)
    requires
        users.wf(),
    ensures
        r == access_allowed(*config, users@, cred_view(cred), op, path@),
{
    match config.get_admin() {
        None => true,
        Some((admin, admin_secret)) => match cred {
            Some(c) => {
                if same_text(c.identity.as_str(), admin.as_str()) && same_text(c.secret.as_str(), admin_secret.as_str()) {
                    return true;
                }
                let name = c.identity.as_str();
                let secret = c.secret.as_str();
                match op {
                    Operation::Read => users.can_read(name, secret),
                    Operation::Write => users.can_write(name, secret, path),
                    Operation::Delete => users.can_delete(name, secret, path),
                    Operation::Execute => users.can_exec(name, secret),
                    Operation::Admin => false,
                }
            },
            None => match op {
                Operation::Read => config.unauth_read(),
                Operation::Write => config.unauth_write(),
                Operation::Delete => config.unauth_delete(),
                Operation::Execute => config.unauth_exec(),
                Operation::Admin => false,
            },
        },
    }
}

/// Decides a request from its raw authorization header: a missing or
/// malformed header counts as no credential.
pub fn authorize_header(
    config: &RunnerConfig,
    users: &CredentialStore,
    header: Option<&str>,
    op: Operation,
    path: &str,
) -> (r: bool)
    requires
        users.wf(),
    ensures
        r == access_allowed(*config, users@, credential_of(header_view(header)), op, path@),
{
    let cred = credential_from_header(header);
    match &cred {
        Some(c) => authorize(config, users, Some(c), op, path),
        None => authorize(config, users, None, op, path),
    }
}

} // verus!
