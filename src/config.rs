//! Runner configuration, as plain values read from the configuration
//! document, and the defaults that apply when a value is missing.

use vstd::prelude::*;
use crate::permissions::{has_bit, READ_BIT, WRITE_BIT, DELETE_BIT, EXEC_BIT};

verus! {

/// Port used when none is configured.
pub const DEFAULT_PORT: u16 = 3030;
/// Run timeout, in seconds, used when none is configured.
pub const DEFAULT_RUN_TIMEOUT_SECS: u64 = 10;

/// The configuration values the runner reads; `None` where the document
/// holds no usable value.
pub struct RunnerConfig {
    pub port: Option<i64>,
    /// The address entries, each `None` where it is not a number.
    pub address: Option<Vec<Option<i64>>>,
    /// Whether diagnostics are shown in responses.
    pub show_errors: Option<bool>,
    pub run_enabled: Option<bool>,
    pub run_timeout_secs: Option<u64>,
    pub registry_enabled: Option<bool>,
    pub registry_path: Option<String>,
    pub registry_users: Option<String>,
    pub admin_username: Option<String>,
    pub admin_password: Option<String>,
    pub unauth_perms: Option<i64>,
}

/// Spec of the admin identity: both name and secret configured and non-empty.
pub open spec fn admin_of(c: RunnerConfig) -> Option<(Seq<char>, Seq<char>)> {
    match (c.admin_username, c.admin_password) {
        (Some(u), Some(p)) => if u@.len() > 0 && p@.len() > 0 {
            Some((u@, p@))
        } else {
            None
        },
        _ => None,
    }
}

/// Spec of whether unauthenticated callers hold `bit`.
pub open spec fn unauth_allows(c: RunnerConfig, bit: i64) -> bool {
    match c.unauth_perms {
        Some(p) => has_bit(p, bit),
        None => false,
    }
}

/// Spec of the registry base path.
pub open spec fn registry_path_of(c: RunnerConfig) -> Seq<char> {
    match c.registry_path {
        Some(p) => p@,
        None => "registry"@,
    }
}

/// Spec of the user snapshot's file name.
pub open spec fn users_filename_of(c: RunnerConfig) -> Seq<char> {
    match c.registry_users {
        Some(p) => p@,
        None => "__users__.json"@,
    }
}

/// One address octet: the configured number truncated to a byte, else `dflt`.
pub open spec fn octet_of(v: Option<i64>, dflt: u8) -> u8 {
    match v {
        Some(n) => n as u8,
        None => dflt,
    }
}


fn octet(v: &Option<i64>, dflt: u8) -> (r: u8)
    ensures
        r == octet_of(*v, dflt),
{
    match v {
        Some(n) => *n as u8,
        None => dflt,
    }
}

fn text_or(v: &Option<String>, dflt: &str) -> (r: String)
    ensures
        r@ == match v {
            Some(s) => s@,
            None => dflt@,
        },
{
    match v {
        Some(s) => s.clone(),
        None => dflt.to_owned(),
    }
}

impl RunnerConfig {
    /// The configuration written by a runner with an empty configuration
    /// file: every value at its typed default.
    pub fn typed_defaults() -> (r: Self)
        ensures
            r.port == Some(DEFAULT_PORT as i64),
            r.address matches Some(a) && a@ == seq![Some(127i64), Some(0i64), Some(0i64), Some(1i64)],
            r.show_errors == Some(true),
            r.run_enabled == Some(true),
            r.run_timeout_secs == Some(DEFAULT_RUN_TIMEOUT_SECS),
            r.registry_enabled == Some(true),
            r.registry_path matches Some(p) && p@ == "registry"@,
            r.registry_users matches Some(u) && u@ == "__users__.json"@,
            r.admin_username matches Some(u) && u@ == "admin"@,
            r.admin_password matches Some(p) && p@.len() == 0,
            r.unauth_perms == Some(0i64),
            admin_of(r) is None,
    {
        let address: Vec<Option<i64>> = vec![Some(127), Some(0), Some(0), Some(1)];
        assert(address@ =~= seq![Some(127i64), Some(0i64), Some(0i64), Some(1i64)]);
        RunnerConfig {
            port: Some(DEFAULT_PORT as i64),
            address: Some(address),
            show_errors: Some(true),
            run_enabled: Some(true),
            run_timeout_secs: Some(DEFAULT_RUN_TIMEOUT_SECS),
            registry_enabled: Some(true),
            registry_path: Some("registry".to_owned()),
            registry_users: Some("__users__.json".to_owned()),
            admin_username: Some("admin".to_owned()),
            admin_password: Some(String::new()),
            unauth_perms: Some(0),
        }
    }

    /// Listening port: the configured number truncated to 16 bits, else 3030.
    pub fn server_port(&self) -> (r: u16)
        ensures
            r == match self.port {
                Some(n) => n as u16,
                None => DEFAULT_PORT,
            },
    {
        match self.port {
            Some(n) => n as u16,
            None => DEFAULT_PORT,
        }
    }

    /// Listening address: the four configured octets when exactly four
    /// entries are configured (an entry that is not a number keeps the
    /// octet of 127.0.0.1), else 127.0.0.1.
    pub fn server_address(&self) -> (r: [u8; 4])
        ensures
            match self.address {
                Some(v) if v@.len() == 4 => r@ == seq![
                    octet_of(v@[0], 127),
                    octet_of(v@[1], 0),
                    octet_of(v@[2], 0),
                    octet_of(v@[3], 1),
                ],
                _ => r@ == seq![127u8, 0u8, 0u8, 1u8],
            },
    {
        match &self.address {
            Some(v) => {
                if v.len() == 4 {
                    let r = [octet(&v[0], 127), octet(&v[1], 0), octet(&v[2], 0), octet(&v[3], 1)];
                    assert(r@ =~= seq![octet_of(v@[0], 127), octet_of(v@[1], 0), octet_of(v@[2], 0), octet_of(v@[3], 1)]);
                    r
                } else {
                    let r = [127u8, 0u8, 0u8, 1u8];
                    assert(r@ =~= seq![127u8, 0u8, 0u8, 1u8]);
                    r
                }
            },
            None => {
                let r = [127u8, 0u8, 0u8, 1u8];
                assert(r@ =~= seq![127u8, 0u8, 0u8, 1u8]);
                r
            },
        }
    }

    /// Hide diagnostics from responses? True unless errors are explicitly shown.
    pub fn opaque_errors(&self) -> (r: bool)
        ensures
            r == !(self.show_errors == Some(true)),
    {
        match self.show_errors {
            Some(show) => !show,
            None => true,
        }
    }

    /// Is the runner enabled? False unless configured so.
    pub fn run_enabled(&self) -> (r: bool)
        ensures
            r == (self.run_enabled == Some(true)),
    {
        match self.run_enabled {
            Some(b) => b,
            None => false,
        }
    }

    /// Run timeout in seconds; 10 when none is configured.
    pub fn run_timeout(&self) -> (r: u64)
        ensures
            r == match self.run_timeout_secs {
                Some(s) => s,
                None => DEFAULT_RUN_TIMEOUT_SECS,
            },
    {
        match self.run_timeout_secs {
            Some(s) => s,
            None => DEFAULT_RUN_TIMEOUT_SECS,
        }
    }

    /// Is the registry enabled? False unless configured so.
    pub fn registry_enabled(&self) -> (r: bool)
        ensures
            r == (self.registry_enabled == Some(true)),
    {
        match self.registry_enabled {
            Some(b) => b,
            None => false,
        }
    }

    /// Registry base path; `registry` when none is configured.
    pub fn registry_path(&self) -> (r: String)
        ensures
            r@ == registry_path_of(*self),
    {
        text_or(&self.registry_path, "registry")
    }

    /// File name of the user snapshot; `__users__.json` when none is configured.
    pub fn registry_users_filename(&self) -> (r: String)
        ensures
            r@ == users_filename_of(*self),
    {
        text_or(&self.registry_users, "__users__.json")
    }

    /// Path of the user snapshot: `<registry path>/<users file name>`.
    pub fn users_file_path(&self) -> (r: String)
        ensures
            r@ == registry_path_of(*self) + "/"@ + users_filename_of(*self),
    {
        let base = self.registry_path();
        let name = self.registry_users_filename();
        base.concat("/").concat(name.as_str())
    }

    /// Path of the metrics snapshot: `<registry path>/__metrics__.bstof`.
    pub fn metrics_file_path(&self) -> (r: String)
        ensures
            r@ == registry_path_of(*self) + "/__metrics__.bstof"@,
    {
        self.registry_path().concat("/__metrics__.bstof")
    }

    /// The admin identity, when both a name and a secret are configured
    /// and neither is empty.
    pub fn get_admin(&self) -> (r: Option<(String, String)>)
        ensures
            match r {
                Some((u, p)) => admin_of(*self) == Some((u@, p@)),
                None => admin_of(*self) is None,
            },
    {
        match (&self.admin_username, &self.admin_password) {
            (Some(u), Some(p)) => {
                if u.unicode_len() > 0 && p.unicode_len() > 0 {
                    Some((u.clone(), p.clone()))
                } else {
                    None
                }
            },
            _ => None,
        }
    }

    fn unauth_bit(&self, bit: i64) -> (r: bool)
        ensures
            r == unauth_allows(*self, bit),
    {
        match self.unauth_perms {
            Some(p) => p & bit != 0,
            None => false,
        }
    }

    /// May unauthenticated callers read?
    pub fn unauth_read(&self) -> (r: bool)
        ensures
            r == unauth_allows(*self, READ_BIT),
    {
        self.unauth_bit(READ_BIT)
    }

    /// May unauthenticated callers write?
    pub fn unauth_write(&self) -> (r: bool)
        ensures
            r == unauth_allows(*self, WRITE_BIT),
    {
        self.unauth_bit(WRITE_BIT)
    }

    /// May unauthenticated callers delete?
    pub fn unauth_delete(&self) -> (r: bool)
        ensures
            r == unauth_allows(*self, DELETE_BIT),
    {
        self.unauth_bit(DELETE_BIT)
    }

    /// May unauthenticated callers execute?
    pub fn unauth_exec(&self) -> (r: bool)
        ensures
            r == unauth_allows(*self, EXEC_BIT),
    {
        self.unauth_bit(EXEC_BIT)
    }
}

} // verus!
