//! Request handling: the checks every request passes, the replies for each
//! operation's result, and complete registry handlers over the in-memory
//! registry.

use vstd::prelude::*;
use crate::auth::{authorize_header, credential_of, access_allowed, header_view, Operation};
use crate::config::RunnerConfig;
use crate::metrics::{bump, drop_one, persist_due, MetricsCounters};
use crate::registry::{
    delete_result, get_result, is_package_path, package_key, publish_result, trim_pkg_suffix,
    MemoryRegistry, Packages,
};
use crate::response::{
    is_bytes_reply, is_text_reply, StofResponse, OCTET_STREAM, STATUS_BAD_REQUEST,
    STATUS_FORBIDDEN, STATUS_NOT_IMPLEMENTED, STATUS_OK,
};
use crate::run::DEFAULT_CONTENT_TYPE;
use crate::text::{has_slash, same_text};
use crate::users::CredentialStore;

verus! {

/// Reply to a request that authorization refused.
pub const ACCESS_DENIED: &'static str = "access denied";
/// Reply to a registry request whose path has a single segment.
pub const BAD_PACKAGE_PATH: &'static str = "package directory not found";
/// Reply when the registry is disabled.
pub const REGISTRY_DISABLED: &'static str = "registry is not available";
/// Reply when the runner is disabled.
pub const RUNNER_DISABLED: &'static str = "runner is not available";
/// Reply to a successful publish.
pub const PACKAGE_CREATED: &'static str = "package created";
/// Reply to a refused publish.
pub const PACKAGE_NOT_CREATED: &'static str = "package not created";
/// Reply to a successful delete.
pub const PACKAGE_REMOVED: &'static str = "package removed";
/// Reply to a delete or fetch of a missing package.
pub const PACKAGE_NOT_FOUND: &'static str = "package not found";
/// Reply to a successful user update.
pub const USER_SET: &'static str = "set user";
/// Reply to a successful user deletion.
pub const USER_DELETED: &'static str = "deleted user";
/// Reply to a user request that could not be applied.
pub const INVALID_USER_BODY: &'static str = "not a valid user body";

/// The refusal, if any, of a registry request. The path's shape is checked
/// first, so that a malformed path never reaches the store whatever the
/// caller's rights; then the authorization decision; then whether the registry is
/// enabled.
pub open spec fn registry_refusal(path: Seq<char>, authorized: bool, enabled: bool) -> Option<(u16, Seq<char>)> {
    if !has_slash(path) {
        Some((STATUS_BAD_REQUEST, BAD_PACKAGE_PATH@))
    } else if !authorized {
        Some((STATUS_FORBIDDEN, ACCESS_DENIED@))
    } else if !enabled {
        Some((STATUS_NOT_IMPLEMENTED, REGISTRY_DISABLED@))
    } else {
        None
    }
}

/// Whether `r` is the reply `refusal` describes.
pub open spec fn is_refusal(r: Option<StofResponse>, refusal: Option<(u16, Seq<char>)>) -> bool {
    match refusal {
        Some((status, body)) => r matches Some(x) && is_text_reply(x, status, body),
        None => r is None,
    }
}

/// Checks a registry request before any store operation.
pub fn registry_precheck(path: &str, authorized: bool, enabled: bool) -> (r: Option<StofResponse>)
    ensures
        is_refusal(r, registry_refusal(path@, authorized, enabled)),
{
    if !is_package_path(path) {
        return Some(StofResponse::error(STATUS_BAD_REQUEST, BAD_PACKAGE_PATH));
    }
    if !authorized {
        return Some(StofResponse::error(STATUS_FORBIDDEN, ACCESS_DENIED));
    }
    if !enabled {
        return Some(StofResponse::error(STATUS_NOT_IMPLEMENTED, REGISTRY_DISABLED));
    }
    None
}

/// Checks a run request: refused when not authorized (403), then when the
/// runner is disabled (501).
pub fn run_precheck(authorized: bool, enabled: bool) -> (r: Option<StofResponse>)
    ensures
        !authorized ==> (r matches Some(x) && is_text_reply(x, STATUS_FORBIDDEN, ACCESS_DENIED@)),
        authorized && !enabled ==> (r matches Some(x) && is_text_reply(x, STATUS_NOT_IMPLEMENTED, RUNNER_DISABLED@)),
        authorized && enabled ==> r is None,
{
    if !authorized {
        return Some(StofResponse::error(STATUS_FORBIDDEN, ACCESS_DENIED));
    }
    if !enabled {
        return Some(StofResponse::error(STATUS_NOT_IMPLEMENTED, RUNNER_DISABLED));
    }
    None
}

/// Checks an admin request: refused (403) unless authorized.
pub fn admin_precheck(authorized: bool) -> (r: Option<StofResponse>)
    ensures
        !authorized ==> (r matches Some(x) && is_text_reply(x, STATUS_FORBIDDEN, ACCESS_DENIED@)),
        authorized ==> r is None,
{
    if !authorized {
        Some(StofResponse::error(STATUS_FORBIDDEN, ACCESS_DENIED))
    } else {
        None
    }
}

/// Reply to a publish: 200 when the store took the archive, else 400.
/// `None` stands for a storage failure.
pub fn publish_reply(result: Option<bool>) -> (r: StofResponse)
    ensures
        result == Some(true) ==> is_text_reply(r, STATUS_OK, PACKAGE_CREATED@),
        result != Some(true) ==> is_text_reply(r, STATUS_BAD_REQUEST, PACKAGE_NOT_CREATED@),
{
    match result {
        Some(true) => StofResponse::msg(STATUS_OK, PACKAGE_CREATED),
        _ => StofResponse::error(STATUS_BAD_REQUEST, PACKAGE_NOT_CREATED),
    }
}

/// Reply to a delete: 200 when a package was removed, else 400.
/// `None` stands for a storage failure.
pub fn delete_reply(result: Option<bool>) -> (r: StofResponse)
    ensures
        result == Some(true) ==> is_text_reply(r, STATUS_OK, PACKAGE_REMOVED@),
        result != Some(true) ==> is_text_reply(r, STATUS_BAD_REQUEST, PACKAGE_NOT_FOUND@),
{
    match result {
        Some(true) => StofResponse::msg(STATUS_OK, PACKAGE_REMOVED),
        _ => StofResponse::error(STATUS_BAD_REQUEST, PACKAGE_NOT_FOUND),
    }
}

/// Reply to a fetch: 200 with the archive, else 400.
pub fn get_reply(result: Option<Vec<u8>>) -> (r: StofResponse)
    ensures
        match result {
            Some(b) => is_bytes_reply(r, STATUS_OK, OCTET_STREAM@, b@),
            None => is_text_reply(r, STATUS_BAD_REQUEST, PACKAGE_NOT_FOUND@),
        },
{
    match result {
        Some(b) => StofResponse::bytes(STATUS_OK, b),
        None => StofResponse::error(STATUS_BAD_REQUEST, PACKAGE_NOT_FOUND),
    }
}

/// Reply to a user update or deletion.
pub fn user_reply(applied: bool, deleted: bool) -> (r: StofResponse)
    ensures
        applied && !deleted ==> is_text_reply(r, STATUS_OK, USER_SET@),
        applied && deleted ==> is_text_reply(r, STATUS_OK, USER_DELETED@),
        !applied ==> is_text_reply(r, STATUS_BAD_REQUEST, INVALID_USER_BODY@),
{
    if !applied {
        StofResponse::error(STATUS_BAD_REQUEST, INVALID_USER_BODY)
    } else if deleted {
        StofResponse::msg(STATUS_OK, USER_DELETED)
    } else {
        StofResponse::msg(STATUS_OK, USER_SET)
    }
}

/// The `overwrite` query value: on when absent, else on exactly for `true`.
pub open spec fn overwrite_of(query: Option<Seq<char>>) -> bool {
    match query {
        Some(q) => q == "true"@,
        None => true,
    }
}

/// Reads the `overwrite` query value.
pub fn overwrite_flag(query: Option<&str>) -> (r: bool)
    ensures
        r == overwrite_of(header_view(query)),
{
    match query {
        Some(q) => same_text(q, "true"),
        None => true,
    }
}

/// `value`, or `dflt` when absent.
pub fn text_or_default(value: Option<&str>, dflt: &str) -> (r: String)
    ensures
        r@ == match value {
            Some(v) => v@,
            None => dflt@,
        },
{
    match value {
        Some(v) => v.to_owned(),
        None => dflt.to_owned(),
    }
}

/// The declared content type of a payload, `stof` when none is declared.
pub fn payload_content_type(header: Option<&str>) -> (r: String)
    ensures
        r@ == match header {
            Some(v) => v@,
            None => DEFAULT_CONTENT_TYPE@,
        },
{
    text_or_default(header, DEFAULT_CONTENT_TYPE)
}

/// Whether a publish added a package: the archive was known to be absent
/// before and the publish succeeded. An unknown existence or result counts
/// as no new package.
pub open spec fn adds_package(existed: Option<bool>, published: Option<bool>) -> bool {
    existed == Some(false) && published == Some(true)
}

/// Decides whether a publish is counted as a new package.
pub fn counts_as_new(existed: Option<bool>, published: Option<bool>) -> (r: bool)
    ensures
        r == adds_package(existed, published),
{
    match (existed, published) {
        (Some(false), Some(true)) => true,
        _ => false,
    }
}

/// Whether the registry request passes every check, authorization included.
pub open spec fn registry_admitted(
    config: RunnerConfig,
    users: CredentialStore,
    header: Option<Seq<char>>,
    op: Operation,
    path: Seq<char>,
) -> bool {
    registry_refusal(path, access_allowed(config, users@, credential_of(header), op, path),
        config.registry_enabled == Some(true)) is None
}

/// Handles `PUT /registry/{path}` against an in-memory registry. An admitted
/// request publishes per the registry's rules; a package that did not exist
/// before is counted.
pub fn handle_publish(
    config: &RunnerConfig,
    users: &CredentialStore,
    header: Option<&str>,
    path: &str,
    overwrite_query: Option<&str>,
    body: Vec<u8>,
    registry: &mut MemoryRegistry,
    metrics: &mut MetricsCounters,
    now: u64,
) -> (r: (StofResponse, bool))
    requires
        users.wf(),
        old(registry).wf(),
        old(metrics).wf(),
    ensures
        final(registry).wf(),
        final(metrics).wf(),
        is_refusal(
            if registry_admitted(*config, *users, header_view(header), Operation::Write, path@) { None } else { Some(r.0) },
            registry_refusal(path@, access_allowed(*config, users@, credential_of(header_view(header)), Operation::Write, path@),
                config.registry_enabled == Some(true)),
        ),
        !registry_admitted(*config, *users, header_view(header), Operation::Write, path@) ==> {
            &&& final(registry)@ == old(registry)@
            &&& *final(metrics) == *old(metrics)
            &&& !r.1
        },
        registry_admitted(*config, *users, header_view(header), Operation::Write, path@) ==> {
            let (m, created) = publish_result(old(registry)@, path@, overwrite_of(header_view(overwrite_query)), body@);
            let fresh = adds_package(Some(get_result(old(registry)@, path@) is Some), Some(created));
            &&& final(registry)@ == m
            &&& (created ==> is_text_reply(r.0, STATUS_OK, PACKAGE_CREATED@))
            &&& (!created ==> is_text_reply(r.0, STATUS_BAD_REQUEST, PACKAGE_NOT_CREATED@))
            &&& final(metrics).packages() == if fresh { bump(old(metrics).packages()) } else { old(metrics).packages() }
            &&& final(metrics).runs() == old(metrics).runs()
            &&& final(metrics).total_downloads() == old(metrics).total_downloads()
            &&& final(metrics).downloads() == old(metrics).downloads()
            &&& r.1 == (fresh && persist_due(now, old(metrics).last_persisted()))
        },
{
    let authorized = authorize_header(config, users, header, Operation::Write, path);
    match registry_precheck(path, authorized, config.registry_enabled()) {
        Some(refusal) => (refusal, false),
        None => {
            let overwrite = overwrite_flag(overwrite_query);
            let existed = registry.get(path).is_some();
            let created = registry.publish(path, overwrite, body);
            let mut persist = false;
            if counts_as_new(Some(existed), Some(created)) {
                persist = metrics.registry_packages_increment_count(now);
            }
            (publish_reply(Some(created)), persist)
        },
    }
}

/// Handles `DELETE /registry/{path}` against an in-memory registry. An
/// admitted request deletes per the registry's rules; a removed package is
/// uncounted.
pub fn handle_delete(
    config: &RunnerConfig,
    users: &CredentialStore,
    header: Option<&str>,
    path: &str,
    registry: &mut MemoryRegistry,
    metrics: &mut MetricsCounters,
    now: u64,
) -> (r: (StofResponse, bool))
    requires
        users.wf(),
        old(registry).wf(),
        old(metrics).wf(),
    ensures
        final(registry).wf(),
        final(metrics).wf(),
        is_refusal(
            if registry_admitted(*config, *users, header_view(header), Operation::Delete, path@) { None } else { Some(r.0) },
            registry_refusal(path@, access_allowed(*config, users@, credential_of(header_view(header)), Operation::Delete, path@),
                config.registry_enabled == Some(true)),
        ),
        !registry_admitted(*config, *users, header_view(header), Operation::Delete, path@) ==> {
            &&& final(registry)@ == old(registry)@
            &&& *final(metrics) == *old(metrics)
            &&& !r.1
        },
        registry_admitted(*config, *users, header_view(header), Operation::Delete, path@) ==> {
            let (m, removed) = delete_result(old(registry)@, path@);
            &&& final(registry)@ == m
            &&& (removed ==> is_text_reply(r.0, STATUS_OK, PACKAGE_REMOVED@))
            &&& (!removed ==> is_text_reply(r.0, STATUS_BAD_REQUEST, PACKAGE_NOT_FOUND@))
            &&& final(metrics).packages() == if removed { drop_one(old(metrics).packages()) } else { old(metrics).packages() }
            &&& final(metrics).runs() == old(metrics).runs()
            &&& final(metrics).total_downloads() == old(metrics).total_downloads()
            &&& final(metrics).downloads() == old(metrics).downloads()
            &&& r.1 == (removed && persist_due(now, old(metrics).last_persisted()))
        },
{
    let authorized = authorize_header(config, users, header, Operation::Delete, path);
    match registry_precheck(path, authorized, config.registry_enabled()) {
        Some(refusal) => (refusal, false),
        None => {
            let removed = registry.delete(path);
            let mut persist = false;
            if removed {
                persist = metrics.registry_packages_deincrement_count(now);
            }
            (delete_reply(Some(removed)), persist)
        },
    }
}

/// Handles `GET /registry/{path}` against an in-memory registry. An admitted
/// request for a stored package returns its archive and counts a download.
pub fn handle_get(
    config: &RunnerConfig,
    users: &CredentialStore,
    header: Option<&str>,
    path: &str,
    registry: &MemoryRegistry,
    metrics: &mut MetricsCounters,
    now: u64,
) -> (r: (StofResponse, bool))
    requires
        users.wf(),
        registry.wf(),
        old(metrics).wf(),
    ensures
        final(metrics).wf(),
        is_refusal(
            if registry_admitted(*config, *users, header_view(header), Operation::Read, path@) { None } else { Some(r.0) },
            registry_refusal(path@, access_allowed(*config, users@, credential_of(header_view(header)), Operation::Read, path@),
                config.registry_enabled == Some(true)),
        ),
        !registry_admitted(*config, *users, header_view(header), Operation::Read, path@) ==> {
            &&& *final(metrics) == *old(metrics)
            &&& !r.1
        },
        registry_admitted(*config, *users, header_view(header), Operation::Read, path@) ==> match get_result(registry@, path@) {
            Some(b) => {
                &&& is_bytes_reply(r.0, STATUS_OK, OCTET_STREAM@, b)
                &&& final(metrics).total_downloads() == bump(old(metrics).total_downloads())
                &&& final(metrics).downloads() == old(metrics).downloads().insert(package_key(path@), bump(old(metrics).downloads_of(package_key(path@))))
                &&& final(metrics).runs() == old(metrics).runs()
                &&& final(metrics).packages() == old(metrics).packages()
                &&& r.1 == persist_due(now, old(metrics).last_persisted())
            },
            None => {
                &&& is_text_reply(r.0, STATUS_BAD_REQUEST, PACKAGE_NOT_FOUND@)
                &&& *final(metrics) == *old(metrics)
                &&& !r.1
            },
        },
{
    let authorized = authorize_header(config, users, header, Operation::Read, path);
    match registry_precheck(path, authorized, config.registry_enabled()) {
        Some(refusal) => (refusal, false),
        None => {
            let found = registry.get(path);
            let mut persist = false;
            if found.is_some() {
                persist = metrics.registry_downloads_increment_count(trim_pkg_suffix(path), now);
            }
            (get_reply(found), persist)
        },
    }
}

/// Starting from any package count, three publishes to paths naming three
/// distinct packages that were absent each add a package, and deleting one of
/// them succeeds and takes one away: from zero the count goes to three, then two.
pub proof fn lemma_publish_publish_publish_delete(
    m: Packages,
    p1: Seq<char>,
    p2: Seq<char>,
    p3: Seq<char>,
    overwrite: bool,
    b1: Seq<u8>,
    b2: Seq<u8>,
    b3: Seq<u8>,
    count: i64,
)
    requires
        has_slash(p1),
        has_slash(p2),
        has_slash(p3),
        package_key(p1) != package_key(p2),
        package_key(p1) != package_key(p3),
        package_key(p2) != package_key(p3),
        get_result(m, p1) is None,
        get_result(m, p2) is None,
        get_result(m, p3) is None,
        0 <= count < i64::MAX - 3,
    ensures
        ({
            let (m1, c1) = publish_result(m, p1, overwrite, b1);
            let (m2, c2) = publish_result(m1, p2, overwrite, b2);
            let (m3, c3) = publish_result(m2, p3, overwrite, b3);
            let (m4, removed) = delete_result(m3, p1);
            &&& adds_package(Some(get_result(m, p1) is Some), Some(c1))
            &&& adds_package(Some(get_result(m1, p2) is Some), Some(c2))
            &&& adds_package(Some(get_result(m2, p3) is Some), Some(c3))
            &&& removed
            &&& get_result(m4, p1) is None
            &&& get_result(m4, p2) == Some(b2)
            &&& get_result(m4, p3) == Some(b3)
            &&& bump(bump(bump(count))) == count + 3
            &&& drop_one(bump(bump(bump(count)))) == count + 2
        }),
{
}

} // verus!
