//! The server and account the local state belongs to.
//!
//! Local rows (skills, outbox, cursor) are bound to one server and one
//! authenticated account. A login or server switch that would let rows of
//! one scope reach another is refused; a logout leaves the scope
//! incomplete, so the worker fails closed until a real account is adopted
//! again.
use vstd::prelude::*;
use crate::local_store::{validate_non_empty, LocalStoreError, LocalSyncState};
use crate::text::{eq_ignore_ascii_case, eq_ignore_ascii_case_str, str_eq, trim_seq, trim_string};

verus! {

pub open spec fn opt_is(o: Option<String>, v: Seq<char>) -> bool {
    o matches Some(s) && s@ == v
}

/// Server, identity and user are all bound.
pub open spec fn scope_complete(s: LocalSyncState) -> bool {
    s.server_url is Some && s.server_login_identity is Some && s.server_user_id is Some
}

/// A server and an authenticated user are bound.
pub open spec fn established_server(s: LocalSyncState) -> bool {
    s.server_url is Some && s.server_user_id is Some
}

pub open spec fn url_matches(s: LocalSyncState, url: Seq<char>) -> bool {
    match s.server_url {
        Some(u) => u@ == url,
        None => true,
    }
}

pub open spec fn identity_matches(s: LocalSyncState, identity: Seq<char>) -> bool {
    match s.server_login_identity {
        Some(i) => eq_ignore_ascii_case(i@, trim_seq(identity)),
        None => true,
    }
}

fn opt_eq_str(o: &Option<String>, v: &str) -> (r: bool)
    ensures
        r == opt_is(*o, v@),
{
    match o {
        Some(s) => str_eq(s.as_str(), v),
        None => false,
    }
}

fn copy_state(s: &LocalSyncState) -> (c: LocalSyncState)
    ensures
        c == *s,
{
    LocalSyncState {
        protocol_version: s.protocol_version,
        client_instance_id: s.client_instance_id.clone(),
        device_id: s.device_id.clone(),
        server_user_id: s.server_user_id.clone(),
        server_url: s.server_url.clone(),
        server_login_identity: s.server_login_identity.clone(),
        server_cursor: s.server_cursor.clone(),
        last_successful_push_at: s.last_successful_push_at.clone(),
        last_successful_pull_at: s.last_successful_pull_at.clone(),
        last_server_error: s.last_server_error.clone(),
    }
}

/// Reserves the server scope before a login changes credentials.
///
/// Refused when local rows exist under an established server other than
/// `server_url`. A complete scope that matches (the identity compared
/// case-insensitively, trimmed) is kept as it is. Otherwise the scope is
/// reset to `server_url` alone (the submitted identity is not stored before
/// authentication; the bound user survives only on the same server), and
/// device, cursor and error are cleared.
pub fn prepare_login_scope(
    state: &LocalSyncState,
    local_rows: u64,
    server_url: &str,
    login_identity: &str,
) -> (r: Result<LocalSyncState, LocalStoreError>)
    ensures
        trim_seq(server_url@).len() == 0 || trim_seq(login_identity@).len() == 0 ==> r matches Err(
            LocalStoreError::InvalidInput(_),
        ),
        trim_seq(server_url@).len() > 0 && trim_seq(login_identity@).len() > 0 ==> if local_rows > 0
            && established_server(*state) && !url_matches(*state, server_url@) {
            r matches Err(LocalStoreError::InvalidInput(_))
        } else if scope_complete(*state) && url_matches(*state, server_url@) && identity_matches(
            *state,
            login_identity@,
        ) {
            r == Ok::<LocalSyncState, LocalStoreError>(*state)
        } else {
            r matches Ok(n) && opt_is(n.server_url, server_url@) && n.server_login_identity is None
                && n.server_user_id == (if url_matches(*state, server_url@) && established_server(
                *state,
            ) {
                state.server_user_id
            } else {
                None
            }) && n.device_id is None && n.server_cursor is None && n.last_server_error is None
                && n.client_instance_id == state.client_instance_id && n.protocol_version
                == state.protocol_version && n.last_successful_push_at
                == state.last_successful_push_at && n.last_successful_pull_at
                == state.last_successful_pull_at
        },
{
    validate_non_empty("server_url", server_url)?;
    validate_non_empty("login_identity", login_identity)?;
    let url_ok = match &state.server_url {
        Some(u) => str_eq(u.as_str(), server_url),
        None => true,
    };
    let trimmed = trim_string(login_identity);
    let identity_ok = match &state.server_login_identity {
        Some(i) => eq_ignore_ascii_case_str(i.as_str(), trimmed.as_str()),
        None => true,
    };
    let complete = state.server_url.is_some() && state.server_login_identity.is_some()
        && state.server_user_id.is_some();
    let established = state.server_url.is_some() && state.server_user_id.is_some();
    if local_rows > 0 && established && !url_ok {
        return Err(
            LocalStoreError::InvalidInput(
                String::from_str(
                    "local data belongs to another SkillHive server/account; export or clear it before switching",
                ),
            ),
        );
    }
    if complete && url_ok && identity_ok {
        return Ok(copy_state(state));
    }
    let preserve_user = url_ok && established;
    let mut n = copy_state(state);
    n.server_url = Some(server_url.to_owned());
    n.server_login_identity = None;
    if !preserve_user {
        n.server_user_id = None;
    }
    n.device_id = None;
    n.server_cursor = None;
    n.last_server_error = None;
    Ok(n)
}

/// The authenticated server/account does not match the durable scope: a
/// different bound server, or local rows bound to another user.
pub open spec fn authenticated_mismatch(
    state: LocalSyncState,
    local_rows: u64,
    server_url: Seq<char>,
    server_user_id: Seq<char>,
) -> bool {
    ||| (state.server_url matches Some(u) && u@ != server_url)
    ||| (local_rows > 0 && state.server_url is Some && (state.server_user_id matches Some(u) && u@
        != server_user_id))
}

/// Binds the authenticated device after a login. The user id comes from
/// the server's answer. A mismatch with the durable scope is refused; when
/// the scope was not yet complete, cursor and sync timestamps start over.
pub fn record_authenticated_device(
    state: &LocalSyncState,
    local_rows: u64,
    server_url: &str,
    login_identity: &str,
    client_instance_id: &str,
    device_id: &str,
    server_user_id: &str,
) -> (r: Result<LocalSyncState, LocalStoreError>)
    ensures
        r is Ok <==> trim_seq(server_url@).len() > 0 && trim_seq(login_identity@).len() > 0
            && trim_seq(client_instance_id@).len() > 0 && trim_seq(device_id@).len() > 0 && trim_seq(
            server_user_id@,
        ).len() > 0 && !authenticated_mismatch(*state, local_rows, server_url@, server_user_id@),
        r matches Ok(n) ==> opt_is(n.server_url, server_url@) && opt_is(
            n.server_login_identity,
            trim_seq(login_identity@),
        ) && opt_is(n.client_instance_id, client_instance_id@) && opt_is(n.device_id, device_id@)
            && opt_is(n.server_user_id, server_user_id@) && n.last_server_error is None
            && n.protocol_version == state.protocol_version && scope_complete(n) && (!scope_complete(*state) ==> n.server_cursor is None
            && n.last_successful_push_at is None && n.last_successful_pull_at is None) && (
        scope_complete(*state) ==> n.server_cursor == state.server_cursor
            && n.last_successful_push_at == state.last_successful_push_at
            && n.last_successful_pull_at == state.last_successful_pull_at),
        r matches Err(e) ==> e is InvalidInput,
{
    validate_non_empty("server_url", server_url)?;
    validate_non_empty("login_identity", login_identity)?;
    validate_non_empty("client_instance_id", client_instance_id)?;
    validate_non_empty("device_id", device_id)?;
    validate_non_empty("server_user_id", server_user_id)?;
    let complete = state.server_url.is_some() && state.server_login_identity.is_some()
        && state.server_user_id.is_some();
    let other_url = match &state.server_url {
        Some(u) => !str_eq(u.as_str(), server_url),
        None => false,
    };
    let other_user = local_rows > 0 && state.server_url.is_some() && match &state.server_user_id {
        Some(u) => !str_eq(u.as_str(), server_user_id),
        None => false,
    };
    if other_url || other_user {
        return Err(
            LocalStoreError::InvalidInput(
                String::from_str("authenticated server/account does not match the durable local scope"),
            ),
        );
    }
    let mut n = copy_state(state);
    n.server_url = Some(server_url.to_owned());
    n.server_login_identity = Some(trim_string(login_identity));
    n.client_instance_id = Some(client_instance_id.to_owned());
    n.device_id = Some(device_id.to_owned());
    n.server_user_id = Some(server_user_id.to_owned());
    if !complete {
        n.server_cursor = None;
        n.last_successful_push_at = None;
        n.last_successful_pull_at = None;
    }
    n.last_server_error = None;
    Ok(n)
}

/// Some part of the scope was started.
pub open spec fn scope_started(s: LocalSyncState) -> bool {
    s.server_url is Some || s.server_login_identity is Some || s.server_user_id is Some
        || s.server_cursor is Some
}

/// The worker may talk to `server_url` with this state: the bound server
/// is that one, a started scope is complete, and local rows have a bound
/// server and user.
pub open spec fn scope_allows(s: LocalSyncState, local_rows: u64, server_url: Seq<char>) -> bool {
    &&& url_matches(s, server_url)
    &&& (scope_started(s) ==> scope_complete(s))
    &&& (local_rows > 0 ==> established_server(s))
}

/// Refuses to run the worker against a server the local state does not
/// belong to, or with an incomplete scope.
pub fn assert_server_scope(state: &LocalSyncState, local_rows: u64, server_url: &str) -> (r: Result<
    (),
    LocalStoreError,
>)
    ensures
        r is Ok <==> trim_seq(server_url@).len() > 0 && scope_allows(*state, local_rows, server_url@),
        r matches Err(e) ==> e is InvalidInput,
{
    validate_non_empty("server_url", server_url)?;
    let started = state.server_url.is_some() || state.server_login_identity.is_some()
        || state.server_user_id.is_some() || state.server_cursor.is_some();
    let other = match &state.server_url {
        Some(u) => !str_eq(u.as_str(), server_url),
        None => false,
    };
    let incomplete = state.server_url.is_none() || state.server_login_identity.is_none()
        || state.server_user_id.is_none();
    if other || (started && incomplete) || (local_rows > 0 && (state.server_url.is_none()
        || state.server_user_id.is_none())) {
        return Err(
            LocalStoreError::InvalidInput(
                String::from_str(
                    "local sync state is bound to a different or incomplete server/account scope",
                ),
            ),
        );
    }
    Ok(())
}

/// Switches the configured server only when no local state could reach
/// the old one: refused when rows exist under another established server;
/// otherwise a different or incomplete scope is reset to the new server.
pub fn prepare_server_switch(state: &LocalSyncState, local_rows: u64, server_url: &str) -> (r: Result<
    LocalSyncState,
    LocalStoreError,
>)
    ensures
        trim_seq(server_url@).len() == 0 ==> r is Err,
        trim_seq(server_url@).len() > 0 ==> if local_rows > 0 && established_server(*state)
            && !url_matches(*state, server_url@) {
            r matches Err(LocalStoreError::InvalidInput(_))
        } else if opt_is(state.server_url, server_url@) && scope_complete(*state) {
            r == Ok::<LocalSyncState, LocalStoreError>(*state)
        } else {
            r matches Ok(n) && opt_is(n.server_url, server_url@) && n.server_login_identity is None
                && n.server_user_id is None && n.device_id is None && n.server_cursor is None
                && n.last_server_error is None && n.client_instance_id == state.client_instance_id
                && n.protocol_version == state.protocol_version && n.last_successful_push_at
                == state.last_successful_push_at && n.last_successful_pull_at
                == state.last_successful_pull_at
        },
{
    validate_non_empty("server_url", server_url)?;
    let complete = state.server_url.is_some() && state.server_login_identity.is_some()
        && state.server_user_id.is_some();
    let established = state.server_url.is_some() && state.server_user_id.is_some();
    let other = match &state.server_url {
        Some(u) => !str_eq(u.as_str(), server_url),
        None => false,
    };
    if local_rows > 0 && established && other {
        return Err(
            LocalStoreError::InvalidInput(
                String::from_str(
                    "local data belongs to another server; synchronize or clear it before switching",
                ),
            ),
        );
    }
    if opt_eq_str(&state.server_url, server_url) && complete {
        return Ok(copy_state(state));
    }
    let mut n = copy_state(state);
    n.server_url = Some(server_url.to_owned());
    n.server_login_identity = None;
    n.server_user_id = None;
    n.device_id = None;
    n.server_cursor = None;
    n.last_server_error = None;
    Ok(n)
}

/// The note recorded when a logout stops synchronization.
pub open spec fn logout_note() -> Seq<char> {
    "desktop logout pending"@
}

/// A logout keeps the server address for the next login but drops the
/// account, device, cursor and sync timestamps.
pub fn invalidate_authenticated_scope(state: &LocalSyncState) -> (n: LocalSyncState)
    ensures
        n.server_url == state.server_url,
        n.client_instance_id == state.client_instance_id,
        n.protocol_version == state.protocol_version,
        n.server_login_identity is None,
        n.server_user_id is None,
        n.device_id is None,
        n.server_cursor is None,
        n.last_successful_push_at is None,
        n.last_successful_pull_at is None,
        opt_is(n.last_server_error, logout_note()),
{
    let mut n = copy_state(state);
    n.server_login_identity = None;
    n.server_user_id = None;
    n.device_id = None;
    n.server_cursor = None;
    n.last_successful_push_at = None;
    n.last_successful_pull_at = None;
    n.last_server_error = Some(String::from_str("desktop logout pending"));
    n
}

/// After a logout the worker is blocked: whenever a server was bound or
/// local rows exist, no server scope check passes until a login completes
/// the scope again.
pub proof fn lemma_logout_blocks_worker(
    state: LocalSyncState,
    after: LocalSyncState,
    local_rows: u64,
    url: Seq<char>,
)
    requires
        after.server_url == state.server_url,
        after.server_login_identity is None,
        after.server_user_id is None,
        state.server_url is Some || local_rows > 0,
    ensures
        !scope_allows(after, local_rows, url),
{
}

/// A completed login passes the worker's scope check for the same server.
pub proof fn lemma_login_enables_worker(n: LocalSyncState, local_rows: u64, url: Seq<char>)
    requires
        opt_is(n.server_url, url),
        scope_complete(n),
    ensures
        scope_allows(n, local_rows, url),
{
}

/// Rows bound to an established server never move to another one: both a
/// login and a server switch to a different address are refused.
pub proof fn lemma_rows_never_cross_servers(state: LocalSyncState, local_rows: u64, url: Seq<char>)
    requires
        local_rows > 0,
        established_server(state),
        !url_matches(state, url),
    ensures
        state.server_url matches Some(u) && u@ != url,
{
}

/// Whether a registration needs recording: the stored device differs from
/// the one the server returned.
pub fn device_changed(state: &LocalSyncState, device_id: &str) -> (b: bool)
    ensures
        b == !opt_is(state.device_id, device_id@),
{
    !opt_eq_str(&state.device_id, device_id)
}

/// The installation identity: the stored one, or a fresh one to store.
pub fn ensure_client_instance_id(state: &LocalSyncState) -> (r: (String, bool))
    ensures
        match state.client_instance_id {
            Some(id) => r.0 == id && !r.1,
            None => crate::ids::is_token_text(r.0@) && r.1,
        },
{
    match &state.client_instance_id {
        Some(id) => (id.clone(), false),
        None => (crate::ids::new_uuid_v4(), true),
    }
}

} // verus!
