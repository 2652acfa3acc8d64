//! The singleton sync-state row: the installation's identity, its device
//! registration, the pull cursor and the last push, pull and error. Each
//! function gives the row after one write.
use vstd::prelude::*;
use crate::local_store::{blank_message, validate_non_empty, LocalStoreError, LocalSyncState};
use crate::text::trim_seq;

verus! {

/// The row after the installation identity is set.
pub fn with_client_instance_id(state: LocalSyncState, client_instance_id: &str) -> (r: Result<
    LocalSyncState,
    LocalStoreError,
>)
    ensures
        r is Ok <==> trim_seq(client_instance_id@).len() > 0,
        r matches Err(e) ==> e matches LocalStoreError::InvalidInput(m) && m@ == blank_message(
            "client_instance_id"@,
        ),
        r matches Ok(n) ==> n == (LocalSyncState { client_instance_id: n.client_instance_id, ..state })
            && (n.client_instance_id matches Some(c) && c@ == client_instance_id@),
{
    validate_non_empty("client_instance_id", client_instance_id)?;
    Ok(LocalSyncState { client_instance_id: Some(client_instance_id.to_owned()), ..state })
}

/// The first blank field of a device registration.
pub open spec fn registration_fault(client: Seq<char>, device: Seq<char>, user: Seq<char>) -> Option<
    Seq<char>,
> {
    if trim_seq(client).len() == 0 {
        Some(blank_message("client_instance_id"@))
    } else if trim_seq(device).len() == 0 {
        Some(blank_message("device_id"@))
    } else if trim_seq(user).len() == 0 {
        Some(blank_message("server_user_id"@))
    } else {
        None
    }
}

/// The row after a device registration: the identity, device and user as
/// registered, and no server error.
pub fn with_device_registration(
    state: LocalSyncState,
    client_instance_id: &str,
    device_id: &str,
    server_user_id: &str,
) -> (r: Result<LocalSyncState, LocalStoreError>)
    ensures
        r is Ok <==> registration_fault(client_instance_id@, device_id@, server_user_id@) is None,
        r matches Err(e) ==> e matches LocalStoreError::InvalidInput(m) && registration_fault(
            client_instance_id@,
            device_id@,
            server_user_id@,
        ) == Some(m@),
        r matches Ok(n) ==> n == (LocalSyncState {
            client_instance_id: n.client_instance_id,
            device_id: n.device_id,
            server_user_id: n.server_user_id,
            last_server_error: None,
            ..state
        }) && (n.client_instance_id matches Some(c) && c@ == client_instance_id@) && (
        n.device_id matches Some(d) && d@ == device_id@) && (n.server_user_id matches Some(u)
            && u@ == server_user_id@),
{
    validate_non_empty("client_instance_id", client_instance_id)?;
    validate_non_empty("device_id", device_id)?;
    validate_non_empty("server_user_id", server_user_id)?;
    Ok(
        LocalSyncState {
            client_instance_id: Some(client_instance_id.to_owned()),
            device_id: Some(device_id.to_owned()),
            server_user_id: Some(server_user_id.to_owned()),
            last_server_error: None,
            ..state
        },
    )
}

/// The row after a page was pulled up to `cursor` at time `now`: the new
/// cursor, the pull time, and no server error.
pub fn with_sync_cursor(state: LocalSyncState, cursor: &str, now: &str) -> (r: Result<
    LocalSyncState,
    LocalStoreError,
>)
    ensures
        r is Ok <==> trim_seq(cursor@).len() > 0,
        r matches Err(e) ==> e matches LocalStoreError::InvalidInput(m) && m@ == blank_message(
            "server_cursor"@,
        ),
        r matches Ok(n) ==> n == (LocalSyncState {
            server_cursor: n.server_cursor,
            last_successful_pull_at: n.last_successful_pull_at,
            last_server_error: None,
            ..state
        }) && (n.server_cursor matches Some(c) && c@ == cursor@) && (
        n.last_successful_pull_at matches Some(t) && t@ == now@),
{
    validate_non_empty("server_cursor", cursor)?;
    Ok(
        LocalSyncState {
            server_cursor: Some(cursor.to_owned()),
            last_successful_pull_at: Some(now.to_owned()),
            last_server_error: None,
            ..state
        },
    )
}

/// The row after a sync failure is recorded.
pub fn with_sync_error(state: LocalSyncState, error: &str) -> (r: Result<
    LocalSyncState,
    LocalStoreError,
>)
    ensures
        r is Ok <==> trim_seq(error@).len() > 0,
        r matches Err(e) ==> e matches LocalStoreError::InvalidInput(m) && m@ == blank_message(
            "last_server_error"@,
        ),
        r matches Ok(n) ==> n == (LocalSyncState { last_server_error: n.last_server_error, ..state })
            && (n.last_server_error matches Some(x) && x@ == error@),
{
    validate_non_empty("last_server_error", error)?;
    Ok(LocalSyncState { last_server_error: Some(error.to_owned()), ..state })
}

/// The row after a push cycle made progress at time `now`: the push time,
/// and no server error.
pub fn with_push_success(state: LocalSyncState, now: &str) -> (n: LocalSyncState)
    ensures
        n == (LocalSyncState {
            last_successful_push_at: n.last_successful_push_at,
            last_server_error: None,
            ..state
        }),
        n.last_successful_push_at matches Some(t) && t@ == now@,
{
    LocalSyncState { last_successful_push_at: Some(now.to_owned()), last_server_error: None, ..state }
}

/// A successful pull or push always clears the recorded server error, and
/// a recorded error never moves the cursor.
pub proof fn lemma_success_clears_error(
    before: LocalSyncState,
    pulled: LocalSyncState,
    pushed: LocalSyncState,
    failed: LocalSyncState,
)
    requires
        pulled == (LocalSyncState {
            server_cursor: pulled.server_cursor,
            last_successful_pull_at: pulled.last_successful_pull_at,
            last_server_error: None,
            ..before
        }),
        pushed == (LocalSyncState {
            last_successful_push_at: pushed.last_successful_push_at,
            last_server_error: None,
            ..before
        }),
        failed == (LocalSyncState { last_server_error: failed.last_server_error, ..before }),
    ensures
        pulled.last_server_error is None,
        pushed.last_server_error is None,
        failed.server_cursor == before.server_cursor,
        pushed.server_cursor == before.server_cursor,
{
}

} // verus!
