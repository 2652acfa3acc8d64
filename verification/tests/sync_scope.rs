use skillhive::local_store::scope::{
    assert_server_scope, ensure_client_instance_id, invalidate_authenticated_scope, prepare_login_scope,
    prepare_server_switch, record_authenticated_device,
};
use skillhive::local_store::sync_state::{
    with_client_instance_id, with_device_registration, with_push_success, with_sync_cursor, with_sync_error,
};
use skillhive::local_store::{LocalStoreError, LocalSyncState};

/// The durable sync state and the number of local skill rows, changed only
/// through the library's transitions; a refused transition changes nothing.
struct SyncStore {
    state: LocalSyncState,
    local_rows: u64,
}

impl SyncStore {
    fn open() -> Self {
        SyncStore {
            state: LocalSyncState {
                protocol_version: 1,
                client_instance_id: None,
                device_id: None,
                server_user_id: None,
                server_url: None,
                server_login_identity: None,
                server_cursor: None,
                last_successful_push_at: None,
                last_successful_pull_at: None,
                last_server_error: None,
            },
            local_rows: 0,
        }
    }

    fn update(&mut self, next: Result<LocalSyncState, LocalStoreError>) -> Result<(), LocalStoreError> {
        self.state = next?;
        Ok(())
    }

    fn ensure_client_instance_id(&mut self) -> String {
        let (id, fresh) = ensure_client_instance_id(&self.state);
        if fresh {
            self.update(with_client_instance_id(self.state.clone(), &id)).expect("store id");
        }
        id
    }

    fn set_client_instance_id(&mut self, id: &str) -> Result<(), LocalStoreError> {
        self.update(with_client_instance_id(self.state.clone(), id))
    }

    fn record_device_registration(&mut self, instance: &str, device: &str, user: &str) -> Result<(), LocalStoreError> {
        self.update(with_device_registration(self.state.clone(), instance, device, user))
    }

    fn update_sync_cursor(&mut self, cursor: &str) -> Result<(), LocalStoreError> {
        self.update(with_sync_cursor(self.state.clone(), cursor, "2026-09-06T12:00:00+00:00"))
    }

    fn record_sync_error(&mut self, error: &str) -> Result<(), LocalStoreError> {
        self.update(with_sync_error(self.state.clone(), error))
    }

    fn record_push_success(&mut self) {
        self.state = with_push_success(self.state.clone(), "2026-09-06T12:00:00+00:00");
    }

    fn prepare_login_scope(&mut self, url: &str, login: &str) -> Result<(), LocalStoreError> {
        self.update(prepare_login_scope(&self.state, self.local_rows, url, login))
    }

    fn record_authenticated_device(
        &mut self,
        url: &str,
        login: &str,
        instance: &str,
        device: &str,
        user: &str,
    ) -> Result<(), LocalStoreError> {
        self.update(record_authenticated_device(&self.state, self.local_rows, url, login, instance, device, user))
    }

    fn prepare_server_switch(&mut self, url: &str) -> Result<(), LocalStoreError> {
        self.update(prepare_server_switch(&self.state, self.local_rows, url))
    }

    fn assert_server_scope(&self, url: &str) -> Result<(), LocalStoreError> {
        assert_server_scope(&self.state, self.local_rows, url)
    }
}

#[test]
fn client_instance_id_is_stable_across_calls_and_restarts() {
    let mut store = SyncStore::open();
    let first = store.ensure_client_instance_id();
    let second = store.ensure_client_instance_id();
    assert_eq!(first, second);

    let reopened_state = store.state.clone();
    let mut reopened = SyncStore { state: reopened_state, local_rows: 0 };
    assert_eq!(reopened.ensure_client_instance_id(), first);
}

#[test]
fn set_client_instance_id_overrides_generated_identity() {
    let mut store = SyncStore::open();
    store.set_client_instance_id("fixed-instance-id").expect("set");
    assert_eq!(store.ensure_client_instance_id(), "fixed-instance-id");
}

#[test]
fn record_device_registration_updates_identity_and_error_state() {
    let mut store = SyncStore::open();
    store.record_sync_error("previous failure").expect("record error");
    store.record_device_registration("instance-1", "device-1", "user-1").expect("register");

    let state = &store.state;
    assert_eq!(state.client_instance_id.as_deref(), Some("instance-1"));
    assert_eq!(state.device_id.as_deref(), Some("device-1"));
    assert_eq!(state.server_user_id.as_deref(), Some("user-1"));
    assert_eq!(state.last_server_error, None);
}

#[test]
fn update_sync_cursor_persists_and_clears_error() {
    let mut store = SyncStore::open();
    store.record_sync_error("stale error").expect("error");
    store.update_sync_cursor("v1.AAAAAQ").expect("cursor");

    assert_eq!(store.state.server_cursor.as_deref(), Some("v1.AAAAAQ"));
    assert_eq!(store.state.last_server_error, None);
}

#[test]
fn record_push_success_stamps_timestamp_and_clears_error() {
    let mut store = SyncStore::open();
    store.record_sync_error("stale error").expect("error");
    store.record_push_success();

    assert!(store.state.last_successful_push_at.is_some());
    assert_eq!(store.state.last_server_error, None);
}

#[test]
fn blank_input_is_rejected() {
    let mut store = SyncStore::open();
    assert!(store.set_client_instance_id("   ").is_err());
    assert!(store.update_sync_cursor("").is_err());
    assert!(store.record_sync_error("").is_err());
    assert!(store.record_device_registration(" ", "device", "user").is_err());
}

#[test]
fn login_scope_is_bound_and_rejects_another_account_with_local_rows() {
    let mut store = SyncStore::open();
    store.prepare_login_scope("https://one.example", "alice").expect("reserve scope");
    store
        .record_authenticated_device("https://one.example", "alice", "instance-1", "device-1", "user-1")
        .expect("bind identity");
    store.local_rows = 1;

    store
        .prepare_login_scope("https://one.example", "bob")
        .expect("same-server account switch is checked after auth");
    assert!(store
        .record_authenticated_device("https://one.example", "bob", "instance-1", "device-2", "user-2")
        .is_err());
    assert!(store.prepare_server_switch("https://two.example").is_err());
    assert_eq!(store.state.server_user_id.as_deref(), Some("user-1"));
    assert_eq!(store.state.server_url.as_deref(), Some("https://one.example"));
}

#[test]
fn server_scope_switch_clears_cursor_when_store_is_empty() {
    let mut store = SyncStore::open();
    store.prepare_login_scope("https://one.example", "alice").expect("reserve");
    store
        .record_authenticated_device("https://one.example", "alice", "instance-1", "device-1", "user-1")
        .expect("bind");
    store.update_sync_cursor("v1.AAAAAQ").expect("cursor");
    store.prepare_server_switch("https://two.example").expect("switch empty scope");

    assert_eq!(store.state.server_url.as_deref(), Some("https://two.example"));
    assert_eq!(store.state.server_user_id, None);
    assert_eq!(store.state.device_id, None);
    assert_eq!(store.state.server_cursor, None);
}

#[test]
fn logout_invalidation_blocks_worker_scope_before_network_result() {
    let mut store = SyncStore::open();
    store.prepare_login_scope("https://one.example", "alice").expect("reserve");
    store
        .record_authenticated_device("https://one.example", "alice", "instance-1", "device-1", "user-1")
        .expect("bind");
    store.update_sync_cursor("v1.AAAAAQ").expect("cursor");

    store.state = invalidate_authenticated_scope(&store.state);
    assert_eq!(store.state.server_url.as_deref(), Some("https://one.example"));
    assert_eq!(store.state.server_user_id, None);
    assert_eq!(store.state.server_cursor, None);
    assert!(store.assert_server_scope("https://one.example").is_err());
}
