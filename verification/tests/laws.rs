use skillhive::sync::{PushProgress, SyncCycleError};
use skillhive::sync_pull::PullSummary;
use skillhive::credentials::{
    delete_outcome, read_outcome, service_for_server, write_outcome, CredentialStore,
    CredentialStoreError, KeyringFault,
};
use skillhive::deployment::{
    DeploymentEngine, DeploymentJournal, DeploymentPhase, RecoveryOutcome, RecoveryPlan, RecoveryReport,
};
use skillhive::digest::hash_bytes;
use skillhive::blob_store::temporary_blob_name;
use skillhive::journal::{latest_record, JournalLine, JournalReadError};
use skillhive::local_store::catalog::{
    cache_policy_from_stored, catalog_removal, hydrated_skill, validate_cache_policy, LocalCachePolicy,
};
use skillhive::local_store::conflicts::{list_conflicts, supersede_conflict_chain};
use skillhive::local_store::entitlements::{
    entitlement_allows_offline_use, parse_rfc3339, rfc3339_text, StoredEntitlement, UtcInstant,
};
use skillhive::local_store::mutations::{commit_skill_edit, list_dispatchable_mutations};
use skillhive::local_store::outcomes::{
    apply_mutation_outcome, backoff_seconds, MutationOutcome, OutcomeTarget, OutcomeWrite,
};
use skillhive::local_store::prefs::{normalize_profile_ids, parse_profile_ids, pref_row};
use skillhive::local_store::scope::{assert_server_scope, invalidate_authenticated_scope};
use skillhive::local_store::sync_state::{with_push_success, with_sync_cursor, with_sync_error};
use skillhive::local_store::{
    migration_plan, CommitSkillEdit, LocalMutation, LocalSkill, LocalStoreError, LocalSyncState,
    MutationOperation, MutationState, SkillSyncState, LATEST_SCHEMA_VERSION,
};
use skillhive::snapshot_verifier::{
    check_file, check_hash, sort_by_path, stable_file_hash, CollectedFile, FileStat,
    SnapshotVerificationError,
};
use skillhive::skill_snapshot::SkillSnapshotFile;
use skillhive::telemetry::{event_line, json_escape, message, needs_rollover, MAX_LOG_BYTES};
use skillhive::uninstall::{
    RecoveryDisposition, UninstallEngine, UninstallError, UninstallJournal, UninstallPhase,
    UninstallRequest, UninstallStart,
};
use skillhive::workspace::zip::{check_entry, EntryAction, ZipError, MAX_ENTRY_BYTES, MAX_TOTAL_BYTES};

const ABC_SHA256: &str = "sha256:ba7816bf8f01cfea414140de5dae2223b00361a396177a9cb410ff61f20015ad";

fn edit(skill_id: &str, operation: MutationOperation) -> CommitSkillEdit {
    CommitSkillEdit {
        skill_id: skill_id.to_owned(),
        remote_id: Some("remote-1".to_owned()),
        name: "Demo".to_owned(),
        slug: "demo".to_owned(),
        workspace_path: "/tmp/ws/demo".to_owned(),
        blob_hash: "sha256:local".to_owned(),
        base_revision: Some(1),
        operation,
    }
}

fn skill(id: &str, state: SkillSyncState) -> LocalSkill {
    LocalSkill {
        id: id.to_owned(),
        remote_id: Some(format!("remote-{id}")),
        name: "Demo".to_owned(),
        slug: "demo".to_owned(),
        workspace_path: "/tmp/ws/demo".to_owned(),
        current_blob_hash: "sha256:local".to_owned(),
        remote_blob_hash: Some("sha256:remote".to_owned()),
        remote_revision: Some(3),
        sync_state: state,
        pinned: false,
    }
}

fn mutation(id: &str, skill_id: &str, seq: u64, state: MutationState) -> LocalMutation {
    LocalMutation {
        id: id.to_owned(),
        skill_id: skill_id.to_owned(),
        local_sequence: seq,
        operation: MutationOperation::Update,
        base_revision: Some(2),
        payload_hash: "sha256:local".to_owned(),
        state,
        retry_count: 0,
        next_attempt_at: None,
        last_attempt_at: None,
        server_error_code: None,
        server_error_details: None,
        acknowledged_remote_revision: None,
        acknowledged_remote_id: None,
        last_error: None,
    }
}

fn empty_sync_state() -> LocalSyncState {
    LocalSyncState {
        protocol_version: 1,
        client_instance_id: Some("client-1".to_owned()),
        device_id: Some("device-1".to_owned()),
        server_user_id: Some("user-1".to_owned()),
        server_url: Some("http://127.0.0.1:8000".to_owned()),
        server_login_identity: Some("me@example.com".to_owned()),
        server_cursor: Some("v1.AAAA".to_owned()),
        last_successful_push_at: None,
        last_successful_pull_at: None,
        last_server_error: Some("old failure".to_owned()),
    }
}

#[test]
fn sha256_identifier_of_known_bytes() {
    assert_eq!(hash_bytes(b"abc"), ABC_SHA256);
}

#[test]
fn fresh_identifiers_are_tokens_and_differ() {
    let (_, first) = commit_skill_edit(edit("skill-1", MutationOperation::Create), None, 0).expect("first");
    let (_, second) = commit_skill_edit(edit("skill-2", MutationOperation::Create), None, 0).expect("second");
    let (a, b) = (first.id, second.id);
    assert!(!a.is_empty());
    assert!(a.chars().all(|c| c.is_ascii_alphanumeric() || c == '-'));
    assert_ne!(a, b);
}

#[test]
fn backoff_doubles_until_its_ceiling() {
    for retry in 0..10u32 {
        assert!(backoff_seconds(retry) <= backoff_seconds(retry + 1));
    }
    assert_eq!(backoff_seconds(2), 4);
    assert_eq!(backoff_seconds(7), 64);
}

#[test]
fn replayed_ack_changes_nothing() {
    let target = OutcomeTarget {
        skill_id: "skill-1".to_owned(),
        state: "acked".to_owned(),
        retry_count: 0,
    };
    let outcome = MutationOutcome {
        mutation_id: "m-1".to_owned(),
        status: "acked".to_owned(),
        remote_skill_id: Some("remote-1".to_owned()),
        revision: Some(4),
        conflict_head_revision: None,
        conflict_package_manifest_hash: None,
        error_code: None,
        message: None,
    };
    let (write, applied) =
        apply_mutation_outcome(Some(&target), Some(SkillSyncState::Synced), false, &outcome).expect("apply");
    assert!(matches!(write, OutcomeWrite::Unchanged));
    assert_eq!(applied.mutation_state, MutationState::Acked);
}

#[test]
fn unknown_mutation_outcome_is_refused() {
    let outcome = MutationOutcome::transport_error("missing", "NETWORK", "offline");
    assert!(apply_mutation_outcome(None, None, false, &outcome).is_err());
}

#[test]
fn later_mutation_waits_for_earlier_one() {
    let (_s, first) = commit_skill_edit(edit("skill-1", MutationOperation::Create), None, 0).expect("first");
    let (existing, _) = commit_skill_edit(edit("skill-1", MutationOperation::Create), None, 0).expect("row");
    let (_s2, second) =
        commit_skill_edit(edit("skill-1", MutationOperation::Update), Some(&existing), 1).expect("second");
    assert_eq!(first.local_sequence, 1);
    assert_eq!(second.local_sequence, 2);
    let all = vec![first.clone(), second.clone()];
    let ready = list_dispatchable_mutations(&all, &[true, true], 10);
    assert_eq!(ready.len(), 1);
    assert_eq!(ready[0].id, first.id);
    let mut acked = first.clone();
    acked.state = MutationState::Acked;
    let ready = list_dispatchable_mutations(&[acked, second.clone()], &[true, true], 10);
    assert_eq!(ready.len(), 1);
    assert_eq!(ready[0].id, second.id);
}

#[test]
fn recovery_with_backup_never_discards_it() {
    let engine = DeploymentEngine::open("/tmp/journal", true).expect("root");
    let journal = DeploymentJournal {
        transaction_id: "tx-1".to_owned(),
        skill_id: "skill-1".to_owned(),
        agent_profile_id: "p".to_owned(),
        snapshot_hash: "sha256:x".to_owned(),
        skill_root: "/agents/skills".to_owned(),
        destination: "/agents/skills/demo".to_owned(),
        staging: "/agents/skills/.skillhive-stage-tx-1".to_owned(),
        backup: "/agents/skills/.skillhive-backup-tx-1".to_owned(),
        replaced_existing: true,
        phase: DeploymentPhase::OldMoved,
    };
    assert_eq!(
        engine.recover_one(&journal, false, true, true).expect("plan"),
        RecoveryPlan::ActivateVerifiedStaging
    );
    assert_eq!(
        engine.recover_one(&journal, false, false, true).expect("plan"),
        RecoveryPlan::RestoreBackup
    );
    let intent = DeploymentJournal { phase: DeploymentPhase::Intent, replaced_existing: false, ..journal };
    assert_eq!(
        engine.recover_one(&intent, false, true, false).expect("plan"),
        RecoveryPlan::Discard { remove_staging: true }
    );
    assert!(engine.recover_one(&intent, false, false, true).is_err());
}

#[test]
fn offline_use_ends_at_expiry() {
    let lease = StoredEntitlement {
        skill_id: "skill-1".to_owned(),
        lease: "l".to_owned(),
        permission_level: "use".to_owned(),
        offline_policy: "lease".to_owned(),
        offline_ttl_hours: Some(1),
        issued_at: Some("2026-01-01T00:00:00Z".to_owned()),
        expires_at: Some("2026-01-01T01:00:00Z".to_owned()),
    };
    let expiry = parse_rfc3339("2026-01-01T01:00:00Z").expect("parse");
    let before = UtcInstant { seconds: expiry.seconds - 1, nanos: 0 };
    assert!(entitlement_allows_offline_use(Some(&lease), before));
    assert!(!entitlement_allows_offline_use(Some(&lease), expiry));
    assert!(!entitlement_allows_offline_use(None, before));
}

#[test]
fn rfc3339_text_round_trips() {
    let t = parse_rfc3339("2026-09-06T12:00:00Z").expect("parse");
    assert_eq!(t.seconds, 1_788_696_000);
    let text = rfc3339_text(t).expect("text");
    assert_eq!(parse_rfc3339(&text).expect("again"), t);
    assert!(parse_rfc3339("not-a-timestamp").is_err());
}

#[test]
fn logout_blocks_the_worker_scope() {
    let state = empty_sync_state();
    assert!(assert_server_scope(&state, 1, "http://127.0.0.1:8000").is_ok());
    let logged_out = invalidate_authenticated_scope(&state);
    assert!(assert_server_scope(&logged_out, 1, "http://127.0.0.1:8000").is_err());
    assert_eq!(logged_out.server_url, state.server_url);
}

#[test]
fn sync_state_writes_clear_errors() {
    let state = empty_sync_state();
    let pulled = with_sync_cursor(state.clone(), "v1.BBBB", "2026-01-01 00:00:00").expect("cursor");
    assert_eq!(pulled.server_cursor.as_deref(), Some("v1.BBBB"));
    assert_eq!(pulled.last_server_error, None);
    assert!(with_sync_cursor(state.clone(), " ", "now").is_err());
    let failed = with_sync_error(pulled.clone(), "boom").expect("error");
    assert_eq!(failed.server_cursor, pulled.server_cursor);
    let pushed = with_push_success(failed, "2026-01-01 00:00:01");
    assert_eq!(pushed.last_server_error, None);
    assert_eq!(pushed.last_successful_push_at.as_deref(), Some("2026-01-01 00:00:01"));
}

#[test]
fn default_targets_roundtrip_and_dedupe() {
    let (normalized, text) = pref_row(&[
        "agent-a:default".to_owned(),
        "agent-b:default".to_owned(),
        "agent-a:default".to_owned(),
        "  custom:my-dir:configured  ".to_owned(),
    ])
    .expect("row");
    assert_eq!(
        normalized,
        vec![
            "agent-a:default".to_owned(),
            "agent-b:default".to_owned(),
            "custom:my-dir:configured".to_owned()
        ]
    );
    assert_eq!(parse_profile_ids(&text).expect("read back"), normalized);
    assert_eq!(normalize_profile_ids(&normalized).expect("again"), normalized);
    assert!(matches!(parse_profile_ids("{not json"), Err(LocalStoreError::InvalidPersistedState(_))));
}

#[test]
fn preference_limits_are_enforced() {
    let many: Vec<String> = (0..65).map(|i| format!("p{i}")).collect();
    assert!(normalize_profile_ids(&many).is_err());
    assert!(normalize_profile_ids(&["x".repeat(129)]).is_err());
    assert!(normalize_profile_ids(&["x".repeat(128)]).is_ok());
}

#[test]
fn conflicts_list_the_head_of_each_chain_and_resolution_clears_them() {
    let skills = vec![skill("a", SkillSyncState::Conflict), skill("b", SkillSyncState::Synced)];
    let muts = vec![
        mutation("m3", "a", 3, MutationState::Conflict),
        mutation("m2", "a", 2, MutationState::Conflict),
        mutation("m1", "a", 1, MutationState::Acked),
    ];
    let records = list_conflicts(&skills, &muts);
    assert_eq!(records.len(), 1);
    assert_eq!(records[0].mutation_id, "m2");
    assert_eq!(records[0].remote_head_revision, Some(3));
    let after = supersede_conflict_chain(&muts, "a");
    assert!(after.iter().all(|m| m.state == MutationState::Acked));
    assert_eq!(after[0].server_error_code.as_deref(), Some("CONFLICT_RESOLVED"));
    assert!(list_conflicts(&skills, &after).is_empty());
}

#[test]
fn hydration_promotes_only_the_expected_head() {
    let remote = skill("s", SkillSyncState::RemoteOnly);
    let n = hydrated_skill("s", Some(remote.clone()), "sha256:local", "/ws/s").expect("hydrate");
    assert_eq!(n.sync_state, SkillSyncState::Synced);
    assert_eq!(n.workspace_path, "/ws/s");
    assert!(matches!(
        hydrated_skill("s", Some(remote), "sha256:other", "/ws/s"),
        Err(LocalStoreError::InvalidInput(_))
    ));
    assert!(matches!(hydrated_skill("s", None, "h", "/ws"), Err(LocalStoreError::SkillNotFound(_))));
}

#[test]
fn catalog_removal_is_guarded_by_hash_and_path() {
    assert_eq!(catalog_removal("s", "p", None, "h", "/t").expect("absent"), false);
    assert_eq!(
        catalog_removal("s", "p", Some(("h".to_owned(), "/t".to_owned())), "h", "/t").expect("match"),
        true
    );
    assert!(matches!(
        catalog_removal("s", "p", Some(("h2".to_owned(), "/t".to_owned())), "h", "/t"),
        Err(LocalStoreError::DeploymentCatalogChanged { .. })
    ));
}

#[test]
fn cache_policy_bounds() {
    assert!(validate_cache_policy(LocalCachePolicy { max_bytes: 0 }).is_err());
    assert!(validate_cache_policy(LocalCachePolicy { max_bytes: u64::MAX }).is_err());
    assert_eq!(
        validate_cache_policy(LocalCachePolicy { max_bytes: 123_456 }).expect("ok").max_bytes,
        123_456
    );
    assert_eq!(cache_policy_from_stored(5).expect("ok").max_bytes, 5);
    assert!(matches!(cache_policy_from_stored(-1), Err(LocalStoreError::InvalidPersistedState(_))));
}

#[test]
fn migrations_back_up_only_existing_stores() {
    let fresh = migration_plan(0, &vec![1]).expect("fresh");
    assert!(!fresh.backup);
    assert_eq!(fresh.versions, vec![1]);
    let current = migration_plan(LATEST_SCHEMA_VERSION, &vec![1]).expect("current");
    assert!(current.versions.is_empty());
    assert!(!current.backup);
    let behind = migration_plan(1, &vec![1, 2, 3]);
    assert!(behind.is_ok());
    let behind = behind.unwrap();
    assert!(behind.backup);
    assert_eq!(behind.versions, vec![2, 3]);
    let newer = migration_plan(9, &vec![1]).expect_err("newer");
    assert_eq!(newer.message(), "database schema version 9 is newer than supported version 1");
}

#[test]
fn verification_pairs_files_in_path_order() {
    let sorted = sort_by_path(vec![
        CollectedFile { path: "scripts/run.sh".to_owned(), location: "/d/scripts/run.sh".to_owned() },
        CollectedFile { path: "SKILL.md".to_owned(), location: "/d/SKILL.md".to_owned() },
        CollectedFile { path: "notes.md".to_owned(), location: "/d/notes.md".to_owned() },
    ]);
    let paths: Vec<&str> = sorted.iter().map(|f| f.path.as_str()).collect();
    assert_eq!(paths, vec!["SKILL.md", "notes.md", "scripts/run.sh"]);
    let expected = SkillSnapshotFile { path: "SKILL.md".to_owned(), blob_hash: ABC_SHA256.to_owned(), size_bytes: 3 };
    let stat = FileStat { is_symlink: false, is_file: true, len: 3 };
    assert!(check_file(&expected, &sorted[0], stat).is_ok());
    assert!(matches!(
        check_file(&expected, &sorted[1], stat),
        Err(SnapshotVerificationError::PathMismatch { .. })
    ));
    assert!(matches!(
        check_file(&expected, &sorted[0], FileStat { len: 4, ..stat }),
        Err(SnapshotVerificationError::SizeMismatch { expected: 3, actual: 4, .. })
    ));
    let hash = stable_file_hash("/d/SKILL.md", 3, stat, b"abc", stat).expect("hash");
    assert!(check_hash(&expected, hash).is_ok());
    assert!(matches!(
        stable_file_hash("/d/SKILL.md", 3, stat, b"abcd", stat),
        Err(SnapshotVerificationError::SourceChangedDuringVerification(_))
    ));
    assert!(matches!(
        check_hash(&expected, "sha256:other".to_owned()),
        Err(SnapshotVerificationError::HashMismatch { .. })
    ));
}

fn uninstall_journal(phase: UninstallPhase) -> UninstallJournal {
    UninstallJournal {
        transaction_id: "tx-9".to_owned(),
        skill_id: "s".to_owned(),
        agent_profile_id: "p".to_owned(),
        skill_root: "/agents/skills".to_owned(),
        target_path: "/agents/skills/demo".to_owned(),
        quarantined_path: "/agents/skills/.skillhive-remove-tx-9".to_owned(),
        phase,
    }
}

#[test]
fn uninstall_rollback_and_finalize_decisions() {
    let engine = UninstallEngine::open("/tmp/uninstall", true).expect("root");
    let moved = uninstall_journal(UninstallPhase::Moved);
    assert_eq!(engine.rollback("tx-9", &moved, false, true).expect("rollback"), true);
    assert_eq!(engine.rollback("tx-9", &moved, true, false).expect("rollback"), false);
    assert!(matches!(
        engine.rollback("tx-9", &moved, false, false),
        Err(UninstallError::UnrecoverableTransaction(_))
    ));
    assert_eq!(engine.finalize("tx-9", &moved, false, true).expect("finalize"), true);
    assert!(matches!(
        engine.finalize("tx-9", &moved, true, false),
        Err(UninstallError::CatalogCommitNotReflected(_))
    ));
    assert!(matches!(
        engine.finalize("tx-8", &moved, false, true),
        Err(UninstallError::InvalidJournal(_))
    ));
    let intent = uninstall_journal(UninstallPhase::Intent);
    assert!(matches!(
        skillhive::uninstall::recovery_disposition(&intent, true, false),
        Ok(RecoveryDisposition::CleanIntent)
    ));
    assert!(matches!(
        skillhive::uninstall::recovery_disposition(&moved, false, false),
        Ok(RecoveryDisposition::Pending(_))
    ));
    let text = UninstallError::AmbiguousFilesystemState("tx-9".to_owned()).message();
    assert_eq!(text, "uninstall transaction tx-9 has ambiguous filesystem state");
}

#[test]
fn zip_extraction_is_bounded() {
    let (action, total) = check_entry("/stage", "SKILL.md", false, None, 10, 0).expect("ok");
    assert_eq!(action, EntryAction::WriteFile("/stage/SKILL.md".to_owned()));
    assert_eq!(total, 10);
    assert!(matches!(
        check_entry("/stage", "big.bin", false, None, MAX_ENTRY_BYTES + 1, 0),
        Err(ZipError::EntryTooLarge { .. })
    ));
    assert!(matches!(
        check_entry("/stage", "x.bin", false, None, 2, MAX_TOTAL_BYTES - 1),
        Err(ZipError::TotalTooLarge)
    ));
    assert!(matches!(
        check_entry("/stage", "link", false, Some(0o120777), 1, 0),
        Err(ZipError::UnsafeEntry(_))
    ));
    let (action, _) = check_entry("/stage", "scripts/", true, None, 0, 0).expect("dir");
    assert!(matches!(action, EntryAction::CreateDir(_)));
}

#[test]
fn event_lines_are_escaped_json_objects() {
    let line = event_line(
        "2026-01-01T00:00:00Z",
        "cycle_end",
        &vec![("cycle".to_owned(), "abc".to_owned()), ("note".to_owned(), "a\"b".to_owned())],
    );
    assert_eq!(
        line,
        "{\"ts\":\"2026-01-01T00:00:00Z\",\"event\":\"cycle_end\",\"cycle\":\"abc\",\"note\":\"a\\\"b\"}"
    );
    assert_eq!(message("t", "only"), "{\"ts\":\"t\",\"event\":\"only\"}");
    let escaped = json_escape("\u{0}\u{1f}x");
    assert!(escaped.chars().all(|c| c as u32 >= 0x20));
    assert!(needs_rollover(MAX_LOG_BYTES + 1));
    assert!(!needs_rollover(MAX_LOG_BYTES));
}

#[test]
fn journals_read_the_last_complete_record() {
    let lines = vec![
        JournalLine::Record(1),
        JournalLine::Blank,
        JournalLine::Record(2),
        JournalLine::Torn("eof".to_owned()),
        JournalLine::Record(3),
    ];
    assert_eq!(latest_record(lines), Ok(2));
    let torn_first: Vec<JournalLine<u8>> = vec![JournalLine::Torn("bad".to_owned())];
    assert_eq!(latest_record(torn_first), Err(JournalReadError::Torn("bad".to_owned())));
    let empty: Vec<JournalLine<u8>> = vec![JournalLine::Blank];
    assert_eq!(latest_record(empty), Err(JournalReadError::Empty));
}

#[test]
fn service_name_is_the_prefix_of_the_address_digest() {
    assert_eq!(
        service_for_server("http://127.0.0.1:8000"),
        "app.skillhive.desktop:63767aa5615dabad"
    );
    assert_eq!(
        service_for_server("  https://skillhive.example.com/ "),
        "app.skillhive.desktop:3111ea36d23486ae"
    );
}

#[test]
fn service_name_ignores_address_case() {
    assert_eq!(
        service_for_server("HTTPS://SkillHive.Example.COM"),
        service_for_server("https://skillhive.example.com")
    );
}

#[test]
fn temporary_names_are_fresh_and_reserved() {
    let first = skillhive::blob_store::temporary_blob_name();
    let second = skillhive::blob_store::temporary_blob_name();
    assert_ne!(first, second);
    assert!(first.starts_with(".skillhive-blob-") && first.ends_with(".tmp"));
    let created = skillhive::workspace::temporary_file_name();
    assert!(created.starts_with(".skillhive-create-") && created.ends_with(".tmp"));
}

#[test]
fn keyring_answers_map_to_credential_errors() {
    assert!(matches!(
        read_outcome("refresh-token", Ok(Err(KeyringFault::NoEntry))),
        Err(CredentialStoreError::NotFound { account }) if account == "refresh-token"
    ));
    assert_eq!(read_outcome("a", Ok(Ok("secret".to_owned()))).unwrap(), "secret");
    assert!(matches!(
        write_outcome("a", Ok(Err(KeyringFault::NoStorageAccess))),
        Err(CredentialStoreError::Backend(text)) if text == "credential store access denied"
    ));
    assert!(matches!(
        write_outcome("a", Err("no backend".to_owned())),
        Err(CredentialStoreError::Backend(text)) if text == "credential entry unavailable: no backend"
    ));
    assert!(delete_outcome("a", Ok(Err(KeyringFault::NoEntry))).is_ok());
    assert!(matches!(
        delete_outcome("a", Ok(Err(KeyringFault::Invalid { message: "bad".to_owned() }))),
        Err(CredentialStoreError::Backend(text)) if text == "invalid credential input: bad"
    ));
}

fn test_service() -> String {
    format!("app.skillhive.test{}", temporary_blob_name())
}

#[test]
fn missing_credential_is_typed_not_found() {
    let store = CredentialStore::new(&test_service());
    let error = store.get_secret("absent").expect_err("must be absent");
    assert!(matches!(error, CredentialStoreError::NotFound { .. }));
}

#[test]
fn delete_is_idempotent() {
    let store = CredentialStore::new(&test_service());
    store.delete_secret("never-stored").expect("absent delete");
    store.set_secret("transient", "value").expect("set");
    store.delete_secret("transient").expect("first delete");
    store.delete_secret("transient").expect("second delete");
    assert!(matches!(store.get_secret("transient"), Err(CredentialStoreError::NotFound { .. })));
}

#[test]
fn prepared_new_install_rolls_back_on_recovery() {
    let engine = DeploymentEngine::open("/tmp/skillhive-journals", true).expect("root");
    let root = "/tmp/skillhive-recovery/skills";
    let journal = DeploymentJournal {
        transaction_id: "tx1".to_owned(),
        skill_id: "skill-1".to_owned(),
        agent_profile_id: "test".to_owned(),
        snapshot_hash: "sha256:x".to_owned(),
        skill_root: root.to_owned(),
        destination: format!("{root}/demo"),
        staging: format!("{root}/.skillhive-stage-tx1"),
        backup: format!("{root}/.skillhive-backup-tx1"),
        replaced_existing: false,
        phase: DeploymentPhase::Prepared,
    };
    // The staged copy exists; nothing was activated and nothing was moved aside.
    let plan = engine.recover_one(&journal, false, true, false).expect("plan");
    assert_eq!(plan, RecoveryPlan::Discard { remove_staging: true });

    let mut report = RecoveryReport::new();
    report.record(Ok(RecoveryOutcome::RolledBack));
    assert_eq!(report.rolled_back, 1);
    assert!(report.catalog_commits.is_empty());
}

#[test]
fn begin_then_rollback_restores_target() {
    let root = "/tmp/skillhive-uninstall/skills";
    let target = format!("{root}/demo");
    let engine = UninstallEngine::open("/tmp/skillhive-uninstall/journals", true).expect("root");
    let start = engine
        .begin(
            &UninstallRequest {
                skill_id: "skill-1".to_owned(),
                agent_profile_id: "custom:test".to_owned(),
                skill_root: root.to_owned(),
                target_path: target.clone(),
            },
            true,
        )
        .expect("begin");
    let intent = match start {
        UninstallStart::Quarantine(journal) => journal,
        UninstallStart::Absent(_) => panic!("an existing target is quarantined"),
    };
    assert!(intent.quarantined_path.starts_with(&format!("{root}/.skillhive-remove-")));
    // The target was moved into its quarantine.
    let moved = intent.moved();
    assert_eq!(moved.phase, UninstallPhase::Moved);
    // Rolling back moves the quarantine back to the target.
    assert!(engine.rollback(&moved.transaction_id, &moved, false, true).expect("rollback"));
}

#[test]
fn events_append_json_lines() {
    let fields = vec![("cycle".to_owned(), "abc".to_owned()), ("pushed".to_owned(), "2".to_owned())];
    let mut text = event_line("2026-01-01T00:00:00Z", "cycle_end", &fields);
    text.push('\n');
    text.push_str(&message("2026-01-01T00:00:01Z", "message_only"));
    text.push('\n');
    let mut lines = text.lines();
    let first = lines.next().expect("first line");
    let second = lines.next().expect("second line");
    let parsed: serde_json::Value = serde_json::from_str(first).expect("line 1 parses");
    assert_eq!(parsed["event"], "cycle_end");
    assert_eq!(parsed["cycle"], "abc");
    assert_eq!(parsed["pushed"], "2");
    assert!(parsed.get("ts").is_some());
    let parsed2: serde_json::Value = serde_json::from_str(second).expect("line 2 parses");
    assert_eq!(parsed2["event"], "message_only");
}


#[test]
fn normalized_addresses_normalize_to_themselves() {
    let once = skillhive::server_config::normalize_server_url("  https://hive.example.com///").expect("valid");
    assert_eq!(once, "https://hive.example.com");
    assert_eq!(skillhive::server_config::normalize_server_url(&once).expect("again"), once);
    // White space left in front of the removed `/` characters is the one exception.
    let spaced = skillhive::server_config::normalize_server_url(" http://a /").expect("valid");
    assert_eq!(spaced, "http://a ");
    assert_eq!(skillhive::server_config::normalize_server_url(&spaced).expect("again"), "http://a");
}

#[test]
fn push_stops_at_the_first_failure_and_then_fails() {
    let mut push = PushProgress::new();
    assert!(push.dispatches_next());
    push.record(Ok(()));
    push.record(Err(SyncCycleError::Failed { stage: "mutation submit", source: "boom".to_owned() }));
    assert!(!push.dispatches_next());
    assert!(!push.succeeded());
    let report = push.report(&PullSummary::new());
    assert_eq!(report.pushed, 1);
    assert!(report.pulled);
    assert_eq!(report.stopped_reason.as_deref(), Some("mutation submit: boom"));
}
