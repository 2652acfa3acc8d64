use skillhive::blob_store::{BlobStore, BlobStoreError};
use skillhive::credentials::{service_for_server, DEFAULT_SERVICE};
use skillhive::local_store::catalog::deployment_record;
use skillhive::local_store::conflicts::{
    list_conflicts, resolve_keep_local, resolve_keep_remote, supersede_conflict_chain,
};
use skillhive::local_store::entitlements::{apply_entitlement, EntitlementPayload, UtcInstant};
use skillhive::local_store::mutations::{commit_skill_edit, list_dispatchable_mutations};
use skillhive::local_store::outcomes::{apply_mutation_outcome, MutationOutcome, OutcomeTarget};
use skillhive::local_store::prefs::{normalize_profile_ids, validate_skill_pref_key};
use skillhive::local_store::{
    CommitSkillEdit, DeploymentState, LocalSkill, LocalStoreError, MutationOperation, MutationState,
    LocalMutation, RecordDeployment, SkillSyncState,
};
use skillhive::skill_snapshot::{
    validate_manifest, SkillSnapshotFile, SkillSnapshotManifest, SnapshotError, SnapshotPolicy,
    SNAPSHOT_FORMAT_VERSION,
};
use skillhive::workspace::import::{validate_directory_name, AgentSkillImportError};
use skillhive::workspace::WorkspaceStore;

fn sample_edit(skill_id: &str) -> CommitSkillEdit {
    CommitSkillEdit {
        skill_id: skill_id.to_owned(),
        remote_id: None,
        name: "Code Review".to_owned(),
        slug: "code-review".to_owned(),
        workspace_path: "/tmp/workspace/code-review".to_owned(),
        blob_hash: "sha256:abc".to_owned(),
        base_revision: None,
        operation: MutationOperation::Create,
    }
}

/// The conflicted update that put `conflicted_skill` into conflict.
fn conflicted_update() -> LocalMutation {
    let edit = CommitSkillEdit {
        skill_id: "skill-1".to_owned(),
        remote_id: Some("remote-1".to_owned()),
        name: "Conflicted".to_owned(),
        slug: "conflicted".to_owned(),
        workspace_path: "/tmp/skillhive-conflict".to_owned(),
        blob_hash: "sha256:local".to_owned(),
        base_revision: Some(1),
        operation: MutationOperation::Update,
    };
    let (_, mut mutation) = commit_skill_edit(edit, None, 0).expect("commit edit");
    mutation.state = MutationState::Conflict;
    mutation
}

fn conflicted_skill(remote_revision: Option<i64>, remote_blob_hash: Option<&str>) -> LocalSkill {
    LocalSkill {
        id: "skill-1".to_owned(),
        remote_id: Some("remote-1".to_owned()),
        name: "Conflicted".to_owned(),
        slug: "conflicted".to_owned(),
        workspace_path: "/tmp/skillhive-conflict".to_owned(),
        current_blob_hash: "sha256:local".to_owned(),
        remote_blob_hash: remote_blob_hash.map(str::to_owned),
        remote_revision,
        sync_state: SkillSyncState::Conflict,
        pinned: false,
    }
}

#[test]
fn rejects_noncanonical_hashes() {
    let store = BlobStore::open("/tmp/blobs");
    assert!(matches!(store.path_for_hash("abc123"), Err(BlobStoreError::InvalidHash(_))));
    assert!(matches!(
        store.path_for_hash("sha256:AAAAAAAAAAAAAAAAAAAAAAAAAAAAAAAAAAAAAAAAAAAAAAAAAAAAAAAAAAAAAAAA"),
        Err(BlobStoreError::InvalidHash(_))
    ));
}

#[test]
fn server_namespaces_are_stable_and_distinct() {
    let first = service_for_server("http://127.0.0.1:8000");
    let same = service_for_server("http://127.0.0.1:8000/");
    let other = service_for_server("https://skillhive.example.com");
    assert_eq!(first, same, "trailing slash must not change the namespace");
    assert_ne!(first, other);
    assert!(first.starts_with(DEFAULT_SERVICE));
    assert!(!first.contains("127.0.0.1"), "raw address must not leak");
}

#[test]
fn manifest_rejects_parent_traversal() {
    let manifest = SkillSnapshotManifest {
        format_version: SNAPSHOT_FORMAT_VERSION,
        files: vec![SkillSnapshotFile {
            path: "../escape".to_owned(),
            blob_hash: format!("sha256:{}", "a".repeat(64)),
            size_bytes: 1,
        }],
    };
    assert!(matches!(
        validate_manifest(&manifest, SnapshotPolicy::default()),
        Err(SnapshotError::InvalidManifestPath(_))
    ));
}

#[test]
fn manifest_limits_are_enforced_before_materialization() {
    let manifest = SkillSnapshotManifest {
        format_version: SNAPSHOT_FORMAT_VERSION,
        files: vec![SkillSnapshotFile {
            path: "SKILL.md".to_owned(),
            blob_hash: format!("sha256:{}", "a".repeat(64)),
            size_bytes: 10,
        }],
    };
    let policy = SnapshotPolicy {
        max_files: 10,
        max_file_bytes: 5,
        max_total_bytes: 100,
    };
    assert!(matches!(
        validate_manifest(&manifest, policy),
        Err(SnapshotError::FileTooLarge { .. })
    ));
}

#[test]
fn traversal_directory_is_rejected_before_filesystem_access() {
    assert!(matches!(
        validate_directory_name("../escape"),
        Err(AgentSkillImportError::InvalidDirectoryName(_))
    ));
}

#[test]
fn logical_ids_cannot_escape_workspace_root() {
    let workspaces = WorkspaceStore::open("/tmp/workspaces", true).expect("root");
    let path = workspaces.path_for_skill("../../etc/passwd").expect("path");
    let rest = path
        .strip_prefix("/tmp/workspaces/")
        .expect("inside the workspace root");
    assert_eq!(rest.len(), 64);
    assert!(!rest.contains('/'));
    assert!(rest.chars().all(|c| c.is_ascii_hexdigit()));
}

#[test]
fn keep_local_requires_explicit_confirmation() {
    let error = resolve_keep_local("skill-1", false, Some(conflicted_skill(Some(7), Some("sha256:remote"))), 1)
        .expect_err("must refuse");
    assert!(matches!(error, LocalStoreError::InvalidInput(_)));
}

#[test]
fn keep_local_refuses_unknown_remote_head() {
    let error = resolve_keep_local("skill-1", true, Some(conflicted_skill(None, Some("sha256:remote"))), 1)
        .expect_err("must refuse");
    assert!(matches!(error, LocalStoreError::InvalidInput(_)));
}

#[test]
fn keep_local_requeues_update_against_remote_head() {
    let plan = resolve_keep_local("skill-1", true, Some(conflicted_skill(Some(7), Some("sha256:remote"))), 1)
        .expect("keep local");
    assert_eq!(plan.skill.sync_state, SkillSyncState::Dirty);
    assert_eq!(plan.skill.remote_revision, Some(7));
    assert_eq!(plan.mutation.operation, MutationOperation::Update);
    assert_eq!(plan.mutation.base_revision, Some(7));
    assert_eq!(plan.mutation.payload_hash, "sha256:local");
    assert_eq!(plan.mutation.state, MutationState::Pending);
    assert_eq!(plan.mutation.local_sequence, 2);
    assert_eq!(plan.applied.new_mutation_id.as_deref(), Some(plan.mutation.id.as_str()));
    assert_eq!(plan.applied.skill_state, SkillSyncState::Dirty);

    // The store retires the conflicted chain and queues the new update.
    let mut mutations = supersede_conflict_chain(&vec![conflicted_update()], "skill-1");
    mutations.push(plan.mutation.clone());
    let due = vec![true; mutations.len()];
    let dispatchable = list_dispatchable_mutations(&mutations, &due, 10);
    assert_eq!(dispatchable.len(), 1);
    assert_eq!(dispatchable[0].operation, MutationOperation::Update);
    assert_eq!(dispatchable[0].base_revision, Some(7));
    assert_eq!(dispatchable[0].payload_hash, "sha256:local");
    assert!(list_conflicts(&vec![plan.skill.clone()], &mutations).is_empty());
}

#[test]
fn keep_remote_refuses_unconfirmed_call() {
    let error = resolve_keep_remote("skill-1", false, Some(conflicted_skill(Some(7), Some("sha256:remote"))))
        .expect_err("must refuse");
    assert!(matches!(error, LocalStoreError::InvalidInput(_)));
}

#[test]
fn keep_remote_refuses_unknown_remote_package() {
    let error = resolve_keep_remote("skill-1", true, Some(conflicted_skill(Some(7), None)))
        .expect_err("must refuse without remote package hash");
    assert!(matches!(error, LocalStoreError::InvalidInput(_)));
}

#[test]
fn keep_remote_drops_local_chain_and_syncs() {
    let plan = resolve_keep_remote("skill-1", true, Some(conflicted_skill(Some(7), Some("sha256:remote"))))
        .expect("keep remote");
    assert_eq!(plan.skill.current_blob_hash, "sha256:remote");
    assert_eq!(plan.skill.remote_blob_hash, None);
    assert_eq!(plan.skill.sync_state, SkillSyncState::RemoteOnly);
    assert_eq!(plan.applied.new_mutation_id, None);

    // The store retires the conflicted chain; nothing is left to send.
    let mutations = supersede_conflict_chain(&vec![conflicted_update()], "skill-1");
    let due = vec![true; mutations.len()];
    assert!(list_dispatchable_mutations(&mutations, &due, 10).is_empty());
    assert!(list_conflicts(&vec![plan.skill.clone()], &mutations).is_empty());
}

#[test]
fn resolution_refuses_non_conflicted_skill() {
    let mut clean = conflicted_skill(Some(1), Some("sha256:remote"));
    clean.id = "skill-2".to_owned();
    clean.sync_state = SkillSyncState::Dirty;
    let error = resolve_keep_local("skill-2", true, Some(clean.clone()), 1).expect_err("must refuse");
    assert!(matches!(error, LocalStoreError::InvalidInput(_)));
    let error = resolve_keep_remote("skill-2", true, Some(clean)).expect_err("must refuse");
    assert!(matches!(error, LocalStoreError::InvalidInput(_)));
}

#[test]
fn deployment_target_must_match_profile_root() {
    let result = deployment_record(
        RecordDeployment {
            skill_id: "skill-1".to_owned(),
            agent_profile_id: "custom:test".to_owned(),
            deployed_blob_hash: "sha256:abc".to_owned(),
            target_path: "/tmp/elsewhere/code-review".to_owned(),
            state: DeploymentState::Installed,
            last_error: None,
        },
        Some("/tmp/allowed"),
    );
    assert!(matches!(result, Err(LocalStoreError::InvalidInput(_))));
}

#[test]
fn blank_profile_ids_are_rejected() {
    assert!(normalize_profile_ids(&["  ".to_owned()]).is_err());
    assert!(normalize_profile_ids(&[String::new()]).is_err());
}

#[test]
fn skill_pref_requires_a_skill_id() {
    assert!(validate_skill_pref_key(" ").is_err());
}

#[test]
fn malformed_expires_at_is_rejected() {
    let payload = EntitlementPayload {
        lease: "lease-1".to_owned(),
        permission_level: "use".to_owned(),
        offline_policy: "lease".to_owned(),
        offline_ttl_hours: Some(24),
        issued_at: Some("2026-09-06T12:00:00Z".to_owned()),
        expires_at: Some("not-a-timestamp".to_owned()),
    };
    let error = apply_entitlement(
        "skill-7",
        &payload,
        UtcInstant { seconds: 1_788_696_000, nanos: 0 },
        Some(SkillSyncState::Synced),
        true,
        false,
    )
    .expect_err("must reject");
    assert!(matches!(error, LocalStoreError::InvalidPersistedState(_)));
}

#[test]
fn workspace_path_must_be_absolute() {
    let mut edit = sample_edit("skill-1");
    edit.workspace_path = "relative/workspace".to_owned();
    assert!(commit_skill_edit(edit, None, 0).is_err());
}

#[test]
fn invalid_edit_never_creates_skill_or_mutation() {
    let mut edit = sample_edit("skill-1");
    edit.blob_hash.clear();
    assert!(commit_skill_edit(edit, None, 0).is_err());
}

#[test]
fn validation_error_is_permanent_not_retryable() {
    let (_skill, mutation) = commit_skill_edit(sample_edit("skill-1"), None, 0).expect("commit");
    let target = OutcomeTarget {
        skill_id: mutation.skill_id.clone(),
        state: "in_flight".to_owned(),
        retry_count: 1,
    };
    let (_write, applied) = apply_mutation_outcome(
        Some(&target),
        Some(SkillSyncState::Dirty),
        false,
        &MutationOutcome {
            mutation_id: mutation.id.clone(),
            status: "validation_error".to_owned(),
            remote_skill_id: None,
            revision: None,
            conflict_head_revision: None,
            conflict_package_manifest_hash: None,
            error_code: Some("SKILL_SLUG_TAKEN".to_owned()),
            message: Some("slug taken".to_owned()),
        },
    )
    .expect("apply");
    assert_eq!(applied.mutation_state, MutationState::PermanentError);
}

#[test]
fn transport_error_persists_backoff_schedule() {
    let (_skill, mutation) = commit_skill_edit(sample_edit("skill-1"), None, 0).expect("commit");
    let target = OutcomeTarget {
        skill_id: mutation.skill_id.clone(),
        state: "in_flight".to_owned(),
        retry_count: 0,
    };
    let (_write, applied) = apply_mutation_outcome(
        Some(&target),
        Some(SkillSyncState::Dirty),
        false,
        &MutationOutcome::transport_error(&mutation.id, "NETWORK_UNAVAILABLE", "connection refused"),
    )
    .expect("apply");
    assert_eq!(applied.mutation_state, MutationState::RetryableError);
}
