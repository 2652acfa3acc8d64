use skillhive::deployment::staging_failure_cleanup;
use skillhive::local_store::catalog::claim_for_eviction;
use skillhive::local_store::DeploymentState;
use skillhive::uninstall::{UninstallEngine, UninstallError};
use skillhive::workspace::{WorkspaceError, WorkspaceStore};
use skillhive::blob_store::BlobStore;
use skillhive::deployment::{DeploymentEngine, DeploymentError, DeploymentPhase, DeploymentRequest};
use skillhive::hydrate::{download_failure, hydration_plan, missing_file_blobs, HydrationError, HydrationPlan};
use skillhive::local_store::catalog::hydrated_skill;
use skillhive::local_store::catalog::{
    cache_policy_from_stored, stored_cache_budget, validate_cache_policy, LocalCachePolicy,
};
use skillhive::local_store::prefs::{parse_profile_ids, pref_row, validate_skill_pref_key};
use skillhive::local_store::{migration_plan, LocalSkill, LocalStoreError, SkillSyncState};
use skillhive::server_config::{normalize_server_url, resolve};
use skillhive::digest::hash_bytes;
use skillhive::skill_snapshot::{
    capture_manifest, require_entrypoint, CapturedFile, SkillSnapshotRef, SnapshotError, SnapshotPolicy,
};
use skillhive::snapshot_verifier::{
    add_verified_size, check_file, check_file_count, check_hash, stable_file_hash, verified_ref, CollectedFile,
    FileStat, SnapshotVerificationError,
};
use skillhive::sync_client::SyncClientError;
use skillhive::workspace::zip::{check_entry, ZipError, MAX_ENTRY_BYTES};

fn pulled_skill(id: &str, manifest_hash: &str, state: SkillSyncState) -> LocalSkill {
    LocalSkill {
        id: id.to_owned(),
        remote_id: Some(id.to_owned()),
        name: "Pulled Skill".to_owned(),
        slug: "pulled-skill".to_owned(),
        workspace_path: format!("/tmp/{id}"),
        current_blob_hash: manifest_hash.to_owned(),
        remote_blob_hash: Some(manifest_hash.to_owned()),
        remote_revision: Some(1),
        sync_state: state,
        pinned: false,
    }
}

#[test]
fn put_is_content_addressed_and_idempotent() {
    let store = BlobStore::open("/tmp/skillhive-blobs");
    let (first, first_path) = store.prepare_put(b"hello SkillHive");
    let (second, second_path) = store.prepare_put(b"hello SkillHive");

    assert_eq!(first, second);
    assert_eq!(first_path, second_path);
    assert!(store.verify_contents(&first.hash, Some(&b"hello SkillHive"[..])));
    assert_eq!(store.read_checked(&first.hash, b"hello SkillHive".to_vec()).expect("read"), b"hello SkillHive");
}

#[test]
fn successful_deploy_requires_verified_catalog_ack() {
    let engine = DeploymentEngine::open("/tmp/journals", true).expect("root");
    let request = DeploymentRequest {
        skill_id: "skill-1".to_owned(),
        agent_profile_id: "test".to_owned(),
        snapshot_hash: "sha256:0000000000000000000000000000000000000000000000000000000000000000".to_owned(),
        skill_root: "/tmp/agent-skills".to_owned(),
        directory_name: "demo".to_owned(),
    };
    let journal = engine.begin_deploy(&request, false).expect("deploy");
    let id = journal.transaction_id.clone();

    assert!(matches!(
        engine.acknowledge_catalog_commit(&id, &journal.with_phase(DeploymentPhase::Prepared), true, false, false),
        Err(DeploymentError::CatalogAckRejected(_))
    ));
    let activated = journal.with_phase(DeploymentPhase::Activated);
    assert!(matches!(
        engine.acknowledge_catalog_commit(&id, &activated, true, false, true),
        Err(DeploymentError::CatalogAckRejected(_))
    ));
    engine.acknowledge_catalog_commit(&id, &activated, true, false, false).expect("ack");
}

#[test]
fn hydrate_refuses_dirty_skill_without_workspace() {
    let skill = pulled_skill("remote-2", "sha256:manifest", SkillSyncState::Dirty);
    assert!(matches!(
        hydration_plan("remote-2", Some(skill), None),
        Err(HydrationError::LocalStore(LocalStoreError::InvalidInput(_)))
    ));
}

#[test]
fn missing_closure_blob_fails_and_keeps_remote_only_state() {
    let skill = pulled_skill("remote-3", "sha256:missing0manifest", SkillSyncState::RemoteOnly);
    let plan = hydration_plan("remote-3", Some(skill.clone()), None).expect("plan");
    assert_eq!(
        plan,
        HydrationPlan::Materialize { manifest_hash: "sha256:missing0manifest".to_owned(), promote: true }
    );
    let failure = download_failure(
        "sha256:missing0manifest",
        SyncClientError::Network("connection refused".to_owned()),
    );
    assert!(matches!(failure, HydrationError::BlobDownload { hash, .. } if hash == "sha256:missing0manifest"));
    assert_eq!(skill.sync_state, SkillSyncState::RemoteOnly);
}

#[test]
fn migration_backup_is_created_when_a_migration_is_pending() {
    let plan = migration_plan(1, &vec![1, 2, 3, 4]).expect("plan");
    assert!(plan.backup);
    assert_eq!(plan.versions, vec![2, 3, 4]);
}

#[test]
fn fresh_install_writes_no_migration_backup() {
    let plan = migration_plan(0, &vec![1]).expect("plan");
    assert!(!plan.backup);
    assert_eq!(plan.versions, vec![1]);
}

#[test]
fn cache_policy_is_persistent() {
    assert_eq!(cache_policy_from_stored(2_147_483_648).expect("default").max_bytes, 2 * 1024 * 1024 * 1024);
    let policy = validate_cache_policy(LocalCachePolicy { max_bytes: 123_456 }).expect("set");
    let reopened = cache_policy_from_stored(stored_cache_budget(policy)).expect("reopen");
    assert_eq!(reopened.max_bytes, 123_456);
}

#[test]
fn store_and_load_round_trip() {
    let stored = normalize_server_url("http://127.0.0.1:9000/").unwrap();
    assert_eq!(stored, "http://127.0.0.1:9000");
    assert_eq!(resolve(Some(stored.as_str()), None), stored);
}

#[test]
fn import_rejects_zip_slip_entry() {
    let error = check_entry("/tmp/skillhive-import-1", "../escape.md", false, None, 4, 0)
        .expect_err("zip-slip entry must be rejected");
    assert!(matches!(error, ZipError::UnsafeEntry(_)));
}

#[test]
fn import_requires_skill_md_entrypoint() {
    let staging = "/tmp/skillhive-import-2";
    let files = vec![CollectedFile {
        path: "NOT_SKILL.md".to_owned(),
        location: format!("{staging}/NOT_SKILL.md"),
    }];
    let error = require_entrypoint(staging, &files).expect_err("missing SKILL.md must fail at capture");
    assert!(matches!(error, SnapshotError::MissingEntrypoint(_)));
}

#[test]
fn skill_override_resolves_independently_of_global() {
    let mut rows: Vec<(String, String)> = Vec::new();
    let read = |rows: &Vec<(String, String)>, key: &str| {
        rows.iter()
            .find(|(k, _)| k == key)
            .map(|(_, raw)| parse_profile_ids(raw).expect("parse"))
    };
    let write = |rows: &mut Vec<(String, String)>, key: &str, ids: &[String]| {
        let (_normalized, raw) = pref_row(ids).expect("write");
        rows.retain(|(k, _)| k != key);
        rows.push((key.to_owned(), raw));
    };

    validate_skill_pref_key("s1").expect("key");
    assert!(read(&rows, "s1").is_none());

    write(&mut rows, "", &["gemini:default".to_owned()]);
    write(&mut rows, "s1", &["cursor:default".to_owned()]);

    assert_eq!(read(&rows, "s1"), Some(vec!["cursor:default".to_owned()]));
    assert_eq!(read(&rows, "").unwrap_or_default(), vec!["gemini:default".to_owned()]);

    rows.retain(|(k, _)| k != "s1");
    assert!(read(&rows, "s1").is_none());
}

#[test]
fn exact_snapshot_verifies() {
    let sources: Vec<(&str, &[u8])> = vec![("SKILL.md", b"# Skill\n"), ("scripts/run.py", b"print('ok')\n")];
    let captured = sources
        .iter()
        .map(|(path, bytes)| CapturedFile {
            path: (*path).to_owned(),
            location: format!("/tmp/workspace/{path}"),
            size: bytes.len() as u64,
            blob_hash: hash_bytes(bytes),
        })
        .collect();
    let (manifest, total_bytes) = capture_manifest(captured, SnapshotPolicy::standard()).expect("snapshot");
    let manifest_hash = hash_bytes(b"manifest");
    let snapshot = SkillSnapshotRef { manifest_hash: manifest_hash.clone(), file_count: manifest.files.len(), total_bytes };

    let found: Vec<CollectedFile> = sources
        .iter()
        .map(|(path, _)| CollectedFile { path: (*path).to_owned(), location: format!("/tmp/materialized/{path}") })
        .collect();
    check_file_count(&manifest, found.len()).expect("count");
    let mut total: u64 = 0;
    for ((expected, found), (_, bytes)) in manifest.files.iter().zip(found.iter()).zip(sources.iter()) {
        let stat = FileStat { is_symlink: false, is_file: true, len: bytes.len() as u64 };
        check_file(expected, found, stat).expect("file");
        let hash = stable_file_hash(&found.location, expected.size_bytes, stat, bytes, stat).expect("hash");
        check_hash(expected, hash).expect("content");
        total = add_verified_size(total, expected.size_bytes).expect("size");
    }
    assert_eq!(verified_ref(&manifest_hash, &manifest, total), snapshot);
}

#[test]
fn import_rejects_entry_above_per_file_limit() {
    let staging = "/tmp/skillhive-import-big";
    let skill_md: &[u8] = b"---\nname: big\ndescription: oversized entry\n---\n\nbody";
    let (action, total) = check_entry(staging, "SKILL.md", false, None, skill_md.len() as u64, 0)
        .expect("entrypoint fits");
    assert!(matches!(action, skillhive::workspace::zip::EntryAction::WriteFile(_)));
    let chunk: u64 = 1024 * 1024;
    let declared: u64 = (MAX_ENTRY_BYTES / chunk + 1) * chunk;
    let error = check_entry(staging, "big.bin", false, None, declared, total)
        .expect_err("entry above the per-file limit must be rejected");
    assert!(matches!(error, ZipError::EntryTooLarge { .. }));
}

#[test]
fn extra_file_is_detected() {
    let sources: Vec<(&str, &[u8])> = vec![("SKILL.md", b"# Skill\n"), ("scripts/run.py", b"print('ok')\n")];
    let captured = sources
        .iter()
        .map(|(path, bytes)| CapturedFile {
            path: (*path).to_owned(),
            location: format!("/tmp/workspace/{path}"),
            size: bytes.len() as u64,
            blob_hash: hash_bytes(bytes),
        })
        .collect();
    let (manifest, _) = capture_manifest(captured, SnapshotPolicy::standard()).expect("snapshot");
    // The materialized directory holds the two files and `unexpected.txt`.
    let found = ["SKILL.md", "scripts/run.py", "unexpected.txt"];
    assert!(matches!(
        check_file_count(&manifest, found.len()),
        Err(SnapshotVerificationError::FileSetMismatch { .. })
    ));
}

#[test]
fn detects_corruption_on_read() {
    let store = BlobStore::open("/tmp/skillhive-blobs");
    let (blob, _) = store.prepare_put(b"original");
    // The file at the blob's path was overwritten.
    assert!(matches!(
        store.read_checked(&blob.hash, b"corrupted".to_vec()),
        Err(skillhive::blob_store::BlobStoreError::HashMismatch { .. })
    ));
}

#[test]
fn pulled_skill_hydrates_into_workspace_and_promotes_record() {
    let body: &[u8] = b"# Hydrated Skill\n\nmaterialized from the server\n";
    let captured = vec![CapturedFile {
        path: "SKILL.md".to_owned(),
        location: "/tmp/source/SKILL.md".to_owned(),
        size: body.len() as u64,
        blob_hash: hash_bytes(body),
    }];
    let (manifest, _) = capture_manifest(captured, SnapshotPolicy::standard()).expect("snapshot");
    let manifest_hash = hash_bytes(b"manifest bytes");
    let skill = pulled_skill("remote-1", &manifest_hash, SkillSyncState::RemoteOnly);

    let plan = hydration_plan("remote-1", Some(skill.clone()), None).expect("plan");
    assert_eq!(plan, HydrationPlan::Materialize { manifest_hash: manifest_hash.clone(), promote: true });
    // The closure was already local.
    let missing = missing_file_blobs(&manifest, &vec![true; manifest.files.len()]);
    assert_eq!(missing.len(), 0, "closure was already local");

    let workspace_path = "/tmp/workspaces/remote-1";
    let promoted = hydrated_skill("remote-1", Some(skill), &manifest_hash, workspace_path).expect("promote");
    assert_eq!(promoted.sync_state, SkillSyncState::Synced);
    assert_eq!(promoted.workspace_path, workspace_path);
}

#[test]
fn preference_text_is_compact_json() {
    let ids = vec!["codex:default".to_owned(), "custom:a\"b".to_owned()];
    let (normalized, text) = pref_row(&ids).expect("write");
    assert_eq!(normalized, ids);
    assert_eq!(text, "[\"codex:default\",\"custom:a\\\"b\"]");
}

#[test]
fn roots_that_are_not_real_directories_are_refused() {
    assert!(matches!(
        WorkspaceStore::open("/tmp/linked-workspaces", false),
        Err(WorkspaceError::InvalidWorkspaceRoot(p)) if p == "/tmp/linked-workspaces"
    ));
    assert!(matches!(
        DeploymentEngine::open("/tmp/linked-journals", false),
        Err(DeploymentError::InvalidSkillRoot(p)) if p == "/tmp/linked-journals"
    ));
    assert!(matches!(
        UninstallEngine::open("/tmp/linked-uninstall", false),
        Err(UninstallError::UnsafeDirectory(p)) if p == "/tmp/linked-uninstall"
    ));
    assert_eq!(WorkspaceStore::open("/tmp/workspaces", true).expect("root").root(), "/tmp/workspaces");
}

#[test]
fn eviction_claim_rechecks_the_current_row() {
    let mut synced = pulled_skill("skill-1", "sha256:snap", SkillSyncState::Synced);
    let claimed = claim_for_eviction(Some(synced.clone()), "sha256:snap", &vec![DeploymentState::Failed])
        .expect("claimable");
    assert_eq!(claimed.sync_state, SkillSyncState::RemoteOnly);
    assert_eq!(claimed.current_blob_hash, "sha256:snap");
    assert!(claim_for_eviction(Some(synced.clone()), "sha256:other", &Vec::new()).is_none());
    assert!(claim_for_eviction(Some(synced.clone()), "sha256:snap", &vec![DeploymentState::Installed]).is_none());
    synced.pinned = true;
    assert!(claim_for_eviction(Some(synced), "sha256:snap", &Vec::new()).is_none());
    assert!(claim_for_eviction(None, "sha256:snap", &Vec::new()).is_none());
}

#[test]
fn failed_staging_drops_the_journal() {
    let cleanup = staging_failure_cleanup(false);
    assert!(!cleanup.remove_staging);
    assert!(cleanup.remove_journal);
    assert!(staging_failure_cleanup(true).remove_staging);
}
