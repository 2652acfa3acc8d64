use skillhive::agent::{AgentAdapterError, AgentDescriptor, AgentDiscoveryResult, AgentInstance, AgentKind};
use skillhive::deployment::DeploymentResult;
use skillhive::desktop::{
    append_discovery_error, check_commit_operation, custom_profile_result, deploy_result,
    deployment_request, installed_record, pending_uninstall_action, reconcile_instance,
    reconciliation_errors, uninstall_request, DeploySkillToAgentRequest, InstanceReconcile,
    PendingUninstall, UninstallSkillFromAgentRequest, UninstallStartupReport,
};
use skillhive::hydrate::{check_downloaded_blob, hydration_plan, missing_file_blobs, HydrationError, HydrationPlan};
use skillhive::local_store::catalog::{agent_profile_record, deployment_record};
use skillhive::local_store::{
    AgentProfileRecord, DeploymentState, LocalSkill, LocalStoreError, MutationOperation,
    RecordDeployment, SkillDeploymentRecord, SkillSyncState, UpsertAgentProfile,
};
use skillhive::skill_snapshot::{
    capture_manifest, CapturedFile, SkillSnapshotFile, SkillSnapshotManifest, SnapshotError, SnapshotPolicy,
};
use skillhive::uninstall::{UninstallRecoveryReport};
use skillhive::workspace::import::{check_source, import_source, AgentSkillImportError, ImportAgentSkillRequest};
use skillhive::workspace::{create_decision, ExistingEntry, WorkspaceError, WorkspaceStore};

const ABC_SHA256: &str = "sha256:ba7816bf8f01cfea414140de5dae2223b00361a396177a9cb410ff61f20015ad";

fn local_skill(state: SkillSyncState) -> LocalSkill {
    LocalSkill {
        id: "skill-1".to_owned(),
        remote_id: Some("r-1".to_owned()),
        name: "Code Review".to_owned(),
        slug: "code-review".to_owned(),
        workspace_path: "/ws/skill-1".to_owned(),
        current_blob_hash: "sha256:abc".to_owned(),
        remote_blob_hash: None,
        remote_revision: Some(2),
        sync_state: state,
        pinned: false,
    }
}

fn profile(enabled: bool, custom: bool) -> AgentProfileRecord {
    AgentProfileRecord {
        id: "agent-a:default".to_owned(),
        descriptor_id: "agent-a".to_owned(),
        display_name: "Agent A".to_owned(),
        skill_root: "/home/u/.agent-a/skills".to_owned(),
        enabled,
        is_custom: custom,
    }
}

#[test]
fn deploy_requires_a_usable_skill_and_an_enabled_profile() {
    let request = DeploySkillToAgentRequest {
        skill_id: "skill-1".to_owned(),
        agent_profile_id: "agent-a:default".to_owned(),
    };
    let ok = deployment_request(&request, Some(local_skill(SkillSyncState::Synced)), Some(profile(true, false)))
        .expect("request");
    assert_eq!(ok.directory_name, "code-review");
    assert_eq!(ok.skill_root, "/home/u/.agent-a/skills");
    assert_eq!(ok.snapshot_hash, "sha256:abc");
    assert_eq!(
        deployment_request(&request, None, Some(profile(true, false))).unwrap_err(),
        "skill not found: skill-1"
    );
    assert_eq!(
        deployment_request(&request, Some(local_skill(SkillSyncState::RemoteOnly)), Some(profile(true, false)))
            .unwrap_err(),
        "skill skill-1 is not deployable in state RemoteOnly"
    );
    assert_eq!(
        deployment_request(&request, Some(local_skill(SkillSyncState::Dirty)), None).unwrap_err(),
        "agent profile not found: agent-a:default"
    );
    assert_eq!(
        deployment_request(&request, Some(local_skill(SkillSyncState::Dirty)), Some(profile(false, false)))
            .unwrap_err(),
        "agent profile is disabled: agent-a:default"
    );
}

#[test]
fn deployed_results_are_recorded_as_installed() {
    let result = DeploymentResult {
        transaction_id: "tx".to_owned(),
        skill_id: "skill-1".to_owned(),
        agent_profile_id: "agent-a:default".to_owned(),
        target_path: "/home/u/.agent-a/skills/code-review".to_owned(),
        snapshot_hash: "sha256:abc".to_owned(),
        replaced_existing: false,
    };
    let row = installed_record(&result);
    assert_eq!(row.state, DeploymentState::Installed);
    let record = deployment_record(row, Some("/home/u/.agent-a/skills")).expect("record");
    assert_eq!(record.target_path, "/home/u/.agent-a/skills/code-review");
    let reported = deploy_result(record, true);
    assert!(reported.recovery_pending);
}

#[test]
fn deployment_rows_need_a_profile_and_an_absolute_target() {
    let row = RecordDeployment {
        skill_id: "skill-1".to_owned(),
        agent_profile_id: "p".to_owned(),
        deployed_blob_hash: "sha256:abc".to_owned(),
        target_path: "relative/x".to_owned(),
        state: DeploymentState::Installed,
        last_error: None,
    };
    assert!(matches!(deployment_record(row.clone(), Some("/r")), Err(LocalStoreError::InvalidInput(_))));
    let row = RecordDeployment { target_path: "/r/x".to_owned(), ..row };
    assert!(matches!(deployment_record(row.clone(), None), Err(LocalStoreError::AgentProfileNotFound(_))));
    let row = RecordDeployment { skill_id: " ".to_owned(), ..row };
    match deployment_record(row, Some("/r")) {
        Err(LocalStoreError::InvalidInput(m)) => assert_eq!(m, "skill_id must not be empty"),
        other => panic!("unexpected {other:?}"),
    }
}

#[test]
fn profile_and_deployment_are_persisted() {
    let record = agent_profile_record(UpsertAgentProfile {
        id: "agent-a:default".to_owned(),
        descriptor_id: "agent-a".to_owned(),
        display_name: "Agent A".to_owned(),
        skill_root: "/tmp/agent-skills".to_owned(),
        enabled: true,
        is_custom: false,
    })
    .expect("profile");
    assert_eq!(record.skill_root, "/tmp/agent-skills");
    let relative = agent_profile_record(UpsertAgentProfile {
        skill_root: "agent-skills".to_owned(),
        ..UpsertAgentProfile {
            id: "x".to_owned(),
            descriptor_id: "x".to_owned(),
            display_name: "X".to_owned(),
            skill_root: String::new(),
            enabled: true,
            is_custom: true,
        }
    });
    assert!(matches!(relative, Err(LocalStoreError::InvalidInput(_))));
}

#[test]
fn uninstall_targets_must_stay_in_the_profile_root() {
    let request = UninstallSkillFromAgentRequest {
        skill_id: "skill-1".to_owned(),
        agent_profile_id: "agent-a:default".to_owned(),
    };
    let deployment = SkillDeploymentRecord {
        skill_id: "skill-1".to_owned(),
        agent_profile_id: "agent-a:default".to_owned(),
        deployed_blob_hash: "sha256:abc".to_owned(),
        target_path: "/home/u/.agent-a/skills/code-review".to_owned(),
        state: DeploymentState::Installed,
        last_error: None,
    };
    let ok = uninstall_request(&request, Some(deployment.clone()), Some(profile(true, false))).expect("ok");
    assert_eq!(ok.target_path, "/home/u/.agent-a/skills/code-review");
    let moved = AgentProfileRecord { skill_root: "/elsewhere".to_owned(), ..profile(true, false) };
    assert_eq!(
        uninstall_request(&request, Some(deployment), Some(moved)).unwrap_err(),
        "deployment catalog target no longer matches agent profile root"
    );
    assert_eq!(
        uninstall_request(&request, None, Some(profile(true, false))).unwrap_err(),
        "deployment not found for skill skill-1 and profile agent-a:default"
    );
}

#[test]
fn startup_recovery_counts_outcomes() {
    assert_eq!(pending_uninstall_action("tx", Ok(true)), Ok(PendingUninstall::Rollback));
    assert_eq!(pending_uninstall_action("tx", Ok(false)), Ok(PendingUninstall::Finalize));
    assert_eq!(
        pending_uninstall_action("tx", Err("db".to_owned())),
        Err("uninstall catalog lookup failed for tx: db".to_owned())
    );
    let mut report = UninstallStartupReport::from_discovery(UninstallRecoveryReport::new());
    report.record("tx-1", PendingUninstall::Rollback, Ok(()));
    report.record("tx-2", PendingUninstall::Finalize, Err("io".to_owned()));
    assert_eq!(report.rolled_back, 1);
    assert_eq!(report.finalized, 0);
    assert_eq!(report.failed, vec!["uninstall finalize failed for tx-2: io".to_owned()]);
}

#[test]
fn discovery_never_overwrites_custom_profiles() {
    let instance = AgentInstance {
        id: "agent-a:default".to_owned(),
        descriptor_id: "agent-a".to_owned(),
        display_name: "Agent A".to_owned(),
        skill_root: "/home/u/.agent-a/skills".to_owned(),
        enabled: true,
        skill_root_exists: true,
        detected: true,
    };
    match reconcile_instance(&instance, Some(profile(true, true))) {
        InstanceReconcile::Collision(m) => assert_eq!(
            m,
            "detected built-in profile agent-a:default collides with a persisted custom profile"
        ),
        other => panic!("unexpected {other:?}"),
    }
    match reconcile_instance(&instance, Some(profile(false, false))) {
        InstanceReconcile::Upsert(u) => {
            assert!(!u.enabled);
            assert!(!u.is_custom);
        }
        other => panic!("unexpected {other:?}"),
    }
    match reconcile_instance(&instance, None) {
        InstanceReconcile::Upsert(u) => assert!(u.enabled),
        other => panic!("unexpected {other:?}"),
    }
    let mut result = AgentDiscoveryResult {
        descriptor: AgentDescriptor {
            id: "agent-a".to_owned(),
            display_name: "Agent A".to_owned(),
            kind: AgentKind::BuiltIn,
        },
        instances: vec![],
        error: None,
    };
    append_discovery_error(&mut result, "first");
    append_discovery_error(&mut result, "second");
    assert_eq!(result.error.as_deref(), Some("first; second"));
    assert_eq!(reconciliation_errors(&vec![result]), vec!["agent-a: first; second".to_owned()]);
    let custom = custom_profile_result(profile(true, true), true, false);
    assert!(custom.instances.is_empty());
    assert_eq!(
        custom.error.as_deref(),
        Some("/home/u/.agent-a/skills exists but is not a directory")
    );
    let custom = custom_profile_result(profile(true, true), false, false);
    assert_eq!(custom.instances.len(), 1);
    assert!(!custom.instances[0].skill_root_exists);
    assert_eq!(
        AgentAdapterError::Discovery("x".to_owned()).message(),
        "agent discovery failed: x"
    );
}

#[test]
fn workspace_commits_refuse_deletes() {
    assert!(check_commit_operation(MutationOperation::Update).is_ok());
    assert!(check_commit_operation(MutationOperation::Delete).is_err());
}

#[test]
fn hydration_checks_digests_and_plans_by_state() {
    assert!(check_downloaded_blob(ABC_SHA256, b"abc").is_ok());
    assert!(matches!(
        check_downloaded_blob(ABC_SHA256, b"abd"),
        Err(HydrationError::DigestMismatch { .. })
    ));
    assert_eq!(
        hydration_plan("skill-1", Some(local_skill(SkillSyncState::RemoteOnly)), None).expect("plan"),
        HydrationPlan::Materialize { manifest_hash: "sha256:abc".to_owned(), promote: true }
    );
    assert_eq!(
        hydration_plan("skill-1", Some(local_skill(SkillSyncState::Synced)), Some("/ws".to_owned()))
            .expect("plan"),
        HydrationPlan::VerifyExisting {
            manifest_hash: "sha256:abc".to_owned(),
            workspace_path: "/ws".to_owned(),
            promote: false
        }
    );
    match hydration_plan("skill-1", Some(local_skill(SkillSyncState::Dirty)), None) {
        Err(HydrationError::LocalStore(LocalStoreError::InvalidInput(m))) => assert_eq!(
            m,
            "skill skill-1 in state Dirty without a workspace cannot be hydrated"
        ),
        other => panic!("unexpected {other:?}"),
    }
    let manifest = SkillSnapshotManifest {
        format_version: 1,
        files: vec![
            SkillSnapshotFile { path: "SKILL.md".to_owned(), blob_hash: "sha256:a".to_owned(), size_bytes: 1 },
            SkillSnapshotFile { path: "x.md".to_owned(), blob_hash: "sha256:b".to_owned(), size_bytes: 1 },
        ],
    };
    assert_eq!(missing_file_blobs(&manifest, &vec![true, false]), vec!["sha256:b".to_owned()]);
}

#[test]
fn workspace_creation_reuses_only_empty_directories() {
    let store = WorkspaceStore::open("/tmp/ws", true).expect("root");
    let path = store.create_target("skill-1", "# Demo\n").expect("target");
    assert_eq!(create_decision(&path, None).expect("new"), true);
    let empty = ExistingEntry { is_real_dir: true, has_entrypoint: false, is_empty: true };
    assert_eq!(create_decision(&path, Some(empty)).expect("reuse"), false);
    assert!(matches!(
        create_decision(&path, Some(ExistingEntry { has_entrypoint: true, ..empty })),
        Err(WorkspaceError::AlreadyExists(_))
    ));
    assert!(matches!(
        create_decision(&path, Some(ExistingEntry { is_empty: false, ..empty })),
        Err(WorkspaceError::IncompleteWorkspace(_))
    ));
    let large = "x".repeat(2 * 1024 * 1024 + 1);
    assert!(matches!(
        store.create_target("skill-1", &large),
        Err(WorkspaceError::InitialSkillTooLarge { size, limit }) if size == large.len() && limit == 2 * 1024 * 1024
    ));
    assert!(matches!(store.path_for_skill("   "), Err(WorkspaceError::InvalidSkillId)));
    assert!(matches!(store.import_target("skill-1", true), Err(WorkspaceError::AlreadyExists(_))));
}

#[test]
fn import_source_is_derived_from_profile_root() {
    let request = ImportAgentSkillRequest {
        skill_id: "skill-1".to_owned(),
        agent_profile_id: "custom:test:configured".to_owned(),
        directory_name: "existing-skill".to_owned(),
    };
    let custom = AgentProfileRecord {
        id: "custom:test:configured".to_owned(),
        descriptor_id: "custom:test".to_owned(),
        display_name: "Test Agent".to_owned(),
        skill_root: "/tmp/agent-skills".to_owned(),
        enabled: true,
        is_custom: true,
    };
    let (_p, source) = import_source(&request, Some(custom.clone())).expect("source");
    assert_eq!(source, "/tmp/agent-skills/existing-skill");
    assert!(matches!(
        import_source(&request, None),
        Err(AgentSkillImportError::ProfileNotFound(_))
    ));
    assert!(matches!(
        import_source(&request, Some(AgentProfileRecord { enabled: false, ..custom })),
        Err(AgentSkillImportError::ProfileDisabled(_))
    ));
    assert!(matches!(check_source(&source, None), Err(AgentSkillImportError::SourceNotFound(_))));
    assert!(matches!(
        check_source(&source, Some((true, true))),
        Err(AgentSkillImportError::InvalidSource(_))
    ));
    assert!(check_source(&source, Some((false, true))).is_ok());
}

#[test]
fn captured_manifests_follow_the_snapshot_policy() {
    let file = |path: &str, size: u64| CapturedFile {
        path: path.to_owned(),
        location: format!("/ws/{path}"),
        size,
        blob_hash: ABC_SHA256.to_owned(),
    };
    let (manifest, total) =
        capture_manifest(vec![file("SKILL.md", 3), file("notes.md", 4)], SnapshotPolicy::default())
            .expect("manifest");
    assert_eq!(manifest.files.len(), 2);
    assert_eq!(total, 7);
    let policy = SnapshotPolicy { max_files: 10, max_file_bytes: 3, max_total_bytes: 100 };
    assert!(matches!(
        capture_manifest(vec![file("SKILL.md", 4)], policy),
        Err(SnapshotError::FileTooLarge { .. })
    ));
    assert!(matches!(
        capture_manifest(vec![file("notes.md", 1)], SnapshotPolicy::default()),
        Err(SnapshotError::MissingEntrypoint(_))
    ));
}
