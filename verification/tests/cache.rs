use skillhive::cache_manager::{
    BlobInventoryEntry, CacheEnforcer, CacheSkillRecord, CandidateAction, ResolvedRoot,
};
use skillhive::cache_order::eviction_order;
use skillhive::local_store::SkillSyncState;

fn entry(hash: &str, size_bytes: u64) -> BlobInventoryEntry {
    BlobInventoryEntry { hash: hash.to_owned(), path: format!("/tmp/blobs/{hash}"), size_bytes }
}

fn skill(id: &str, snapshot: &str, state: SkillSyncState, last_accessed_at: &str) -> CacheSkillRecord {
    CacheSkillRecord {
        skill_id: id.to_owned(),
        remote_id: Some(format!("remote-{id}")),
        workspace_path: format!("/tmp/workspaces/{id}"),
        snapshot_hash: snapshot.to_owned(),
        sync_state: state,
        pinned: false,
        last_accessed_at: last_accessed_at.to_owned(),
    }
}

fn root(snapshot: &str, closure: &[&str]) -> ResolvedRoot {
    ResolvedRoot {
        snapshot_hash: snapshot.to_owned(),
        closure: Ok(closure.iter().map(|h| (*h).to_owned()).collect()),
    }
}

#[test]
fn within_budget_enforcement_changes_nothing() {
    let refs = vec!["sha256:s1".to_owned()];
    let enforcer = CacheEnforcer::start(
        100,
        &refs,
        vec![root("sha256:s1", &["sha256:s1", "sha256:f1"])],
        vec![entry("sha256:s1", 10), entry("sha256:f1", 20)],
        Vec::new(),
    )
    .expect("start");
    let candidate = skill("a", "sha256:s1", SkillSyncState::Synced, "2026-01-01");
    assert_eq!(enforcer.candidate_action(&candidate, false), CandidateAction::Stop);
    let report = enforcer.finish();
    assert_eq!(report.budget_bytes, 100);
    assert_eq!(report.before_bytes, 30);
    assert_eq!(report.after_bytes, 30);
    assert!(report.evicted_skills.is_empty());
    assert!(report.skipped_skills.is_empty());
    assert_eq!(report.deleted_blobs, 0);
    assert!(report.diagnostics.is_empty());
}

#[test]
fn eviction_frees_only_unshared_blobs() {
    // Skill `a` (evictable) and skill `b` (dirty) share the blob `shared`.
    let refs = vec!["sha256:s1".to_owned(), "sha256:s2".to_owned()];
    let mut enforcer = CacheEnforcer::start(
        10,
        &refs,
        vec![
            root("sha256:s1", &["sha256:s1", "sha256:f1", "sha256:shared"]),
            root("sha256:s2", &["sha256:s2", "sha256:shared"]),
        ],
        vec![
            entry("sha256:s1", 5),
            entry("sha256:f1", 20),
            entry("sha256:shared", 30),
            entry("sha256:s2", 5),
        ],
        Vec::new(),
    )
    .expect("start");
    assert!(enforcer.report.diagnostics.is_empty());
    let a = skill("a", "sha256:s1", SkillSyncState::Synced, "2026-01-01");
    let b = skill("b", "sha256:s2", SkillSyncState::Dirty, "2026-01-02");
    assert_eq!(enforcer.candidate_action(&b, false), CandidateAction::Skip);
    assert_eq!(enforcer.candidate_action(&a, true), CandidateAction::Skip);
    assert_eq!(enforcer.candidate_action(&a, false), CandidateAction::Claim);

    let freed = enforcer.evict(&a, false);
    let hashes: Vec<&str> = freed.iter().map(|e| e.hash.as_str()).collect();
    assert_eq!(hashes, vec!["sha256:s1", "sha256:f1"]);
    for entry in &freed {
        enforcer.record_removal(entry, Ok(true), Some("a"));
    }
    assert_eq!(enforcer.report.after_bytes, 35);
    assert_eq!(enforcer.report.deleted_blobs, 2);
    let report = enforcer.finish();
    assert_eq!(report.evicted_skills, vec!["a".to_owned()]);
    assert_eq!(report.diagnostics.len(), 1, "still above budget");
    assert_eq!(
        report.diagnostics[0],
        "cache remains above budget: 35 bytes used, 10 byte budget; remaining content is protected or unresolved"
    );
}

#[test]
fn candidates_are_tried_least_recently_used_first() {
    let ordered = eviction_order(vec![
        skill("c", "sha256:s", SkillSyncState::Synced, "2026-03-01T00:00:00Z"),
        skill("b", "sha256:s", SkillSyncState::Synced, "2026-01-01T00:00:00Z"),
        skill("a", "sha256:s", SkillSyncState::Synced, "2026-01-01T00:00:00Z"),
        skill("d", "sha256:s", SkillSyncState::Synced, "2025-12-31T00:00:00Z"),
    ]);
    let ids: Vec<&str> = ordered.iter().map(|s| s.skill_id.as_str()).collect();
    assert_eq!(ids, vec!["d", "a", "b", "c"]);
}
