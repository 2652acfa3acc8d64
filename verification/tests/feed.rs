use skillhive::local_store::entitlements::{
    entitlement_allows_offline_use, EntitlementPayload, StoredEntitlement, UtcInstant,
};
use skillhive::local_store::pull_apply::{
    apply_changes_page, ChangeItem, ChangesPage, EntitlementField, PageApplied, PulledCatalog,
};
use skillhive::local_store::{LocalSkill, LocalStoreError, SkillSyncState};

/// The skill table, leases and cursor a page is applied to; a page that
/// fails leaves all three unchanged.
#[derive(Default)]
struct Feed {
    rows: Vec<LocalSkill>,
    unacked: Vec<String>,
    entitlements: Vec<StoredEntitlement>,
    cursor: Option<String>,
}

/// 2026-09-06T12:00:00Z.
fn now() -> UtcInstant {
    UtcInstant { seconds: 1_788_696_000, nanos: 0 }
}

impl Feed {
    fn apply_changes_page(&mut self, page: &ChangesPage) -> Result<PageApplied, LocalStoreError> {
        let written = apply_changes_page(
            self.rows.clone(),
            &self.unacked,
            &Vec::new(),
            page,
            "/tmp",
            now(),
        )?;
        self.rows = written.rows;
        for entitlement in written.entitlements {
            self.entitlements.retain(|e| e.skill_id != entitlement.stored.skill_id);
            self.entitlements.push(entitlement.stored);
        }
        self.cursor = Some(written.cursor);
        Ok(written.applied)
    }

    fn get_skill(&self, id: &str) -> Option<LocalSkill> {
        self.rows.iter().find(|row| row.id == id).cloned()
    }

    fn get_entitlement(&self, id: &str) -> Option<StoredEntitlement> {
        self.entitlements.iter().find(|e| e.skill_id == id).cloned()
    }

    fn set_state(&mut self, id: &str, state: SkillSyncState) {
        self.rows.iter_mut().find(|row| row.id == id).expect("row").sync_state = state;
    }
}

fn upsert(id: &str, revision: i64) -> ChangeItem {
    ChangeItem {
        sequence: revision,
        resource_type: "skill".to_owned(),
        resource_id: id.to_owned(),
        resource_revision: revision,
        operation: "upsert".to_owned(),
        package_manifest_hash: Some("sha256:abc".to_owned()),
        name: Some("Pulled Skill".to_owned()),
        slug: Some("pulled-skill".to_owned()),
        entitlement: EntitlementField::Absent,
    }
}

fn tombstone(id: &str, revision: i64) -> ChangeItem {
    ChangeItem {
        sequence: revision,
        resource_type: "skill".to_owned(),
        resource_id: id.to_owned(),
        resource_revision: revision,
        operation: "delete".to_owned(),
        package_manifest_hash: None,
        name: None,
        slug: None,
        entitlement: EntitlementField::Absent,
    }
}

fn page(changes: Vec<ChangeItem>, cursor: &str) -> ChangesPage {
    ChangesPage { protocol_version: 1, changes, next_cursor: cursor.to_owned(), has_more: false }
}

fn local_row(id: &str, remote_id: &str, name: &str, slug: &str, hash: &str) -> LocalSkill {
    LocalSkill {
        id: id.to_owned(),
        remote_id: Some(remote_id.to_owned()),
        name: name.to_owned(),
        slug: slug.to_owned(),
        workspace_path: format!("/tmp/{slug}"),
        current_blob_hash: hash.to_owned(),
        remote_blob_hash: None,
        remote_revision: Some(1),
        sync_state: SkillSyncState::Synced,
        pinned: false,
    }
}

fn managed_pull(issued: &str, expires: &str) -> EntitlementField {
    EntitlementField::Present(EntitlementPayload {
        lease: "lease-token".to_owned(),
        permission_level: "use".to_owned(),
        offline_policy: "ttl".to_owned(),
        offline_ttl_hours: Some(8),
        issued_at: Some(issued.to_owned()),
        expires_at: Some(expires.to_owned()),
    })
}

#[test]
fn pulled_upsert_creates_remote_only_record_and_commits_cursor() {
    let mut store = Feed::default();
    let applied = store.apply_changes_page(&page(vec![upsert("remote-1", 1)], "v1.AAAAAQ")).expect("apply");

    assert_eq!(applied.upserts, 1);
    let skill = store.get_skill("remote-1").expect("skill");
    assert_eq!(skill.sync_state, SkillSyncState::RemoteOnly);
    assert_eq!(skill.remote_revision, Some(1));
    assert_eq!(skill.remote_id.as_deref(), Some("remote-1"));
    assert_eq!(skill.name, "Pulled Skill");
    assert_eq!(store.cursor.as_deref(), Some("v1.AAAAAQ"));
}

#[test]
fn interrupted_apply_rolls_back_metadata_and_cursor() {
    let mut store = Feed::default();
    let bad_page = ChangesPage {
        protocol_version: 1,
        changes: vec![upsert("remote-2", 1)],
        next_cursor: "   ".to_owned(),
        has_more: false,
    };
    assert!(store.apply_changes_page(&bad_page).is_err());
    assert!(store.get_skill("remote-2").is_none());
    assert!(store.cursor.is_none());
}

#[test]
fn tombstone_removes_clean_record() {
    let mut store = Feed::default();
    store.apply_changes_page(&page(vec![upsert("remote-3", 1)], "v1.AAAAAQ")).expect("upsert");
    store.apply_changes_page(&page(vec![tombstone("remote-3", 2)], "v1.AAAAFA")).expect("delete");
    assert!(store.get_skill("remote-3").is_none());
}

#[test]
fn tombstone_with_pending_mutation_preserves_work_as_conflict() {
    let mut store = Feed::default();
    store.apply_changes_page(&page(vec![upsert("remote-4", 1)], "v1.AAAAAQ")).expect("upsert");
    store.unacked.push("remote-4".to_owned());

    store.apply_changes_page(&page(vec![tombstone("remote-4", 2)], "v1.AAAAFA")).expect("delete");
    let skill = store.get_skill("remote-4").expect("skill");
    assert_eq!(skill.sync_state, SkillSyncState::Conflict);
}

#[test]
fn remote_change_under_dirty_head_conflicts_instead_of_overwriting() {
    let mut store = Feed::default();
    store.apply_changes_page(&page(vec![upsert("remote-5", 1)], "v1.AAAAAQ")).expect("upsert");
    store.set_state("remote-5", SkillSyncState::Dirty);

    let applied = store.apply_changes_page(&page(vec![upsert("remote-5", 5)], "v1.AAAABQ")).expect("apply");
    assert_eq!(applied.conflicts_detected, 1);
    let skill = store.get_skill("remote-5").expect("skill");
    assert_eq!(skill.sync_state, SkillSyncState::Conflict);
    assert_eq!(skill.remote_revision, Some(5));
}

#[test]
fn pulled_upsert_merges_into_locally_keyed_row_by_remote_id() {
    let mut store = Feed::default();
    store.rows.push(local_row("local-key-1", "srv-9", "Local First", "local-first", "sha256:local"));

    let applied = store.apply_changes_page(&page(vec![upsert("srv-9", 2)], "v1.AAAAQg")).expect("apply");

    assert_eq!(applied.upserts, 1);
    let skill = store.get_skill("local-key-1").expect("skill");
    assert_eq!(skill.remote_id.as_deref(), Some("srv-9"));
    assert_eq!(skill.remote_revision, Some(2));
    assert_eq!(skill.sync_state, SkillSyncState::Synced);
    assert!(store.get_skill("srv-9").is_none());
}

#[test]
fn pulled_tombstone_removes_locally_keyed_row_by_remote_id() {
    let mut store = Feed::default();
    store.rows.push(local_row("local-key-2", "srv-10", "Local Second", "local-second", "sha256:local2"));

    store.apply_changes_page(&page(vec![tombstone("srv-10", 2)], "v1.AAAAQg")).expect("delete");
    assert!(store.get_skill("local-key-2").is_none());
}

#[test]
fn pulled_entitlement_stores_alongside_content() {
    let mut store = Feed::default();
    let mut item = upsert("remote-ent-1", 1);
    item.name = Some("Managed Pull".to_owned());
    item.slug = Some("managed-pull".to_owned());
    item.entitlement = managed_pull("2026-09-06T12:00:00Z", "2027-01-01T00:00:00Z");

    let applied = store.apply_changes_page(&page(vec![item], "v1.AAAAAQ")).expect("apply");

    assert_eq!(applied.entitlements, 1);
    assert_eq!(applied.upserts, 1);
    let stored = store.get_entitlement("remote-ent-1").expect("entitlement row");
    assert_eq!(stored.offline_policy, "ttl");
    assert_eq!(stored.offline_ttl_hours, Some(8));
    let skill = store.get_skill("remote-ent-1").expect("skill");
    assert_eq!(skill.sync_state, SkillSyncState::RemoteOnly);
}

#[test]
fn pulled_expired_entitlement_revokes_at_apply() {
    let mut store = Feed::default();
    let mut item = upsert("remote-ent-2", 1);
    item.entitlement = managed_pull("2025-01-01T00:00:00Z", "2025-01-02T00:00:00Z");

    let applied = store.apply_changes_page(&page(vec![item], "v1.AAAAAQ")).expect("apply");

    assert_eq!(applied.entitlements, 1);
    let skill = store.get_skill("remote-ent-2").expect("skill");
    assert_eq!(skill.sync_state, SkillSyncState::AccessRevoked);
    assert!(!entitlement_allows_offline_use(store.get_entitlement("remote-ent-2").as_ref(), now()));
}

#[test]
fn malformed_entitlement_fails_whole_page() {
    let mut store = Feed::default();
    let mut item = upsert("remote-ent-3", 1);
    item.name = Some("Broken Lease".to_owned());
    item.slug = Some("broken-lease".to_owned());
    item.entitlement = EntitlementField::Malformed("missing field `permission_level`".to_owned());

    assert!(store.apply_changes_page(&page(vec![item], "v1.AAAAAQ")).is_err());
    assert!(store.get_skill("remote-ent-3").is_none());
    assert!(store.get_entitlement("remote-ent-3").is_none());
}

#[test]
fn page_rewrites_named_rows_and_leaves_the_rest() {
    let mut store = Feed::default();
    store.rows.push(local_row("local-1", "remote-1", "Old Name", "old-name", "sha256:old"));
    store.rows.push(local_row("local-2", "remote-2", "Untouched", "untouched", "sha256:keep"));
    let untouched = store.rows[1].clone();
    store
        .apply_changes_page(&page(vec![upsert("remote-1", 5), upsert("remote-9", 2)], "v1.AAAABQ"))
        .expect("apply");

    assert_eq!(store.rows.len(), 3);
    let updated = store.get_skill("local-1").expect("existing row updated in place");
    assert_eq!(updated.name, "Pulled Skill");
    assert_eq!(updated.slug, "pulled-skill");
    assert_eq!(updated.current_blob_hash, "sha256:abc");
    assert_eq!(updated.remote_revision, Some(5));
    assert_eq!(updated.sync_state, SkillSyncState::Synced);
    assert_eq!(updated.workspace_path, "/tmp/old-name");
    assert_eq!(store.rows[1], untouched);
    let added = store.get_skill("remote-9").expect("new row");
    assert_eq!(added.sync_state, SkillSyncState::RemoteOnly);
    assert_eq!(added.workspace_path, "/tmp\\remote-9");
}

#[test]
fn refused_pages_leave_the_catalog_as_it_was() {
    let row = local_row("local-1", "remote-1", "Kept", "kept", "sha256:keep");
    let mut catalog = PulledCatalog { rows: vec![row.clone()], leases: Vec::new(), cursor: Some("v1.AAAAAQ".to_owned()) };

    let blank_cursor = ChangesPage {
        protocol_version: 1,
        changes: vec![upsert("remote-2", 1), tombstone("remote-1", 2)],
        next_cursor: "   ".to_owned(),
        has_more: false,
    };
    assert!(catalog.apply_page(&Vec::new(), &Vec::new(), &blank_cursor, "/tmp", now()).is_err());
    let mut malformed = upsert("remote-ent-3", 1);
    malformed.entitlement = EntitlementField::Malformed("missing field `permission_level`".to_owned());
    let bad_lease = page(vec![tombstone("remote-1", 2), malformed], "v1.AAAAAg");
    assert!(catalog.apply_page(&Vec::new(), &Vec::new(), &bad_lease, "/tmp", now()).is_err());

    assert_eq!(catalog.rows, vec![row]);
    assert!(catalog.leases.is_empty());
    assert_eq!(catalog.cursor.as_deref(), Some("v1.AAAAAQ"));

    let applied = catalog
        .apply_page(&Vec::new(), &Vec::new(), &page(vec![upsert("remote-2", 1)], "v1.AAAAAw"), "/tmp", now())
        .expect("accepted");
    assert_eq!(applied.upserts, 1);
    assert_eq!(catalog.rows.len(), 2);
    assert_eq!(catalog.cursor.as_deref(), Some("v1.AAAAAw"));
}
