//! Applying one pulled change page.
//!
//! A page is applied as one transaction: upserts, tombstones, their
//! entitlement leases and the new cursor together. A change never destroys
//! unacknowledged local work: an upsert under a dirty, uploading or
//! conflicted skill marks it `conflict` and keeps its local snapshot (the
//! remote package is recorded beside it), and a tombstone for a skill with
//! pending mutations keeps the row as a conflict.
use vstd::prelude::*;
use crate::local_store::entitlements::{
    apply_entitlement, lease_expired, spec_parse_rfc3339, state_after_lease, StoredEntitlement, EntitlementPayload, EntitlementWrite, UtcInstant,
};
use crate::local_store::{validate_non_empty, LocalSkill, LocalStoreError, SkillSyncState};
use crate::text::{str_eq, trim_seq};

verus! {

/// The lease a change carries in its metadata.
#[derive(Debug, Clone)]
pub enum EntitlementField {
    /// No lease (or an explicit null).
    Absent,
    Present(EntitlementPayload),
    /// A lease that could not be decoded, with the decoder's message.
    Malformed(String),
}

/// One change of the feed.
#[derive(Debug, Clone)]
pub struct ChangeItem {
    pub sequence: i64,
    pub resource_type: String,
    pub resource_id: String,
    pub resource_revision: i64,
    pub operation: String,
    pub package_manifest_hash: Option<String>,
    /// `metadata.name`, when it is a string.
    pub name: Option<String>,
    /// `metadata.slug`, when it is a string.
    pub slug: Option<String>,
    pub entitlement: EntitlementField,
}

/// One page of the feed.
#[derive(Debug, Clone)]
pub struct ChangesPage {
    pub protocol_version: u32,
    pub changes: Vec<ChangeItem>,
    pub next_cursor: String,
    pub has_more: bool,
}

/// Result of applying one page.
#[derive(Debug, Clone, PartialEq, Eq)]
pub struct PageApplied {
    pub upserts: usize,
    pub tombstones: usize,
    pub conflicts_detected: u64,
    pub entitlements: usize,
}

/// The row a remote resource maps to: keyed by the resource id, or holding
/// it as its remote id.
pub open spec fn maps_to(row: LocalSkill, resource_id: Seq<char>) -> bool {
    row.id@ == resource_id || (row.remote_id matches Some(r) && r@ == resource_id)
}

pub open spec fn first_match(rows: Seq<LocalSkill>, resource_id: Seq<char>) -> Option<int> {
    if exists|i: int| 0 <= i < rows.len() && maps_to(#[trigger] rows[i], resource_id) {
        Some(choose|i: int| 0 <= i < rows.len() && maps_to(#[trigger] rows[i], resource_id) && forall|j: int|
            0 <= j < i ==> !maps_to(rows[j], resource_id))
    } else {
        None
    }
}

/// The first row a resource maps to.
pub fn find_local(rows: &Vec<LocalSkill>, resource_id: &str) -> (r: Option<usize>)
    ensures
        match r {
            Some(i) => i < rows@.len() && maps_to(rows@[i as int], resource_id@) && forall|j: int|
                0 <= j < i ==> !maps_to(rows@[j], resource_id@),
            None => forall|i: int| 0 <= i < rows@.len() ==> !maps_to(#[trigger] rows@[i], resource_id@),
        },
{
    let mut i: usize = 0;
    while i < rows.len()
        invariant
            i <= rows@.len(),
            forall|j: int| 0 <= j < i ==> !maps_to(#[trigger] rows@[j], resource_id@),
        decreases rows@.len() - i,
    {
        let row = &rows[i];
        let by_remote = match &row.remote_id {
            Some(r) => str_eq(r.as_str(), resource_id),
            None => false,
        };
        if str_eq(row.id.as_str(), resource_id) || by_remote {
            return Some(i);
        }
        i = i + 1;
    }
    None
}

/// The skill holds unacknowledged work the feed must not overwrite.
pub open spec fn holds_local_work(state: SkillSyncState) -> bool {
    state == SkillSyncState::Dirty || state == SkillSyncState::Conflict || state
        == SkillSyncState::Uploading
}

fn opt_or(a: &Option<String>, b: &Option<String>) -> (r: Option<String>)
    ensures
        r == (if a is Some {
            *a
        } else {
            *b
        }),
{
    match a {
        Some(v) => Some(v.clone()),
        None => b.clone(),
    }
}

fn or_else(a: &Option<String>, b: &String) -> (r: String)
    ensures
        r == match *a {
            Some(v) => v,
            None => *b,
        },
{
    match a {
        Some(v) => v.clone(),
        None => b.clone(),
    }
}

/// The row an upsert leaves, and whether it ran into local work.
///
/// A new resource becomes a remote-only row keyed by its id, named by its
/// metadata (or its id), with its package as snapshot and a workspace under
/// `temp_dir`. An existing row takes the remote revision and metadata; if
/// it holds local work it becomes `conflict`, keeps its local snapshot and
/// records the remote package beside it; otherwise it is `synced` with the
/// remote package as snapshot.
pub fn apply_upsert(existing: Option<&LocalSkill>, change: &ChangeItem, temp_dir: &str) -> (r: (
    LocalSkill,
    bool,
))
    ensures
        row_of(r.0) == upserted_row(
            match existing {
                Some(e) => Some(row_of(*e)),
                None => None,
            },
            *change,
            temp_dir@,
        ),
        match existing {
            None => !r.1 && r.0.id@ == change.resource_id@ && (r.0.remote_id matches Some(x) && x@
                == change.resource_id@) && r.0.sync_state == SkillSyncState::RemoteOnly
                && r.0.remote_revision == Some(change.resource_revision) && !r.0.pinned
                && r.0.remote_blob_hash is None && r.0.current_blob_hash@ == (match change.package_manifest_hash {
                Some(h) => h@,
                None => Seq::<char>::empty(),
            }) && r.0.name@ == (match change.name {
                Some(n) => n@,
                None => change.resource_id@,
            }) && r.0.slug@ == (match change.slug {
                Some(n) => n@,
                None => change.resource_id@,
            }) && r.0.workspace_path@ == temp_dir@ + seq!['\\'] + change.resource_id@,
            Some(e) => r.1 == holds_local_work(e.sync_state) && r.0.id == e.id
                && r.0.workspace_path == e.workspace_path && r.0.pinned == e.pinned
                && r.0.remote_revision == Some(change.resource_revision) && r.0.remote_id == (if e.remote_id is Some {
                e.remote_id
            } else {
                Some(change.resource_id)
            }) && r.0.name == (match change.name {
                Some(n) => n,
                None => e.name,
            }) && r.0.slug == (match change.slug {
                Some(n) => n,
                None => e.slug,
            }) && if holds_local_work(e.sync_state) {
                &&& r.0.sync_state == SkillSyncState::Conflict
                &&& r.0.current_blob_hash == e.current_blob_hash
                &&& r.0.remote_blob_hash == (if change.package_manifest_hash is Some {
                    change.package_manifest_hash
                } else {
                    e.remote_blob_hash
                })
            } else {
                &&& r.0.sync_state == SkillSyncState::Synced
                &&& r.0.current_blob_hash == (match change.package_manifest_hash {
                    Some(h) => h,
                    None => e.current_blob_hash,
                })
                &&& r.0.remote_blob_hash == e.remote_blob_hash
            },
        },
{
    match existing {
        None => {
            let mut workspace = temp_dir.to_owned();
            workspace.append("\\");
            workspace.append(change.resource_id.as_str());
            proof {
                reveal_strlit("\\");
            }
            let row = LocalSkill {
                id: change.resource_id.clone(),
                remote_id: Some(change.resource_id.clone()),
                name: or_else(&change.name, &change.resource_id),
                slug: or_else(&change.slug, &change.resource_id),
                workspace_path: workspace,
                current_blob_hash: match &change.package_manifest_hash {
                    Some(h) => h.clone(),
                    None => String::new(),
                },
                remote_blob_hash: None,
                remote_revision: Some(change.resource_revision),
                sync_state: SkillSyncState::RemoteOnly,
                pinned: false,
            };
            proof {
                let u = upserted_row(None, *change, temp_dir@);
                assert(row.current_blob_hash@ =~= u.current_blob_hash);
                assert(row.workspace_path@ =~= u.workspace_path);
                assert(row.name@ =~= u.name);
                assert(row.slug@ =~= u.slug);
                assert(row_of(row).remote_id == u.remote_id);
                assert(row_of(row) == u);
            }
            (row, false)
        },
        Some(e) => {
            let conflict = e.sync_state == SkillSyncState::Dirty || e.sync_state
                == SkillSyncState::Conflict || e.sync_state == SkillSyncState::Uploading;
            let (current, remote_blob, state) = if conflict {
                (
                    e.current_blob_hash.clone(),
                    opt_or(&change.package_manifest_hash, &e.remote_blob_hash),
                    SkillSyncState::Conflict,
                )
            } else {
                (
                    or_else(&change.package_manifest_hash, &e.current_blob_hash),
                    e.remote_blob_hash.clone(),
                    SkillSyncState::Synced,
                )
            };
            let row = LocalSkill {
                id: e.id.clone(),
                remote_id: match &e.remote_id {
                    Some(r) => Some(r.clone()),
                    None => Some(change.resource_id.clone()),
                },
                name: or_else(&change.name, &e.name),
                slug: or_else(&change.slug, &e.slug),
                workspace_path: e.workspace_path.clone(),
                current_blob_hash: current,
                remote_blob_hash: remote_blob,
                remote_revision: Some(change.resource_revision),
                sync_state: state,
                pinned: e.pinned,
            };
            (row, conflict)
        },
    }
}

/// What a tombstone does to the local row.
#[derive(Debug, Clone)]
pub enum TombstoneAction {
    /// Nothing is cached for the resource.
    Nothing,
    /// The row goes.
    Remove,
    /// Unacknowledged local work exists: the row stays, in conflict, at
    /// the remote revision.
    Conflict(LocalSkill),
}

/// A tombstone removes a clean row; a row with unacknowledged mutations is
/// kept as a conflict so the local work can still be exported or resolved.
pub fn apply_tombstone(existing: Option<&LocalSkill>, has_unacked: bool, change: &ChangeItem) -> (r:
    TombstoneAction)
    ensures
        existing is None ==> r is Nothing,
        existing is Some && !has_unacked ==> r is Remove,
        match existing {
            Some(e) => has_unacked ==> r == TombstoneAction::Conflict(
                LocalSkill {
                    remote_revision: Some(change.resource_revision),
                    sync_state: SkillSyncState::Conflict,
                    ..*e
                },
            ),
            None => true,
        },
{
    match existing {
        None => TombstoneAction::Nothing,
        Some(e) => {
            if has_unacked {
                TombstoneAction::Conflict(
                    LocalSkill {
                        id: e.id.clone(),
                        remote_id: e.remote_id.clone(),
                        name: e.name.clone(),
                        slug: e.slug.clone(),
                        workspace_path: e.workspace_path.clone(),
                        current_blob_hash: e.current_blob_hash.clone(),
                        remote_blob_hash: e.remote_blob_hash.clone(),
                        remote_revision: Some(change.resource_revision),
                        sync_state: SkillSyncState::Conflict,
                        pinned: e.pinned,
                    },
                )
            } else {
                TombstoneAction::Remove
            }
        },
    }
}

/// The change is a tombstone.
pub open spec fn is_tombstone(change: ChangeItem) -> bool {
    change.operation@ == "delete"@
}

fn contains_id(ids: &Vec<String>, id: &String) -> (b: bool)
    ensures
        b == exists|i: int| 0 <= i < ids@.len() && (#[trigger] ids@[i])@ == id@,
{
    let mut i: usize = 0;
    while i < ids.len()
        invariant
            i <= ids@.len(),
            forall|j: int| 0 <= j < i ==> (#[trigger] ids@[j])@ != id@,
        decreases ids@.len() - i,
    {
        if str_eq(ids[i].as_str(), id.as_str()) {
            return true;
        }
        i = i + 1;
    }
    false
}

/// Every row that held unacknowledged work is still there, with its
/// local snapshot.
pub open spec fn keeps_local_work(before: Seq<LocalSkill>, after: Seq<LocalSkill>) -> bool {
    forall|i: int|
        0 <= i < before.len() && holds_local_work(#[trigger] before[i].sync_state) ==> exists|k: int|
            0 <= k < after.len() && after[k].id == before[i].id
                && after[k].current_blob_hash == before[i].current_blob_hash
}

/// One of a lease's deadlines is present and does not parse.
pub open spec fn lease_deadline_fault(p: EntitlementPayload) -> bool {
    (p.expires_at matches Some(t) && spec_parse_rfc3339(t@) is None) || (p.issued_at matches Some(
        t,
    ) && spec_parse_rfc3339(t@) is None)
}

/// The change is an upsert whose lease cannot be stored: it could not be
/// decoded, or one of its deadlines does not parse.
pub open spec fn lease_refused(c: ChangeItem) -> bool {
    !is_tombstone(c) && match c.entitlement {
        EntitlementField::Absent => false,
        EntitlementField::Present(p) => lease_deadline_fault(p),
        EntitlementField::Malformed(_) => true,
    }
}

/// A page is applied exactly when its next cursor is not blank and none of
/// its upserts carries a lease that cannot be stored.
pub open spec fn page_accepted(page: ChangesPage) -> bool {
    &&& trim_seq(page.next_cursor@).len() > 0
    &&& forall|i: int| 0 <= i < page.changes@.len() ==> !lease_refused(#[trigger] page.changes@[i])
}

// ---------------------------------------------------------------------
// The skill table a page leaves, row by row.
/// A skill row by its text: what the rows of the table are compared by.
pub struct SkillRow {
    pub id: Seq<char>,
    pub remote_id: Option<Seq<char>>,
    pub name: Seq<char>,
    pub slug: Seq<char>,
    pub workspace_path: Seq<char>,
    pub current_blob_hash: Seq<char>,
    pub remote_blob_hash: Option<Seq<char>>,
    pub remote_revision: Option<i64>,
    pub sync_state: SkillSyncState,
    pub pinned: bool,
}

pub open spec fn opt_text(o: Option<String>) -> Option<Seq<char>> {
    match o {
        Some(s) => Some(s@),
        None => None,
    }
}

pub open spec fn row_of(s: LocalSkill) -> SkillRow {
    SkillRow {
        id: s.id@,
        remote_id: opt_text(s.remote_id),
        name: s.name@,
        slug: s.slug@,
        workspace_path: s.workspace_path@,
        current_blob_hash: s.current_blob_hash@,
        remote_blob_hash: opt_text(s.remote_blob_hash),
        remote_revision: s.remote_revision,
        sync_state: s.sync_state,
        pinned: s.pinned,
    }
}

/// The rows of a skill table.
pub open spec fn rows_of(t: Seq<LocalSkill>) -> Seq<SkillRow> {
    t.map_values(|s: LocalSkill| row_of(s))
}

/// The texts of a list of ids.
pub open spec fn id_texts(v: Seq<String>) -> Seq<Seq<char>> {
    v.map_values(|s: String| s@)
}

/// The row a remote resource maps to: keyed by the resource id, or holding
/// it as its remote id.
pub open spec fn row_maps_to(r: SkillRow, resource_id: Seq<char>) -> bool {
    r.id == resource_id || r.remote_id == Some(resource_id)
}

/// The index of the first row a resource maps to.
pub open spec fn first_row(rows: Seq<SkillRow>, resource_id: Seq<char>) -> Option<int> {
    if exists|i: int| 0 <= i < rows.len() && row_maps_to(#[trigger] rows[i], resource_id) {
        Some(
            choose|i: int|
                0 <= i < rows.len() && row_maps_to(#[trigger] rows[i], resource_id) && forall|j: int|
                    0 <= j < i ==> !row_maps_to(rows[j], resource_id),
        )
    } else {
        None
    }
}

/// The row an upsert leaves (see `apply_upsert`).
pub open spec fn upserted_row(existing: Option<SkillRow>, change: ChangeItem, temp_dir: Seq<char>) -> SkillRow {
    match existing {
        None => SkillRow {
            id: change.resource_id@,
            remote_id: Some(change.resource_id@),
            name: match change.name {
                Some(n) => n@,
                None => change.resource_id@,
            },
            slug: match change.slug {
                Some(n) => n@,
                None => change.resource_id@,
            },
            workspace_path: temp_dir + seq!['\\'] + change.resource_id@,
            current_blob_hash: match change.package_manifest_hash {
                Some(h) => h@,
                None => Seq::<char>::empty(),
            },
            remote_blob_hash: None,
            remote_revision: Some(change.resource_revision),
            sync_state: SkillSyncState::RemoteOnly,
            pinned: false,
        },
        Some(e) => SkillRow {
            remote_id: if e.remote_id is Some {
                e.remote_id
            } else {
                Some(change.resource_id@)
            },
            name: match change.name {
                Some(n) => n@,
                None => e.name,
            },
            slug: match change.slug {
                Some(n) => n@,
                None => e.slug,
            },
            current_blob_hash: if holds_local_work(e.sync_state) {
                e.current_blob_hash
            } else {
                match change.package_manifest_hash {
                    Some(h) => h@,
                    None => e.current_blob_hash,
                }
            },
            remote_blob_hash: if holds_local_work(e.sync_state) {
                match change.package_manifest_hash {
                    Some(h) => Some(h@),
                    None => e.remote_blob_hash,
                }
            } else {
                e.remote_blob_hash
            },
            remote_revision: Some(change.resource_revision),
            sync_state: if holds_local_work(e.sync_state) {
                SkillSyncState::Conflict
            } else {
                SkillSyncState::Synced
            },
            ..e
        },
    }
}

/// The state a pulled lease gives the row it is stored for, when it
/// changes it.
pub open spec fn leased_state(
    row: SkillRow,
    change: ChangeItem,
    revoked: Seq<Seq<char>>,
    now: UtcInstant,
) -> Option<SkillSyncState> {
    match change.entitlement {
        EntitlementField::Present(p) => state_after_lease(
            lease_expired(p.expires_at, now),
            Some(row.sync_state),
            row.remote_id is Some,
            revoked.contains(row.id),
        ),
        _ => None,
    }
}

/// The rows after one change, given the rows before it.
///
/// A tombstone removes the row it names, or, when the row holds
/// unacknowledged work (`unacked` or its state), keeps it as a conflict at
/// the remote revision; a tombstone for an unknown resource changes
/// nothing. An upsert rewrites the row it names as `upserted_row`, or adds
/// a new row; its lease may then change that row's state. Every other row
/// stays as it was, in place.
pub open spec fn change_rows(
    rows: Seq<SkillRow>,
    change: ChangeItem,
    unacked: Seq<Seq<char>>,
    revoked: Seq<Seq<char>>,
    temp_dir: Seq<char>,
    now: UtcInstant,
) -> Seq<SkillRow> {
    let found = first_row(rows, change.resource_id@);
    if is_tombstone(change) {
        match found {
            None => rows,
            Some(k) => if unacked.contains(rows[k].id) || holds_local_work(rows[k].sync_state) {
                rows.update(
                    k,
                    SkillRow {
                        remote_revision: Some(change.resource_revision),
                        sync_state: SkillSyncState::Conflict,
                        ..rows[k]
                    },
                )
            } else {
                rows.remove(k)
            },
        }
    } else {
        let after = match found {
            None => rows.push(upserted_row(None, change, temp_dir)),
            Some(k) => rows.update(k, upserted_row(Some(rows[k]), change, temp_dir)),
        };
        match first_row(after, change.resource_id@) {
            Some(k) => match leased_state(after[k], change, revoked, now) {
                Some(st) => after.update(k, SkillRow { sync_state: st, ..after[k] }),
                None => after,
            },
            None => after,
        }
    }
}

/// The rows after the changes, applied in order.
pub open spec fn page_rows(
    rows: Seq<SkillRow>,
    changes: Seq<ChangeItem>,
    unacked: Seq<Seq<char>>,
    revoked: Seq<Seq<char>>,
    temp_dir: Seq<char>,
    now: UtcInstant,
) -> Seq<SkillRow>
    decreases changes.len(),
{
    if changes.len() == 0 {
        rows
    } else {
        change_rows(
            page_rows(rows, changes.drop_last(), unacked, revoked, temp_dir, now),
            changes.last(),
            unacked,
            revoked,
            temp_dir,
            now,
        )
    }
}

/// `find_local`'s answer is the first row the resource maps to.
proof fn lemma_first_row(t: Seq<LocalSkill>, resource_id: Seq<char>, r: Option<usize>)
    requires
        match r {
            Some(i) => i < t.len() && maps_to(t[i as int], resource_id) && forall|j: int|
                0 <= j < i ==> !maps_to(t[j], resource_id),
            None => forall|i: int| 0 <= i < t.len() ==> !maps_to(#[trigger] t[i], resource_id),
        },
    ensures
        first_row(rows_of(t), resource_id) == match r {
            Some(i) => Some(i as int),
            None => None::<int>,
        },
{
    let rows = rows_of(t);
    assert forall|i: int| 0 <= i < t.len() implies row_maps_to(#[trigger] rows[i], resource_id) == maps_to(
        t[i],
        resource_id,
    ) by {
        assert(rows[i] == row_of(t[i]));
    }
    match r {
        Some(i) => {
            assert(row_maps_to(rows[i as int], resource_id));
            let c = choose|c: int|
                0 <= c < rows.len() && row_maps_to(#[trigger] rows[c], resource_id) && forall|j: int|
                    0 <= j < c ==> !row_maps_to(rows[j], resource_id);
            assert(forall|j: int| 0 <= j < i ==> !row_maps_to(rows[j], resource_id));
            if c < i {
                assert(!maps_to(t[c], resource_id));
            } else if c > i {
                assert(!row_maps_to(rows[i as int], resource_id));
            }
        },
        None => {},
    }
}

proof fn lemma_rows_remove(t: Seq<LocalSkill>, k: int)
    requires
        0 <= k < t.len(),
    ensures
        rows_of(t.remove(k)) == rows_of(t).remove(k),
{
    assert(rows_of(t.remove(k)) =~= rows_of(t).remove(k));
}

proof fn lemma_rows_update(t: Seq<LocalSkill>, k: int, x: LocalSkill)
    requires
        0 <= k < t.len(),
    ensures
        rows_of(t.update(k, x)) == rows_of(t).update(k, row_of(x)),
{
    assert(rows_of(t.update(k, x)) =~= rows_of(t).update(k, row_of(x)));
}

proof fn lemma_rows_push(t: Seq<LocalSkill>, x: LocalSkill)
    ensures
        rows_of(t.push(x)) == rows_of(t).push(row_of(x)),
{
    assert(rows_of(t.push(x)) =~= rows_of(t).push(row_of(x)));
}

proof fn lemma_id_texts_contains(ids: Seq<String>, id: Seq<char>, b: bool)
    requires
        b == exists|i: int| 0 <= i < ids.len() && (#[trigger] ids[i])@ == id,
    ensures
        b == id_texts(ids).contains(id),
{
    if b {
        let i = choose|i: int| 0 <= i < ids.len() && (#[trigger] ids[i])@ == id;
        assert(id_texts(ids)[i] == id);
    }
    if id_texts(ids).contains(id) {
        let i = choose|i: int| 0 <= i < id_texts(ids).len() && id_texts(ids)[i] == id;
        assert(ids[i]@ == id);
    }
}

/// Everything a page writes.
#[derive(Debug, Clone)]
pub struct PageWrite {
    /// The skill table after the page.
    pub rows: Vec<LocalSkill>,
    pub applied: PageApplied,
    /// The leases stored, in page order.
    pub entitlements: Vec<EntitlementWrite>,
    /// The cursor committed with the page.
    pub cursor: String,
}

/// Applies a page to the skill table `rows`, all or nothing.
///
/// `unacked_skill_ids` are the skills with unacknowledged mutations,
/// `revoked_by_outcome_ids` those revoked by a `permission_denied` outcome;
/// `temp_dir` is where new rows' workspaces go and `now` is the instant
/// leases are judged at. A malformed lease fails the whole page, and so
/// does a blank next cursor: the cursor never advances past content that
/// was not applied.
pub fn apply_changes_page(
    rows: Vec<LocalSkill>,
    unacked_skill_ids: &Vec<String>,
    revoked_by_outcome_ids: &Vec<String>,
    page: &ChangesPage,
    temp_dir: &str,
    now: UtcInstant,
) -> (r: Result<PageWrite, LocalStoreError>)
    requires
        page.changes@.len() < usize::MAX,
    ensures
        r matches Ok(w) ==> w.applied.upserts + w.applied.tombstones == page.changes@.len()
            && w.cursor@ == page.next_cursor@ && trim_seq(page.next_cursor@).len() > 0
            && w.applied.entitlements == w.entitlements@.len()
            && w.applied.conflicts_detected <= w.applied.upserts,
        r matches Ok(w) ==> keeps_local_work(rows@, w.rows@),
        r matches Ok(w) ==> rows_of(w.rows@) == page_rows(
            rows_of(rows@),
            page.changes@,
            id_texts(unacked_skill_ids@),
            id_texts(revoked_by_outcome_ids@),
            temp_dir@,
            now,
        ),
        trim_seq(page.next_cursor@).len() == 0 ==> r is Err,
        r is Ok <==> page_accepted(*page),
{
    let mut table = rows;
    let ghost orig = table@;
    let ghost un = id_texts(unacked_skill_ids@);
    let ghost rv = id_texts(revoked_by_outcome_ids@);
    let ghost td = temp_dir@;
    proof {
        assert(page.changes@.take(0) =~= Seq::<ChangeItem>::empty());
    }
    let mut applied = PageApplied { upserts: 0, tombstones: 0, conflicts_detected: 0, entitlements: 0 };
    let mut writes: Vec<EntitlementWrite> = Vec::new();
    let mut i: usize = 0;
    let n = page.changes.len();
    while i < n
        invariant
            n == page.changes@.len(),
            n < usize::MAX,
            i <= n,
            orig == rows@,
            applied.upserts + applied.tombstones == i,
            applied.conflicts_detected <= applied.upserts,
            applied.entitlements == writes@.len(),
            applied.entitlements <= i,
            forall|j: int| 0 <= j < i ==> !lease_refused(#[trigger] page.changes@[j]),
            un == id_texts(unacked_skill_ids@),
            rv == id_texts(revoked_by_outcome_ids@),
            td == temp_dir@,
            rows_of(table@) == page_rows(rows_of(orig), page.changes@.take(i as int), un, rv, td, now),
            forall|q: int|
                0 <= q < orig.len() && holds_local_work(#[trigger] orig[q].sync_state) ==> exists|k: int|
                    0 <= k < table@.len() && table@[k].id == orig[q].id
                        && table@[k].current_blob_hash == orig[q].current_blob_hash
                        && holds_local_work(table@[k].sync_state),
        decreases n - i,
    {
        let change = &page.changes[i];
        let tombstone = str_eq(change.operation.as_str(), "delete");
        let found = find_local(&table, change.resource_id.as_str());
        let ghost prev = rows_of(table@);
        let ghost ch = page.changes@[i as int];
        proof {
            lemma_first_row(table@, change.resource_id@, found);
            assert(ch == *change);
        }
        if tombstone {
            match found {
                None => {},
                Some(k) => {
                    let unacked = contains_id(unacked_skill_ids, &table[k].id);
                    proof {
                        lemma_id_texts_contains(unacked_skill_ids@, table@[k as int].id@, unacked);
                        assert(prev[k as int] == row_of(table@[k as int]));
                    }
                    let state_k = table[k].sync_state;
                    match apply_tombstone(Some(&table[k]), unacked || holds_work_exec(state_k), change) {
                        TombstoneAction::Nothing => {},
                        TombstoneAction::Remove => {
                            let ghost before = table@;
                            table.remove(k);
                            proof {
                                lemma_rows_remove(before, k as int);
                                assert forall|q: int|
                                    0 <= q < orig.len() && holds_local_work(#[trigger] orig[q].sync_state) implies exists|m: int|
                                        0 <= m < table@.len() && table@[m].id == orig[q].id
                                            && table@[m].current_blob_hash == orig[q].current_blob_hash
                                            && holds_local_work(table@[m].sync_state) by {
                                    let m = choose|m: int|
                                        0 <= m < before.len() && before[m].id == orig[q].id
                                            && before[m].current_blob_hash == orig[q].current_blob_hash
                                            && holds_local_work(before[m].sync_state);
                                    assert(m != k as int);
                                    if m < k {
                                        assert(table@[m] == before[m]);
                                    } else {
                                        assert(table@[m - 1] == before[m]);
                                    }
                                }
                            }
                        },
                        TombstoneAction::Conflict(row) => {
                            let ghost before = table@;
                            table.set(k, row);
                            proof {
                                lemma_rows_update(before, k as int, row);
                                assert(row_of(row) == (SkillRow {
                                    remote_revision: Some(ch.resource_revision),
                                    sync_state: SkillSyncState::Conflict,
                                    ..prev[k as int]
                                }));
                                assert forall|q: int|
                                    0 <= q < orig.len() && holds_local_work(#[trigger] orig[q].sync_state) implies exists|m: int|
                                        0 <= m < table@.len() && table@[m].id == orig[q].id
                                            && table@[m].current_blob_hash == orig[q].current_blob_hash
                                            && holds_local_work(table@[m].sync_state) by {
                                    let m = choose|m: int|
                                        0 <= m < before.len() && before[m].id == orig[q].id
                                            && before[m].current_blob_hash == orig[q].current_blob_hash
                                            && holds_local_work(before[m].sync_state);
                                    assert(table@[m].id == before[m].id);
                                    assert(table@[m].current_blob_hash == before[m].current_blob_hash);
                                }
                            }
                        },
                    }
                },
            }
            applied.tombstones = applied.tombstones + 1;
        } else {
            let ghost before = table@;
            match found {
                None => {
                    let (row, _) = apply_upsert(None, change, temp_dir);
                    table.push(row);
                    assert(maps_to(table@[table@.len() - 1], change.resource_id@));
                    proof {
                        lemma_rows_push(before, row);
                        assert forall|q: int|
                            0 <= q < orig.len() && holds_local_work(#[trigger] orig[q].sync_state) implies exists|m: int|
                                0 <= m < table@.len() && table@[m].id == orig[q].id
                                    && table@[m].current_blob_hash == orig[q].current_blob_hash
                                    && holds_local_work(table@[m].sync_state) by {
                            let m = choose|m: int|
                                0 <= m < before.len() && before[m].id == orig[q].id
                                    && before[m].current_blob_hash == orig[q].current_blob_hash
                                    && holds_local_work(before[m].sync_state);
                            assert(table@[m] == before[m]);
                        }
                    }
                },
                Some(k) => {
                    let (row, conflict) = apply_upsert(Some(&table[k]), change, temp_dir);
                    table.set(k, row);
                    assert(maps_to(table@[k as int], change.resource_id@));
                    if conflict {
                        applied.conflicts_detected = applied.conflicts_detected + 1;
                    }
                    proof {
                        lemma_rows_update(before, k as int, row);
                        assert(prev[k as int] == row_of(before[k as int]));
                        assert forall|q: int|
                            0 <= q < orig.len() && holds_local_work(#[trigger] orig[q].sync_state) implies exists|m: int|
                                0 <= m < table@.len() && table@[m].id == orig[q].id
                                    && table@[m].current_blob_hash == orig[q].current_blob_hash
                                    && holds_local_work(table@[m].sync_state) by {
                            let m = choose|m: int|
                                0 <= m < before.len() && before[m].id == orig[q].id
                                    && before[m].current_blob_hash == orig[q].current_blob_hash
                                    && holds_local_work(before[m].sync_state);
                            assert(table@[m].id == before[m].id);
                        }
                    }
                },
            }
            applied.upserts = applied.upserts + 1;
            let ghost after = rows_of(table@);
            proof {
                assert(after == match first_row(prev, ch.resource_id@) {
                    None => prev.push(upserted_row(None, ch, td)),
                    Some(k) => prev.update(k, upserted_row(Some(prev[k]), ch, td)),
                });
            }
            match &change.entitlement {
                EntitlementField::Absent => {},
                EntitlementField::Malformed(message) => {
                    assert(lease_refused(page.changes@[i as int]));
                    let mut m = String::from_str("change ");
                    m.append(change.resource_id.as_str());
                    m.append(" carries a malformed entitlement: ");
                    m.append(message.as_str());
                    return Err(LocalStoreError::InvalidPersistedState(m));
                },
                EntitlementField::Present(payload) => {
                    match find_local(&table, change.resource_id.as_str()) {
                        None => {
                            assert(false);
                        },
                        Some(k) => {
                            let revoked = contains_id(revoked_by_outcome_ids, &table[k].id);
                            let has_remote = table[k].remote_id.is_some();
                            proof {
                                lemma_first_row(table@, change.resource_id@, Some(k));
                                lemma_id_texts_contains(revoked_by_outcome_ids@, table@[k as int].id@, revoked);
                                assert(after[k as int] == row_of(table@[k as int]));
                            }
                            let attempt = apply_entitlement(
                                table[k].id.as_str(),
                                payload,
                                now,
                                Some(table[k].sync_state),
                                has_remote,
                                revoked,
                            );
                            let w = match attempt {
                                Ok(w) => w,
                                Err(e) => {
                                    assert(lease_refused(page.changes@[i as int]));
                                    return Err(e);
                                },
                            };
                            match w.skill_state {
                                Some(st) => {
                                    let ghost before2 = table@;
                                    let mut row = table[k].clone_row();
                                    row.sync_state = st;
                                    table.set(k, row);
                                    proof {
                                        lemma_rows_update(before2, k as int, row);
                                        assert(row_of(row) == (SkillRow { sync_state: st, ..after[k as int] }));
                                        assert forall|q: int|
                                            0 <= q < orig.len() && holds_local_work(#[trigger] orig[q].sync_state) implies exists|m: int|
                                                0 <= m < table@.len() && table@[m].id == orig[q].id
                                                    && table@[m].current_blob_hash == orig[q].current_blob_hash
                                                    && holds_local_work(table@[m].sync_state) by {
                                            let m = choose|m: int|
                                                0 <= m < before2.len() && before2[m].id == orig[q].id
                                                    && before2[m].current_blob_hash == orig[q].current_blob_hash
                                                    && holds_local_work(before2[m].sync_state);
                                            assert(table@[m].id == before2[m].id);
                                        }
                                    }
                                },
                                None => {},
                            }
                            writes.push(w);
                            applied.entitlements = applied.entitlements + 1;
                        },
                    }
                },
            }
        }
        assert(!lease_refused(page.changes@[i as int]));
        proof {
            assert(rows_of(table@) == change_rows(prev, ch, un, rv, td, now));
            assert(page.changes@.take(i + 1).drop_last() =~= page.changes@.take(i as int));
            assert(page.changes@.take(i + 1).last() == ch);
        }
        i = i + 1;
    }
    proof {
        assert(page.changes@.take(n as int) =~= page.changes@);
    }
    validate_non_empty("server_cursor", page.next_cursor.as_str())?;
    proof {
        assert forall|q: int|
            0 <= q < rows@.len() && holds_local_work(#[trigger] rows@[q].sync_state) implies exists|k: int|
                0 <= k < table@.len() && table@[k].id == rows@[q].id
                    && table@[k].current_blob_hash == rows@[q].current_blob_hash by {
            assert(orig[q] == rows@[q]);
            assert(holds_local_work(orig[q].sync_state));
        }
        assert(keeps_local_work(rows@, table@));
    }
    Ok(
        PageWrite {
            rows: table,
            applied,
            entitlements: writes,
            cursor: page.next_cursor.clone(),
        },
    )
}

/// The part of the local store a page of changes writes: the skill
/// table, the stored leases (in the order they were stored) and the feed
/// cursor.
pub struct PulledCatalog {
    pub rows: Vec<LocalSkill>,
    pub leases: Vec<StoredEntitlement>,
    pub cursor: Option<String>,
}

fn copy_rows(rows: &Vec<LocalSkill>) -> (r: Vec<LocalSkill>)
    ensures
        r@ == rows@,
{
    let mut out: Vec<LocalSkill> = Vec::new();
    let mut i: usize = 0;
    while i < rows.len()
        invariant
            i <= rows@.len(),
            out@ == rows@.take(i as int),
        decreases rows@.len() - i,
    {
        out.push(rows[i].clone_row());
        i = i + 1;
        assert(out@ =~= rows@.take(i as int));
    }
    assert(rows@.take(rows@.len() as int) =~= rows@);
    out
}

impl PulledCatalog {
    /// Applies a page of changes all or nothing: an accepted page replaces
    /// the rows as `apply_changes_page` computes them, stores its leases
    /// after the earlier ones and advances the cursor to the page's next
    /// cursor; a refused page changes nothing at all.
    pub fn apply_page(
        &mut self,
        unacked_skill_ids: &Vec<String>,
        revoked_by_outcome_ids: &Vec<String>,
        page: &ChangesPage,
        temp_dir: &str,
        now: UtcInstant,
    ) -> (r: Result<PageApplied, LocalStoreError>)
        requires
            page.changes@.len() < usize::MAX,
        ensures
            r is Ok <==> page_accepted(*page),
            r is Err ==> *final(self) == *old(self),
            r is Ok ==> rows_of(final(self).rows@) == page_rows(
                rows_of(old(self).rows@),
                page.changes@,
                id_texts(unacked_skill_ids@),
                id_texts(revoked_by_outcome_ids@),
                temp_dir@,
                now,
            ) && keeps_local_work(old(self).rows@, final(self).rows@),
            r matches Ok(a) ==> final(self).cursor matches Some(c) && c@ == page.next_cursor@
                && final(self).leases@.len() == old(self).leases@.len() + a.entitlements
                && final(self).leases@.take(old(self).leases@.len() as int) == old(self).leases@,
            r matches Ok(a) ==> a.upserts + a.tombstones == page.changes@.len(),
    {
        let rows = copy_rows(&self.rows);
        let w = match apply_changes_page(rows, unacked_skill_ids, revoked_by_outcome_ids, page, temp_dir, now) {
            Ok(w) => w,
            Err(e) => {
                return Err(e);
            },
        };
        let PageWrite { rows, applied, entitlements, cursor } = w;
        let ghost start = self.leases@;
        let mut i: usize = 0;
        while i < entitlements.len()
            invariant
                i <= entitlements@.len(),
                self.leases@.len() == start.len() + i,
                self.leases@.take(start.len() as int) == start,
            decreases entitlements@.len() - i,
        {
            let ghost before = self.leases@;
            self.leases.push(entitlements[i].stored.clone_entitlement());
            assert(self.leases@.take(start.len() as int) =~= before.take(start.len() as int));
            i = i + 1;
        }
        self.rows = rows;
        self.cursor = Some(cursor);
        Ok(applied)
    }
}

fn holds_work_exec(state: SkillSyncState) -> (b: bool)
    ensures
        b == holds_local_work(state),
{
    state == SkillSyncState::Dirty || state == SkillSyncState::Conflict || state
        == SkillSyncState::Uploading
}

impl LocalSkill {
    /// A field-by-field copy.
    pub fn clone_row(&self) -> (c: LocalSkill)
        ensures
            c == *self,
    {
        LocalSkill {
            id: self.id.clone(),
            remote_id: self.remote_id.clone(),
            name: self.name.clone(),
            slug: self.slug.clone(),
            workspace_path: self.workspace_path.clone(),
            current_blob_hash: self.current_blob_hash.clone(),
            remote_blob_hash: self.remote_blob_hash.clone(),
            remote_revision: self.remote_revision,
            sync_state: self.sync_state,
            pinned: self.pinned,
        }
    }
}

} // verus!
