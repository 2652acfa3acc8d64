//! Keeping the local blob cache within its byte budget.
//!
//! Every snapshot root (the current snapshot of each skill that is not
//! remote-only, each deployed snapshot, each payload of an unacknowledged
//! mutation) holds one reference on every blob of its closure (its manifest
//! and its files). Skills that are safe to drop are evicted oldest-accessed
//! first: the skill goes back to remote-only and its references are
//! released; a blob is deleted only when no reference on it remains. When
//! every root resolved, unreferenced blobs are swept too. A root whose
//! manifest cannot be read keeps its skill and disables the sweep.
use vstd::prelude::*;
use crate::local_store::{LocalStoreError, SkillDeploymentRecord, SkillSyncState};
use crate::skill_snapshot::SnapshotError;
use crate::text::{nat_text, str_eq, u64_text};

verus! {

#[derive(Debug, Clone, PartialEq, Eq)]
pub struct CacheEnforcementReport {
    pub budget_bytes: u64,
    pub before_bytes: u64,
    pub after_bytes: u64,
    pub evicted_skills: Vec<String>,
    pub deleted_blobs: usize,
    pub skipped_skills: Vec<String>,
    pub diagnostics: Vec<String>,
}

/// A skill as the cache sees it.
#[derive(Debug, Clone, PartialEq, Eq)]
pub struct CacheSkillRecord {
    pub skill_id: String,
    pub remote_id: Option<String>,
    pub workspace_path: String,
    pub snapshot_hash: String,
    pub sync_state: SkillSyncState,
    pub pinned: bool,
    pub last_accessed_at: String,
}

/// A blob file found in the store.
#[derive(Debug, Clone, PartialEq, Eq)]
pub struct BlobInventoryEntry {
    pub hash: String,
    pub path: String,
    pub size_bytes: u64,
}

/// The blobs a snapshot root keeps alive, or why its manifest could not be
/// read.
#[derive(Debug)]
pub struct ResolvedRoot {
    pub snapshot_hash: String,
    pub closure: Result<Vec<String>, String>,
}

/// The number of references held on one blob.
#[derive(Debug, Clone, PartialEq, Eq)]
pub struct BlobCount {
    pub hash: String,
    pub count: u64,
}

#[derive(Debug)]
pub enum CacheManagerError {
    Io(String),
    LocalStore(LocalStoreError),
    BlobStore(String),
    Snapshot(SnapshotError),
    SizeOverflow,
    InventoryPathMismatch { hash: String, expected: String, actual: String },
}

/// Enforcement in progress: the report so far, the references still held,
/// and what was found on disk.
#[derive(Debug)]
pub struct CacheEnforcer {
    pub report: CacheEnforcementReport,
    pub counts: Vec<BlobCount>,
    pub roots: Vec<ResolvedRoot>,
    pub inventory: Vec<BlobInventoryEntry>,
    pub deployed_skill_ids: Vec<String>,
    pub any_unresolved: bool,
}

/// What to do with the next eviction candidate.
#[derive(Debug, Clone, Copy, PartialEq, Eq, Structural)]
pub enum CandidateAction {
    /// The cache is within budget: stop evicting.
    Stop,
    /// Keep this skill.
    Skip,
    /// Try to claim the skill for eviction in the catalog.
    Claim,
}

// ---------------------------------------------------------------------
// Views.
pub open spec fn views(v: Seq<String>) -> Seq<Seq<char>> {
    v.map_values(|s: String| s@)
}

pub open spec fn sum_inventory(inv: Seq<BlobInventoryEntry>) -> int
    decreases inv.len(),
{
    if inv.len() == 0 {
        0
    } else {
        sum_inventory(inv.drop_last()) + inv.last().size_bytes
    }
}

/// The references held on blob `h`.
pub open spec fn count_of(counts: Seq<BlobCount>, h: Seq<char>) -> int {
    if exists|i: int| 0 <= i < counts.len() && (#[trigger] counts[i]).hash@ == h {
        counts[choose|i: int| 0 <= i < counts.len() && (#[trigger] counts[i]).hash@ == h].count as int
    } else {
        0
    }
}

/// No blob is counted twice.
pub open spec fn counts_unique(counts: Seq<BlobCount>) -> bool {
    forall|i: int, j: int|
        0 <= i < counts.len() && 0 <= j < counts.len() && i != j ==> (#[trigger] counts[i]).hash@
            != (#[trigger] counts[j]).hash@
}

proof fn lemma_count_at(counts: Seq<BlobCount>, i: int)
    requires
        counts_unique(counts),
        0 <= i < counts.len(),
    ensures
        count_of(counts, counts[i].hash@) == counts[i].count,
{
    let h = counts[i].hash@;
    let k = choose|k: int| 0 <= k < counts.len() && (#[trigger] counts[k]).hash@ == h;
    assert(0 <= k < counts.len() && counts[k].hash@ == h);
    assert(k == i);
}

proof fn lemma_count_absent(counts: Seq<BlobCount>, h: Seq<char>)
    requires
        forall|i: int| 0 <= i < counts.len() ==> (#[trigger] counts[i]).hash@ != h,
    ensures
        count_of(counts, h) == 0,
{
}

/// A skill the cache may drop: synced, not pinned, known to the server,
/// not deployed, and with no workspace on disk.
pub open spec fn spec_is_evictable(
    skill: CacheSkillRecord,
    deployed: Seq<Seq<char>>,
    workspace_exists: bool,
) -> bool {
    &&& skill.sync_state == SkillSyncState::Synced
    &&& !skill.pinned
    &&& skill.remote_id is Some
    &&& !deployed.contains(skill.skill_id@)
    &&& !workspace_exists
}

/// Only a synced skill that the server knows, that is not pinned, not
/// deployed and has no workspace on disk may be evicted: in particular a
/// pinned skill never is, whatever else holds of it.
pub proof fn lemma_only_unpinned_synced_skills_are_evictable(
    skill: CacheSkillRecord,
    deployed: Seq<Seq<char>>,
    workspace_exists: bool,
)
    ensures
        spec_is_evictable(skill, deployed, workspace_exists) ==> skill.sync_state
            == SkillSyncState::Synced && !skill.pinned && skill.remote_id is Some && !workspace_exists
            && !deployed.contains(skill.skill_id@),
        skill.pinned ==> !spec_is_evictable(skill, deployed, workspace_exists),
{
}

fn contains_str(v: &Vec<String>, s: &str) -> (b: bool)
    ensures
        b == views(v@).contains(s@),
{
    let mut i: usize = 0;
    while i < v.len()
        invariant
            i <= v@.len(),
            forall|k: int| 0 <= k < i ==> v@[k]@ != s@,
        decreases v@.len() - i,
    {
        if str_eq(v[i].as_str(), s) {
            assert(views(v@)[i as int] == s@);
            return true;
        }
        i = i + 1;
    }
    proof {
        if views(v@).contains(s@) {
            let k = choose|k: int| 0 <= k < views(v@).len() && views(v@)[k] == s@;
            assert(v@[k]@ == s@);
        }
    }
    false
}

pub fn is_evictable(skill: &CacheSkillRecord, deployed_skill_ids: &Vec<String>, workspace_exists: bool) -> (b:
    bool)
    ensures
        b == spec_is_evictable(*skill, views(deployed_skill_ids@), workspace_exists),
        b ==> skill.sync_state == SkillSyncState::Synced && !skill.pinned && skill.remote_id is Some
            && !workspace_exists && !views(deployed_skill_ids@).contains(skill.skill_id@),
        skill.pinned ==> !b,
{
    skill.sync_state == SkillSyncState::Synced && !skill.pinned && skill.remote_id.is_some()
        && !contains_str(deployed_skill_ids, skill.skill_id.as_str()) && !workspace_exists
}

/// The blobs a manifest keeps alive: the manifest itself and every file's
/// blob, each once.
pub fn snapshot_closure(manifest_hash: &str, manifest: &crate::skill_snapshot::SkillSnapshotManifest) -> (r:
    Vec<String>)
    ensures
        r@.len() > 0,
        r@[0]@ == manifest_hash@,
        forall|i: int, j: int| 0 <= i < j < r@.len() ==> r@[i]@ != r@[j]@,
        forall|k: int|
            0 <= k < manifest.files@.len() ==> views(r@).contains(
                #[trigger] manifest.files@[k].blob_hash@,
            ),
        forall|i: int|
            0 <= i < r@.len() ==> r@[i]@ == manifest_hash@ || exists|k: int|
                0 <= k < manifest.files@.len() && #[trigger] manifest.files@[k].blob_hash@
                    == r@[i]@,
{
    let mut out: Vec<String> = Vec::new();
    out.push(manifest_hash.to_owned());
    let mut k: usize = 0;
    while k < manifest.files.len()
        invariant
            k <= manifest.files@.len(),
            out@.len() > 0,
            out@[0]@ == manifest_hash@,
            forall|i: int, j: int| 0 <= i < j < out@.len() ==> out@[i]@ != out@[j]@,
            forall|q: int| 0 <= q < k ==> views(out@).contains(#[trigger] manifest.files@[q].blob_hash@),
            forall|i: int|
                0 <= i < out@.len() ==> out@[i]@ == manifest_hash@ || exists|q: int|
                    0 <= q < manifest.files@.len() && #[trigger] manifest.files@[q].blob_hash@
                        == out@[i]@,
        decreases manifest.files@.len() - k,
    {
        let h = &manifest.files[k].blob_hash;
        if !contains_str(&out, h.as_str()) {
            let ghost before = out@;
            proof {
                assert forall|i: int| 0 <= i < before.len() implies before[i]@ != h@ by {
                    assert(views(before)[i] == before[i]@);
                }
            }
            out.push(h.clone());
            proof {
                assert forall|q: int| 0 <= q <= k implies views(out@).contains(
                    #[trigger] manifest.files@[q].blob_hash@,
                ) by {
                    if q < k {
                        let w = choose|w: int|
                            0 <= w < views(before).len() && views(before)[w]
                                == manifest.files@[q].blob_hash@;
                        assert(views(out@)[w] == views(before)[w]);
                    } else {
                        assert(views(out@)[before.len() as int] == h@);
                    }
                }
            }
        } else {
            proof {
                assert forall|q: int| 0 <= q <= k implies views(out@).contains(
                    #[trigger] manifest.files@[q].blob_hash@,
                ) by {}
            }
        }
        k = k + 1;
    }
    out
}

// ---------------------------------------------------------------------
// Roots and reference counts.
/// The snapshot references of the skills that are not remote-only.
pub open spec fn skill_refs(skills: Seq<CacheSkillRecord>) -> Seq<Seq<char>>
    decreases skills.len(),
{
    if skills.len() == 0 {
        seq![]
    } else if skills.last().sync_state == SkillSyncState::RemoteOnly {
        skill_refs(skills.drop_last())
    } else {
        skill_refs(skills.drop_last()).push(skills.last().snapshot_hash@)
    }
}

/// Every snapshot reference, once per holder: the current snapshot of each
/// skill that is not remote-only, each deployed snapshot, and each payload
/// of an unacknowledged mutation.
pub open spec fn root_refs(
    skills: Seq<CacheSkillRecord>,
    deployments: Seq<SkillDeploymentRecord>,
    payloads: Seq<String>,
) -> Seq<Seq<char>> {
    skill_refs(skills) + deployments.map_values(|d: SkillDeploymentRecord| d.deployed_blob_hash@)
        + views(payloads)
}

pub fn snapshot_roots(
    skills: &Vec<CacheSkillRecord>,
    deployments: &Vec<SkillDeploymentRecord>,
    payloads: &Vec<String>,
) -> (r: Vec<String>)
    ensures
        views(r@) == root_refs(skills@, deployments@, payloads@),
{
    let mut out: Vec<String> = Vec::new();
    let mut i: usize = 0;
    while i < skills.len()
        invariant
            i <= skills@.len(),
            out@.len() == skill_refs(skills@.take(i as int)).len(),
            forall|k: int| 0 <= k < out@.len() ==> #[trigger] out@[k]@ == skill_refs(skills@.take(i as int))[k],
        decreases skills@.len() - i,
    {
        assert(skills@.take(i as int + 1).drop_last() =~= skills@.take(i as int));
        assert(skills@.take(i as int + 1).last() == skills@[i as int]);
        if skills[i].sync_state != SkillSyncState::RemoteOnly {
            out.push(skills[i].snapshot_hash.clone());
        }
        i = i + 1;
    }
    assert(skills@.take(skills@.len() as int) =~= skills@);
    let ghost n1 = out@.len() as int;
    let mut j: usize = 0;
    while j < deployments.len()
        invariant
            j <= deployments@.len(),
            n1 == skill_refs(skills@).len(),
            out@.len() == n1 + j,
            forall|k: int| 0 <= k < n1 ==> #[trigger] out@[k]@ == skill_refs(skills@)[k],
            forall|k: int| 0 <= k < j ==> #[trigger] out@[n1 + k]@ == deployments@[k].deployed_blob_hash@,
        decreases deployments@.len() - j,
    {
        out.push(deployments[j].deployed_blob_hash.clone());
        j = j + 1;
    }
    let ghost n2 = out@.len() as int;
    let mut k: usize = 0;
    while k < payloads.len()
        invariant
            k <= payloads@.len(),
            n1 == skill_refs(skills@).len(),
            n2 == n1 + deployments@.len(),
            out@.len() == n2 + k,
            forall|q: int| 0 <= q < n1 ==> #[trigger] out@[q]@ == skill_refs(skills@)[q],
            forall|q: int| 0 <= q < deployments@.len() ==> #[trigger] out@[n1 + q]@ == deployments@[q].deployed_blob_hash@,
            forall|q: int| 0 <= q < k ==> #[trigger] out@[n2 + q]@ == payloads@[q]@,
        decreases payloads@.len() - k,
    {
        out.push(payloads[k].clone());
        k = k + 1;
    }
    proof {
        let target = root_refs(skills@, deployments@, payloads@);
        assert forall|q: int| 0 <= q < out@.len() implies #[trigger] views(out@)[q] == target[q] by {
            if q < n1 {
                assert(out@[q]@ == skill_refs(skills@)[q]);
            } else if q < n2 {
                assert(out@[n1 + (q - n1)]@ == deployments@[q - n1].deployed_blob_hash@);
            } else {
                assert(out@[n2 + (q - n2)]@ == payloads@[q - n2]@);
            }
        }
        assert(views(out@) =~= target);
    }
    out
}

/// Resolution results have distinct closures.
pub open spec fn roots_well_formed(roots: Seq<ResolvedRoot>) -> bool {
    forall|r: int|
        0 <= r < roots.len() ==> ((#[trigger] roots[r]).closure matches Ok(c) ==> (forall|i: int, j: int|
            0 <= i < j < c@.len() ==> c@[i]@ != c@[j]@))
}

/// The first resolution recorded for snapshot `h`.
pub open spec fn root_index(roots: Seq<ResolvedRoot>, h: Seq<char>) -> Option<int> {
    if exists|r: int| 0 <= r < roots.len() && (#[trigger] roots[r]).snapshot_hash@ == h {
        Some(
            choose|r: int|
                0 <= r < roots.len() && (#[trigger] roots[r]).snapshot_hash@ == h && forall|q: int|
                    0 <= q < r ==> roots[q].snapshot_hash@ != h,
        )
    } else {
        None
    }
}

/// The blobs snapshot `h` keeps alive, when it resolved.
pub open spec fn closure_of(roots: Seq<ResolvedRoot>, h: Seq<char>) -> Option<Seq<Seq<char>>> {
    match root_index(roots, h) {
        Some(r) => match roots[r].closure {
            Ok(c) => Some(views(c@)),
            Err(_) => None,
        },
        None => None,
    }
}

/// How many references among `refs` keep blob `b` alive.
pub open spec fn refs_holding(refs: Seq<Seq<char>>, roots: Seq<ResolvedRoot>, b: Seq<char>) -> nat
    decreases refs.len(),
{
    if refs.len() == 0 {
        0
    } else {
        refs_holding(refs.drop_last(), roots, b) + (if closure_of(roots, refs.last()) matches Some(c)
            && c.contains(b) {
            1nat
        } else {
            0nat
        })
    }
}

proof fn lemma_first_index_exists(roots: Seq<ResolvedRoot>, h: Seq<char>, r: int)
    requires
        0 <= r < roots.len(),
        roots[r].snapshot_hash@ == h,
    ensures
        exists|r2: int|
            0 <= r2 < roots.len() && (#[trigger] roots[r2]).snapshot_hash@ == h && forall|q: int|
                0 <= q < r2 ==> roots[q].snapshot_hash@ != h,
    decreases r,
{
    if exists|q: int| 0 <= q < r && roots[q].snapshot_hash@ == h {
        let q = choose|q: int| 0 <= q < r && roots[q].snapshot_hash@ == h;
        lemma_first_index_exists(roots, h, q);
    } else {
        assert(forall|q: int| 0 <= q < r ==> roots[q].snapshot_hash@ != h);
    }
}

/// The resolution of snapshot `hash`: the index of its first record.
fn find_root(roots: &Vec<ResolvedRoot>, hash: &str) -> (r: Option<usize>)
    ensures
        match r {
            Some(i) => i < roots@.len() && root_index(roots@, hash@) == Some(i as int),
            None => root_index(roots@, hash@) is None,
        },
{
    let mut i: usize = 0;
    while i < roots.len()
        invariant
            i <= roots@.len(),
            forall|q: int| 0 <= q < i ==> roots@[q].snapshot_hash@ != hash@,
        decreases roots@.len() - i,
    {
        if str_eq(roots[i].snapshot_hash.as_str(), hash) {
            proof {
                lemma_first_index_exists(roots@, hash@, i as int);
                let c = choose|r: int|
                    0 <= r < roots@.len() && (#[trigger] roots@[r]).snapshot_hash@ == hash@
                        && forall|q: int| 0 <= q < r ==> roots@[q].snapshot_hash@ != hash@;
                if c < i {
                } else if c > i {
                    assert(roots@[i as int].snapshot_hash@ == hash@);
                }
            }
            return Some(i);
        }
        i = i + 1;
    }
    None
}

fn find_count(counts: &Vec<BlobCount>, hash: &str) -> (r: Option<usize>)
    ensures
        match r {
            Some(i) => i < counts@.len() && counts@[i as int].hash@ == hash@,
            None => forall|i: int| 0 <= i < counts@.len() ==> (#[trigger] counts@[i]).hash@ != hash@,
        },
{
    let mut i: usize = 0;
    while i < counts.len()
        invariant
            i <= counts@.len(),
            forall|q: int| 0 <= q < i ==> (#[trigger] counts@[q]).hash@ != hash@,
        decreases counts@.len() - i,
    {
        if str_eq(counts[i].hash.as_str(), hash) {
            return Some(i);
        }
        i = i + 1;
    }
    None
}

/// Adds one reference on each blob of a closure whose members are distinct.
fn add_reference(counts: &mut Vec<BlobCount>, closure: &Vec<String>, bound: u64)
    requires
        counts_unique(old(counts)@),
        forall|i: int| 0 <= i < old(counts)@.len() ==> (#[trigger] old(counts)@[i]).count < bound,
        1 <= bound < u64::MAX,
        forall|i: int, j: int| 0 <= i < j < closure@.len() ==> closure@[i]@ != closure@[j]@,
    ensures
        counts_unique(final(counts)@),
        forall|i: int| 0 <= i < final(counts)@.len() ==> (#[trigger] final(counts)@[i]).count <= bound,
        forall|h: Seq<char>|
            #[trigger] count_of(final(counts)@, h) == count_of(old(counts)@, h) + (if views(
                closure@,
            ).contains(h) {
                1int
            } else {
                0int
            }),
{
    let ghost start = counts@;
    let mut j: usize = 0;
    while j < closure.len()
        invariant
            j <= closure@.len(),
            1 <= bound < u64::MAX,
            counts_unique(counts@),
            forall|i: int, k: int| 0 <= i < k < closure@.len() ==> closure@[i]@ != closure@[k]@,
            forall|i: int| 0 <= i < counts@.len() ==> (#[trigger] counts@[i]).count <= bound,
            forall|i: int|
                0 <= i < counts@.len() ==> (#[trigger] counts@[i]).count == bound ==> views(
                    closure@.take(j as int),
                ).contains(counts@[i].hash@) || count_of(start, counts@[i].hash@) == bound,
            forall|h: Seq<char>|
                #[trigger] count_of(counts@, h) == count_of(start, h) + (if views(
                    closure@.take(j as int),
                ).contains(h) {
                    1int
                } else {
                    0int
                }),
            forall|i: int| 0 <= i < start.len() ==> (#[trigger] start[i]).count < bound,
            counts_unique(start),
        decreases closure@.len() - j,
    {
        let m = &closure[j];
        let ghost before = counts@;
        let ghost mv = m@;
        proof {
            assert(views(closure@.take(j as int + 1)) =~= views(closure@.take(j as int)).push(mv));
            assert(!views(closure@.take(j as int)).contains(mv)) by {
                if views(closure@.take(j as int)).contains(mv) {
                    let w = choose|w: int|
                        0 <= w < views(closure@.take(j as int)).len() && views(
                            closure@.take(j as int),
                        )[w] == mv;
                    assert(closure@[w]@ == mv);
                }
            }
        }
        match find_count(counts, m.as_str()) {
            Some(i) => {
                proof {
                    lemma_count_at(before, i as int);
                    assert(count_of(before, mv) == count_of(start, mv));
                    if count_of(start, mv) > 0 {
                        let w = choose|w: int|
                            0 <= w < start.len() && (#[trigger] start[w]).hash@ == mv;
                        lemma_count_at(start, w);
                    }
                }
                let c = counts[i].count;
                let h = counts[i].hash.clone();
                counts.set(i, BlobCount { hash: h, count: c + 1 });
                proof {
                    assert forall|a: int, b: int|
                        0 <= a < counts@.len() && 0 <= b < counts@.len() && a != b implies (
                        #[trigger] counts@[a]).hash@ != (#[trigger] counts@[b]).hash@ by {
                        assert(before[a].hash@ == counts@[a].hash@);
                        assert(before[b].hash@ == counts@[b].hash@);
                    }
                    assert forall|hh: Seq<char>| #[trigger]
                        count_of(counts@, hh) == count_of(before, hh) + (if hh == mv {
                            1int
                        } else {
                            0int
                        }) by {
                        if hh == mv {
                            lemma_count_at(counts@, i as int);
                        } else if exists|w: int| 0 <= w < before.len() && (#[trigger] before[w]).hash@ == hh {
                            let w = choose|w: int| 0 <= w < before.len() && (#[trigger] before[w]).hash@ == hh;
                            lemma_count_at(before, w);
                            lemma_count_at(counts@, w);
                        } else {
                            assert forall|w: int| 0 <= w < counts@.len() implies (
                            #[trigger] counts@[w]).hash@ != hh by {
                                assert(before[w].hash@ == counts@[w].hash@);
                            }
                        }
                    }
                }
            },
            None => {
                counts.push(BlobCount { hash: m.clone(), count: 1 });
                proof {
                    lemma_count_absent(before, mv);
                    assert forall|hh: Seq<char>| #[trigger]
                        count_of(counts@, hh) == count_of(before, hh) + (if hh == mv {
                            1int
                        } else {
                            0int
                        }) by {
                        if hh == mv {
                            lemma_count_at(counts@, before.len() as int);
                        } else if exists|w: int| 0 <= w < before.len() && (#[trigger] before[w]).hash@ == hh {
                            let w = choose|w: int| 0 <= w < before.len() && (#[trigger] before[w]).hash@ == hh;
                            lemma_count_at(before, w);
                            lemma_count_at(counts@, w);
                        } else {
                            assert forall|w: int| 0 <= w < counts@.len() implies (
                            #[trigger] counts@[w]).hash@ != hh by {
                                if w < before.len() {
                                    assert(before[w].hash@ == counts@[w].hash@);
                                }
                            }
                        }
                    }
                }
            },
        }
        proof {
            assert forall|hh: Seq<char>| #[trigger]
                count_of(counts@, hh) == count_of(start, hh) + (if views(closure@.take(j as int + 1)).contains(hh) {
                    1int
                } else {
                    0int
                }) by {
                assert(count_of(counts@, hh) == count_of(before, hh) + (if hh == mv { 1int } else { 0int }));
                if hh == mv {
                    assert(views(closure@.take(j as int + 1))[j as int] == mv);
                } else {
                    if views(closure@.take(j as int + 1)).contains(hh) {
                        let w = choose|w: int| 0 <= w < views(closure@.take(j as int + 1)).len() && #[trigger] views(closure@.take(j as int + 1))[w] == hh;
                        assert(views(closure@.take(j as int))[w] == hh);
                    }
                    if views(closure@.take(j as int)).contains(hh) {
                        let w = choose|w: int| 0 <= w < views(closure@.take(j as int)).len() && #[trigger] views(closure@.take(j as int))[w] == hh;
                        assert(views(closure@.take(j as int + 1))[w] == hh);
                    }
                }
            }
            assert forall|i: int|
                0 <= i < counts@.len() implies (#[trigger] counts@[i]).count <= bound by {
                lemma_count_at(counts@, i);
                let hh = counts@[i].hash@;
                if exists|w: int| 0 <= w < start.len() && (#[trigger] start[w]).hash@ == hh {
                    let w = choose|w: int| 0 <= w < start.len() && (#[trigger] start[w]).hash@ == hh;
                    lemma_count_at(start, w);
                }
            }
            assert forall|i: int|
                0 <= i < counts@.len() && (#[trigger] counts@[i]).count == bound implies views(
                    closure@.take(j as int + 1),
                ).contains(counts@[i].hash@) || count_of(start, counts@[i].hash@) == bound by {
                lemma_count_at(counts@, i);
            }
        }
        j = j + 1;
    }
    proof {
        assert(closure@.take(closure@.len() as int) =~= closure@);
    }
}

// ---------------------------------------------------------------------
// Enforcement.
/// Every inventory entry's blob is counted by what the references hold.
pub open spec fn counts_match(
    counts: Seq<BlobCount>,
    refs: Seq<Seq<char>>,
    roots: Seq<ResolvedRoot>,
) -> bool {
    forall|h: Seq<char>| #[trigger] count_of(counts, h) == refs_holding(refs, roots, h)
}

/// Some snapshot root could not be resolved.
pub open spec fn has_unresolved(roots: Seq<ResolvedRoot>) -> bool {
    exists|r: int| 0 <= r < roots.len() && (#[trigger] roots[r]).closure is Err
}

fn resolved_closure<'a>(roots: &'a Vec<ResolvedRoot>, hash: &str) -> (r: Option<&'a Vec<String>>)
    ensures
        match r {
            Some(c) => closure_of(roots@, hash@) == Some(views(c@)) && exists|i: int|
                0 <= i < roots@.len() && roots@[i].closure == Ok::<Vec<String>, String>(*c),
            None => closure_of(roots@, hash@) is None,
        },
{
    match find_root(roots, hash) {
        Some(i) => match &roots[i].closure {
            Ok(c) => Some(c),
            Err(_) => None,
        },
        None => None,
    }
}

proof fn lemma_refs_holding_step(refs: Seq<Seq<char>>, roots: Seq<ResolvedRoot>, i: int, h: Seq<char>)
    requires
        0 <= i < refs.len(),
    ensures
        refs_holding(refs.take(i + 1), roots, h) == refs_holding(refs.take(i), roots, h) + (if closure_of(roots, refs[i]) matches Some(c) && c.contains(h) {
            1nat
        } else {
            0nat
        }),
{
    assert(refs.take(i + 1).drop_last() =~= refs.take(i));
}

impl CacheEnforcer {
    /// Starts enforcing `max_bytes` over the blobs found on disk.
    ///
    /// `refs` are the snapshot references (as `snapshot_roots` lists them),
    /// `roots` the resolution of each referenced snapshot. The blobs' total
    /// size must fit in a `u64`. When the cache is over budget, every
    /// unresolved root is reported and each blob is counted once per
    /// reference whose closure holds it.
    pub fn start(
        max_bytes: u64,
        refs: &Vec<String>,
        roots: Vec<ResolvedRoot>,
        inventory: Vec<BlobInventoryEntry>,
        deployed_skill_ids: Vec<String>,
    ) -> (r: Result<CacheEnforcer, CacheManagerError>)
        requires
            roots_well_formed(roots@),
            refs@.len() < u64::MAX - 1,
        ensures
            r is Err <==> sum_inventory(inventory@) > u64::MAX,
            r is Err ==> r matches Err(CacheManagerError::SizeOverflow),
            r matches Ok(e) ==> e.report.budget_bytes == max_bytes && e.report.before_bytes
                == sum_inventory(inventory@) && e.report.after_bytes == e.report.before_bytes
                && e.report.evicted_skills@.len() == 0 && e.report.deleted_blobs == 0
                && e.report.skipped_skills@.len() == 0 && e.roots@ == roots@ && e.inventory@
                == inventory@ && e.deployed_skill_ids@ == deployed_skill_ids@ && counts_unique(
                e.counts@,
            ) && (e.report.before_bytes > max_bytes ==> counts_match(
                e.counts@,
                views(refs@),
                roots@,
            ) && e.any_unresolved == has_unresolved(roots@)),
        r matches Ok(e) ==> (e.report.before_bytes <= max_bytes ==> e.report.diagnostics@.len() == 0
            && !e.any_unresolved),
        r matches Ok(e) ==> (e.report.before_bytes > max_bytes ==> (e.report.diagnostics@.len() == 0
            <==> !has_unresolved(roots@))),
    {
        let mut before: u64 = 0;
        let mut i: usize = 0;
        while i < inventory.len()
            invariant
                i <= inventory@.len(),
                before == sum_inventory(inventory@.take(i as int)),
            decreases inventory@.len() - i,
        {
            assert(inventory@.take(i as int + 1).drop_last() =~= inventory@.take(i as int));
            before = match before.checked_add(inventory[i].size_bytes) {
                Some(t) => t,
                None => {
                    proof {
                        lemma_sum_inventory_prefix_monotone(inventory@, i as int + 1);
                    }
                    return Err(CacheManagerError::SizeOverflow);
                },
            };
            i = i + 1;
        }
        assert(inventory@.take(inventory@.len() as int) =~= inventory@);
        let mut report = CacheEnforcementReport {
            budget_bytes: max_bytes,
            before_bytes: before,
            after_bytes: before,
            evicted_skills: Vec::new(),
            deleted_blobs: 0,
            skipped_skills: Vec::new(),
            diagnostics: Vec::new(),
        };
        let mut counts: Vec<BlobCount> = Vec::new();
        if before <= max_bytes {
            return Ok(
                CacheEnforcer {
                    report,
                    counts,
                    roots,
                    inventory,
                    deployed_skill_ids,
                    any_unresolved: false,
                },
            );
        }
        let mut any_unresolved = false;
        let mut q: usize = 0;
        while q < roots.len()
            invariant
                q <= roots@.len(),
                any_unresolved <==> exists|r: int| 0 <= r < q && (#[trigger] roots@[r]).closure is Err,
                report.budget_bytes == max_bytes,
                report.before_bytes == sum_inventory(inventory@),
                report.after_bytes == report.before_bytes,
                report.evicted_skills@.len() == 0,
                report.deleted_blobs == 0,
                report.skipped_skills@.len() == 0,
                report.diagnostics@.len() == 0 <==> !any_unresolved,
                counts@.len() == 0,
            decreases roots@.len() - q,
        {
            match &roots[q].closure {
                Ok(_) => {},
                Err(message) => {
                    let mut d = String::from_str("snapshot ");
                    d.append(roots[q].snapshot_hash.as_str());
                    d.append(" could not be resolved for cache accounting: ");
                    d.append(message.as_str());
                    report.diagnostics.push(d);
                    any_unresolved = true;
                },
            }
            q = q + 1;
        }
        let ghost rv = views(refs@);
        assert(any_unresolved == has_unresolved(roots@));
        proof {
            assert forall|h: Seq<char>| #[trigger] count_of(counts@, h) == refs_holding(rv.take(0), roots@, h) by {
                assert(rv.take(0).len() == 0);
            }
        }
        let mut k: usize = 0;
        while k < refs.len()
            invariant
                k <= refs@.len(),
                refs@.len() < u64::MAX - 1,
                rv == views(refs@),
                any_unresolved == has_unresolved(roots@),
                roots_well_formed(roots@),
                counts_unique(counts@),
                forall|w: int| 0 <= w < counts@.len() ==> (#[trigger] counts@[w]).count <= k,
                forall|h: Seq<char>| #[trigger] count_of(counts@, h) == refs_holding(rv.take(k as int), roots@, h),
            decreases refs@.len() - k,
        {
            proof {
                assert forall|h: Seq<char>| #[trigger] refs_holding(rv.take(k as int + 1), roots@, h) == refs_holding(rv.take(k as int), roots@, h) + (if closure_of(roots@, rv[k as int]) matches Some(c) && c.contains(h) {
                    1nat
                } else {
                    0nat
                }) by {
                    lemma_refs_holding_step(rv, roots@, k as int, h);
                }
                assert(rv[k as int] == refs@[k as int]@);
            }
            match resolved_closure(&roots, refs[k].as_str()) {
                Some(c) => {
                    proof {
                        let w = choose|w: int| 0 <= w < roots@.len() && roots@[w].closure == Ok::<Vec<String>, String>(*c);
                        assert(roots@[w].closure matches Ok(cc) && cc == *c);
                    }
                    add_reference(&mut counts, c, (k + 1) as u64);
                },
                None => {},
            }
            k = k + 1;
        }
        assert(rv.take(refs@.len() as int) =~= rv);
        Ok(
            CacheEnforcer {
                report,
                counts,
                roots,
                inventory,
                deployed_skill_ids,
                any_unresolved,
            },
        )
    }

    /// What to do with the next candidate, given whether its workspace is
    /// on disk: stop once within budget; keep a skill that is not evictable
    /// or whose snapshot did not resolve; otherwise try to claim it.
    pub fn candidate_action(&self, skill: &CacheSkillRecord, workspace_exists: bool) -> (a:
        CandidateAction)
        ensures
            self.report.after_bytes <= self.report.budget_bytes ==> a == CandidateAction::Stop,
            self.report.after_bytes > self.report.budget_bytes ==> (a == CandidateAction::Claim
                <==> spec_is_evictable(*skill, views(self.deployed_skill_ids@), workspace_exists)
                && closure_of(self.roots@, skill.snapshot_hash@) is Some),
            a == CandidateAction::Stop <==> self.report.after_bytes <= self.report.budget_bytes,
            a == CandidateAction::Claim ==> skill.sync_state == SkillSyncState::Synced && !skill.pinned
                && skill.remote_id is Some && !workspace_exists && !views(
                self.deployed_skill_ids@,
            ).contains(skill.skill_id@),
    {
        if self.report.after_bytes <= self.report.budget_bytes {
            return CandidateAction::Stop;
        }
        if !is_evictable(skill, &self.deployed_skill_ids, workspace_exists) {
            return CandidateAction::Skip;
        }
        match resolved_closure(&self.roots, skill.snapshot_hash.as_str()) {
            Some(_) => CandidateAction::Claim,
            None => CandidateAction::Skip,
        }
    }

    /// Records a kept skill.
    pub fn skip(&mut self, skill_id: String)
        ensures
            final(self).report.skipped_skills@ == old(self).report.skipped_skills@.push(skill_id),
            final(self).report.evicted_skills@ == old(self).report.evicted_skills@,
            final(self).report.after_bytes == old(self).report.after_bytes,
            final(self).report.budget_bytes == old(self).report.budget_bytes,
            final(self).counts@ == old(self).counts@,
            final(self).roots@ == old(self).roots@,
            final(self).inventory@ == old(self).inventory@,
            final(self).deployed_skill_ids@ == old(self).deployed_skill_ids@,
            final(self).any_unresolved == old(self).any_unresolved,
    {
        self.report.skipped_skills.push(skill_id);
    }

    /// Evicts a claimed skill: it is recorded, its snapshot's references
    /// are released, and the blobs left with no reference at all that are
    /// on disk are returned for deletion, in closure order.
    ///
    /// Only a skill that `candidate_action` would claim can be evicted: the
    /// cache is over budget, the skill is evictable (synced, unpinned, known
    /// to the server, undeployed, with no workspace on disk, as
    /// `workspace_exists` says) and its snapshot resolved.
    pub fn evict(&mut self, skill: &CacheSkillRecord, workspace_exists: bool) -> (freed: Vec<
        BlobInventoryEntry,
    >)
        requires
            counts_unique(old(self).counts@),
            roots_well_formed(old(self).roots@),
            old(self).report.after_bytes > old(self).report.budget_bytes,
            spec_is_evictable(*skill, views(old(self).deployed_skill_ids@), workspace_exists),
            closure_of(old(self).roots@, skill.snapshot_hash@) is Some,
        ensures
            final(self).report.evicted_skills@ == old(self).report.evicted_skills@.push(
                skill.skill_id,
            ),
            final(self).report.skipped_skills@ == old(self).report.skipped_skills@,
            final(self).report.after_bytes == old(self).report.after_bytes,
            final(self).report.budget_bytes == old(self).report.budget_bytes,
            final(self).roots@ == old(self).roots@,
            final(self).inventory@ == old(self).inventory@,
            final(self).deployed_skill_ids@ == old(self).deployed_skill_ids@,
            final(self).any_unresolved == old(self).any_unresolved,
            counts_unique(final(self).counts@),
            forall|h: Seq<char>| #[trigger] count_of(final(self).counts@, h) == if closure_of(
                old(self).roots@,
                skill.snapshot_hash@,
            ) matches Some(c) && c.contains(h) && count_of(old(self).counts@, h) > 0 {
                count_of(old(self).counts@, h) - 1
            } else {
                count_of(old(self).counts@, h)
            },
            forall|i: int|
                0 <= i < freed@.len() ==> old(self).inventory@.contains(#[trigger] freed@[i])
                    && count_of(final(self).counts@, freed@[i].hash@) == 0 && count_of(
                    old(self).counts@,
                    freed@[i].hash@,
                ) == 1,
            forall|i: int|
                0 <= i < freed@.len() ==> closure_of(old(self).roots@, skill.snapshot_hash@)->0.contains(
                    (#[trigger] freed@[i]).hash@,
                ),
            forall|k: int|
                0 <= k < old(self).inventory@.len() && closure_of(
                    old(self).roots@,
                    skill.snapshot_hash@,
                )->0.contains((#[trigger] old(self).inventory@[k]).hash@) && count_of(
                    old(self).counts@,
                    old(self).inventory@[k].hash@,
                ) == 1 ==> frees_hash(freed@, old(self).inventory@[k].hash@),
    {
        self.report.evicted_skills.push(skill.skill_id.clone());
        let mut freed: Vec<BlobInventoryEntry> = Vec::new();
        let closure: Vec<String> = match resolved_closure(&self.roots, skill.snapshot_hash.as_str()) {
            Some(c) => {
                proof {
                    let w = choose|w: int| 0 <= w < self.roots@.len() && self.roots@[w].closure == Ok::<Vec<String>, String>(*c);
                    assert(self.roots@[w].closure matches Ok(cc) && cc == *c);
                }
                c.clone()
            },
            None => Vec::new(),
        };
        let ghost cv = views(closure@);
        let ghost start = self.counts@;
        let ghost report0 = self.report;
        proof {
            assert(closure_of(self.roots@, skill.snapshot_hash@) matches Some(c) ==> c == cv);
            assert(closure_of(self.roots@, skill.snapshot_hash@) is None ==> cv.len() == 0);
        }
        let mut j: usize = 0;
        while j < closure.len()
            invariant
                j <= closure@.len(),
                cv == views(closure@),
                self.report == report0,
                report0.evicted_skills@ == old(self).report.evicted_skills@.push(skill.skill_id),
                report0.skipped_skills@ == old(self).report.skipped_skills@,
                report0.after_bytes == old(self).report.after_bytes,
                report0.budget_bytes == old(self).report.budget_bytes,
                self.roots@ == old(self).roots@,
                self.deployed_skill_ids@ == old(self).deployed_skill_ids@,
                self.any_unresolved == old(self).any_unresolved,
                forall|a: int, b: int| 0 <= a < b < closure@.len() ==> closure@[a]@ != closure@[b]@,
                counts_unique(start),
                counts_unique(self.counts@),
                self.inventory@ == old(self).inventory@,
                start == old(self).counts@,
                forall|h: Seq<char>| #[trigger] count_of(self.counts@, h) == if cv.take(j as int).contains(h) && count_of(start, h) > 0 {
                    count_of(start, h) - 1
                } else {
                    count_of(start, h)
                },
                forall|i: int|
                    0 <= i < freed@.len() ==> self.inventory@.contains(#[trigger] freed@[i])
                        && count_of(self.counts@, freed@[i].hash@) == 0 && count_of(start, freed@[i].hash@) == 1 && cv.take(j as int).contains(freed@[i].hash@),
                forall|k: int|
                    0 <= k < self.inventory@.len() && cv.take(j as int).contains(
                        (#[trigger] self.inventory@[k]).hash@,
                    ) && count_of(start, self.inventory@[k].hash@) == 1 ==> frees_hash(
                        freed@,
                        self.inventory@[k].hash@,
                    ),
            decreases closure@.len() - j,
        {
            let m = &closure[j];
            let ghost mv = m@;
            let ghost before = self.counts@;
            let ghost freed_before = freed@;
            proof {
                assert(cv.take(j as int + 1) =~= cv.take(j as int).push(mv));
                assert(!cv.take(j as int).contains(mv)) by {
                    if cv.take(j as int).contains(mv) {
                        let w = choose|w: int| 0 <= w < cv.take(j as int).len() && #[trigger] cv.take(j as int)[w] == mv;
                        assert(closure@[w]@ == mv);
                    }
                }
            }
            match find_count(&self.counts, m.as_str()) {
                Some(i) => {
                    proof {
                        lemma_count_at(before, i as int);
                    }
                    let c = self.counts[i].count;
                    let newc = if c > 0 { c - 1 } else { 0 };
                    let h = self.counts[i].hash.clone();
                    self.counts.set(i, BlobCount { hash: h, count: newc });
                    proof {
                        assert forall|a: int, b: int|
                            0 <= a < self.counts@.len() && 0 <= b < self.counts@.len() && a != b implies (
                            #[trigger] self.counts@[a]).hash@ != (#[trigger] self.counts@[b]).hash@ by {
                            assert(before[a].hash@ == self.counts@[a].hash@);
                            assert(before[b].hash@ == self.counts@[b].hash@);
                        }
                        assert forall|hh: Seq<char>| #[trigger] count_of(self.counts@, hh) == if hh == mv {
                            newc as int
                        } else {
                            count_of(before, hh)
                        } by {
                            if hh == mv {
                                lemma_count_at(self.counts@, i as int);
                            } else if exists|w: int| 0 <= w < before.len() && (#[trigger] before[w]).hash@ == hh {
                                let w = choose|w: int| 0 <= w < before.len() && (#[trigger] before[w]).hash@ == hh;
                                lemma_count_at(before, w);
                                lemma_count_at(self.counts@, w);
                            } else {
                                assert forall|w: int| 0 <= w < self.counts@.len() implies (
                                #[trigger] self.counts@[w]).hash@ != hh by {
                                    assert(before[w].hash@ == self.counts@[w].hash@);
                                }
                            }
                        }
                    }
                    if newc == 0 && c == 1 {
                        match find_inventory(&self.inventory, m.as_str()) {
                            Some(e) => {
                                freed.push(e);
                                assert(freed@[freed@.len() - 1].hash@ == mv);
                                assert(frees_hash(freed@, mv));
                            },
                            None => {},
                        }
                    }
                    proof {
                        assert(count_of(before, mv) == count_of(start, mv));
                        assert(c == count_of(start, mv));
                    }
                },
                None => {
                    proof {
                        lemma_count_absent(before, mv);
                        assert(count_of(start, mv) == 0);
                    }
                },
            }
            assert(forall|i: int| 0 <= i < freed_before.len() ==> freed@[i] == freed_before[i]);
            assert(count_of(start, mv) == 1 && (exists|k: int|
                0 <= k < self.inventory@.len() && (#[trigger] self.inventory@[k]).hash@ == mv) ==> frees_hash(
                freed@,
                mv,
            ));
            proof {
                assert forall|hh: Seq<char>| #[trigger] count_of(self.counts@, hh) == if cv.take(j as int + 1).contains(hh) && count_of(start, hh) > 0 {
                    count_of(start, hh) - 1
                } else {
                    count_of(start, hh)
                } by {
                    if hh != mv {
                        if cv.take(j as int + 1).contains(hh) {
                            let w = choose|w: int| 0 <= w < cv.take(j as int + 1).len() && #[trigger] cv.take(j as int + 1)[w] == hh;
                            assert(cv.take(j as int)[w] == hh);
                        }
                        if cv.take(j as int).contains(hh) {
                            let w = choose|w: int| 0 <= w < cv.take(j as int).len() && #[trigger] cv.take(j as int)[w] == hh;
                            assert(cv.take(j as int + 1)[w] == hh);
                        }
                    } else {
                        assert(cv.take(j as int + 1)[j as int] == mv);
                    }
                }
                assert forall|i: int|
                    0 <= i < freed@.len() implies self.inventory@.contains(#[trigger] freed@[i])
                        && count_of(self.counts@, freed@[i].hash@) == 0 && count_of(start, freed@[i].hash@) == 1 && cv.take(j as int + 1).contains(freed@[i].hash@) by {
                    let fh = freed@[i].hash@;
                    if cv.take(j as int).contains(fh) {
                        let w = choose|w: int| 0 <= w < cv.take(j as int).len() && #[trigger] cv.take(j as int)[w] == fh;
                        assert(cv.take(j as int + 1)[w] == fh);
                    } else {
                        assert(cv.take(j as int + 1)[j as int] == mv);
                    }
                }
            }
            proof {
                assert forall|k: int|
                    0 <= k < self.inventory@.len() && cv.take(j as int + 1).contains(
                        (#[trigger] self.inventory@[k]).hash@,
                    ) && count_of(start, self.inventory@[k].hash@) == 1 implies frees_hash(
                    freed@,
                    self.inventory@[k].hash@,
                ) by {
                    let h = self.inventory@[k].hash@;
                    if h != mv {
                        let w = choose|w: int|
                            0 <= w < cv.take(j as int + 1).len() && #[trigger] cv.take(j as int + 1)[w] == h;
                        assert(w < j);
                        assert(cv.take(j as int)[w] == h);
                        assert(frees_hash(freed_before, h));
                        let i = choose|i: int| 0 <= i < freed_before.len() && (#[trigger] freed_before[i]).hash@ == h;
                        assert(freed@[i] == freed_before[i]);
                    }
                }
            }
            j = j + 1;
        }
        assert(cv.take(closure@.len() as int) =~= cv);
        freed
    }

    /// Whether the cache is still above its budget.
    pub fn over_budget(&self) -> (b: bool)
        ensures
            b == (self.report.after_bytes > self.report.budget_bytes),
    {
        self.report.after_bytes > self.report.budget_bytes
    }

    /// Records what removing a blob file did: a deleted file no longer
    /// counts, a file already gone changes nothing, and a failure is kept
    /// as a diagnostic (naming the evicted skill, or the orphan).
    pub fn record_removal(
        &mut self,
        entry: &BlobInventoryEntry,
        outcome: Result<bool, String>,
        evicted_skill: Option<&str>,
    )
        requires
            old(self).report.deleted_blobs < usize::MAX,
        ensures
            outcome == Ok::<bool, String>(true) ==> final(self).report.after_bytes == (if old(
                self,
            ).report.after_bytes >= entry.size_bytes {
                old(self).report.after_bytes - entry.size_bytes
            } else {
                0
            }) && final(self).report.deleted_blobs == old(self).report.deleted_blobs + 1,
            outcome != Ok::<bool, String>(true) ==> final(self).report.after_bytes == old(
                self,
            ).report.after_bytes && final(self).report.deleted_blobs == old(
                self,
            ).report.deleted_blobs,
            final(self).report.after_bytes <= old(self).report.after_bytes,
            outcome is Err ==> final(self).report.diagnostics@.len() == old(
                self,
            ).report.diagnostics@.len() + 1,
            outcome matches Err(m) ==> final(self).report.diagnostics@.drop_last() == old(
                self,
            ).report.diagnostics@ && final(self).report.diagnostics@.last()@ == removal_failure_text(
                entry.hash@,
                match evicted_skill {
                    Some(id) => Some(id@),
                    None => None,
                },
                m@,
            ),
            outcome is Ok ==> final(self).report.diagnostics@ == old(self).report.diagnostics@,
            final(self).report.budget_bytes == old(self).report.budget_bytes,
            final(self).report.evicted_skills@ == old(self).report.evicted_skills@,
            final(self).report.skipped_skills@ == old(self).report.skipped_skills@,
            final(self).counts@ == old(self).counts@,
            final(self).roots@ == old(self).roots@,
            final(self).inventory@ == old(self).inventory@,
            final(self).deployed_skill_ids@ == old(self).deployed_skill_ids@,
            final(self).any_unresolved == old(self).any_unresolved,
    {
        match outcome {
            Ok(true) => {
                self.report.after_bytes = self.report.after_bytes.saturating_sub(entry.size_bytes);
                self.report.deleted_blobs = self.report.deleted_blobs + 1;
            },
            Ok(false) => {},
            Err(message) => {
                let mut d = match evicted_skill {
                    Some(id) => {
                        let mut d = String::from_str("skill ");
                        d.append(id);
                        d.append(" was marked remote-only but cached blob ");
                        d.append(entry.hash.as_str());
                        d.append(" could not be deleted: ");
                        d
                    },
                    None => {
                        let mut d = String::from_str("orphan blob ");
                        d.append(entry.hash.as_str());
                        d.append(" could not be deleted: ");
                        d
                    },
                };
                d.append(message.as_str());
                let ghost before = self.report.diagnostics@;
                self.report.diagnostics.push(d);
                assert(self.report.diagnostics@.drop_last() =~= before);
            },
        }
    }

    /// The blobs no reference holds, in inventory order, when the cache is
    /// still over budget and every root resolved; none otherwise (an
    /// unreadable manifest means live blobs cannot be told apart).
    pub fn orphan_candidates(&self) -> (r: Vec<BlobInventoryEntry>)
        requires
            counts_unique(self.counts@),
        ensures
            !(self.report.after_bytes > self.report.budget_bytes && !self.any_unresolved) ==> r@.len()
                == 0,
            forall|i: int|
                0 <= i < r@.len() ==> self.inventory@.contains(#[trigger] r@[i]) && count_of(
                    self.counts@,
                    r@[i].hash@,
                ) == 0,
            self.report.after_bytes > self.report.budget_bytes && !self.any_unresolved ==> forall|
                k: int,
            |
                0 <= k < self.inventory@.len() && count_of(self.counts@, #[trigger] self.inventory@[k].hash@)
                    == 0 ==> r@.contains(self.inventory@[k]),
    {
        let mut out: Vec<BlobInventoryEntry> = Vec::new();
        if !(self.report.after_bytes > self.report.budget_bytes && !self.any_unresolved) {
            return out;
        }
        let mut k: usize = 0;
        while k < self.inventory.len()
            invariant
                k <= self.inventory@.len(),
                counts_unique(self.counts@),
                forall|i: int|
                    0 <= i < out@.len() ==> self.inventory@.contains(#[trigger] out@[i]) && count_of(
                        self.counts@,
                        out@[i].hash@,
                    ) == 0,
                forall|q: int|
                    0 <= q < k && count_of(self.counts@, #[trigger] self.inventory@[q].hash@) == 0
                        ==> out@.contains(self.inventory@[q]),
            decreases self.inventory@.len() - k,
        {
            let e = &self.inventory[k];
            let referenced = match find_count(&self.counts, e.hash.as_str()) {
                Some(i) => {
                    proof {
                        lemma_count_at(self.counts@, i as int);
                    }
                    self.counts[i].count > 0
                },
                None => {
                    proof {
                        lemma_count_absent(self.counts@, e.hash@);
                    }
                    false
                },
            };
            if !referenced {
                let ghost before = out@;
                out.push(e.clone_entry());
                proof {
                    assert(out@[before.len() as int] == self.inventory@[k as int]);
                    assert forall|q: int|
                        0 <= q <= k && count_of(self.counts@, #[trigger] self.inventory@[q].hash@) == 0
                            implies out@.contains(self.inventory@[q]) by {
                        if q < k {
                            let w = choose|w: int| 0 <= w < before.len() && before[w] == self.inventory@[q];
                            assert(out@[w] == before[w]);
                        }
                    }
                    assert forall|i: int| 0 <= i < out@.len() implies self.inventory@.contains(#[trigger] out@[i]) && count_of(
                        self.counts@,
                        out@[i].hash@,
                    ) == 0 by {
                        if i < before.len() {
                            assert(out@[i] == before[i]);
                        }
                    }
                }
            }
            k = k + 1;
        }
        out
    }

    /// The final report: still over budget is reported as a diagnostic.
    pub fn finish(self) -> (r: CacheEnforcementReport)
        ensures
            r.budget_bytes == self.report.budget_bytes,
            r.before_bytes == self.report.before_bytes,
            r.after_bytes == self.report.after_bytes,
            r.evicted_skills@ == self.report.evicted_skills@,
            r.skipped_skills@ == self.report.skipped_skills@,
            r.deleted_blobs == self.report.deleted_blobs,
            self.report.after_bytes > self.report.budget_bytes ==> r.diagnostics@.len()
                == self.report.diagnostics@.len() + 1 && r.diagnostics@.last()@ == over_budget_text(
                self.report.after_bytes,
                self.report.budget_bytes,
            ) && r.diagnostics@.drop_last() == self.report.diagnostics@,
            self.report.after_bytes <= self.report.budget_bytes ==> r.diagnostics@
                == self.report.diagnostics@,
    {
        let mut report = self.report;
        if report.after_bytes > report.budget_bytes {
            let mut d = String::from_str("cache remains above budget: ");
            d.append(u64_text(report.after_bytes).as_str());
            d.append(" bytes used, ");
            d.append(u64_text(report.budget_bytes).as_str());
            d.append(" byte budget; remaining content is protected or unresolved");
            let ghost before = report.diagnostics@;
            report.diagnostics.push(d);
            assert(report.diagnostics@.drop_last() =~= before);
        }
        report
    }
}

/// The diagnostic of a blob file that could not be removed: for the
/// evicted skill it belonged to, or as an orphan.
pub open spec fn removal_failure_text(hash: Seq<char>, evicted_skill: Option<Seq<char>>, message: Seq<char>) -> Seq<char> {
    match evicted_skill {
        Some(id) => "skill "@ + id + " was marked remote-only but cached blob "@ + hash
            + " could not be deleted: "@ + message,
        None => "orphan blob "@ + hash + " could not be deleted: "@ + message,
    }
}

/// The diagnostic of a cache left above its budget.
pub open spec fn over_budget_text(after_bytes: u64, budget_bytes: u64) -> Seq<char> {
    "cache remains above budget: "@ + nat_text(after_bytes as nat) + " bytes used, "@ + nat_text(
        budget_bytes as nat,
    ) + " byte budget; remaining content is protected or unresolved"@
}

impl BlobInventoryEntry {
    pub fn clone_entry(&self) -> (c: BlobInventoryEntry)
        ensures
            c == *self,
    {
        BlobInventoryEntry { hash: self.hash.clone(), path: self.path.clone(), size_bytes: self.size_bytes }
    }
}

/// The first inventory entry of the blob `hash`, or `None` when the
/// inventory holds none.
/// Some returned entry is of the blob `h`.
pub open spec fn frees_hash(freed: Seq<BlobInventoryEntry>, h: Seq<char>) -> bool {
    exists|i: int| 0 <= i < freed.len() && (#[trigger] freed[i]).hash@ == h
}

fn find_inventory(inventory: &Vec<BlobInventoryEntry>, hash: &str) -> (r: Option<BlobInventoryEntry>)
    ensures
        r matches Some(e) ==> inventory@.contains(e) && e.hash@ == hash@,
        r matches Some(e) ==> exists|i: int|
            0 <= i < inventory@.len() && #[trigger] inventory@[i] == e && forall|j: int|
                0 <= j < i ==> (#[trigger] inventory@[j]).hash@ != hash@,
        r is None <==> forall|j: int| 0 <= j < inventory@.len() ==> (#[trigger] inventory@[j]).hash@ != hash@,
{
    let mut i: usize = 0;
    while i < inventory.len()
        invariant
            i <= inventory@.len(),
            forall|j: int| 0 <= j < i ==> (#[trigger] inventory@[j]).hash@ != hash@,
        decreases inventory@.len() - i,
    {
        if str_eq(inventory[i].hash.as_str(), hash) {
            let e = inventory[i].clone_entry();
            assert(inventory@[i as int] == e);
            return Some(e);
        }
        i = i + 1;
    }
    None
}

proof fn lemma_sum_inventory_prefix_monotone(inv: Seq<BlobInventoryEntry>, i: int)
    requires
        0 <= i <= inv.len(),
    ensures
        sum_inventory(inv.take(i)) <= sum_inventory(inv),
    decreases inv.len() - i,
{
    if i < inv.len() {
        lemma_sum_inventory_prefix_monotone(inv, i + 1);
        assert(inv.take(i + 1).drop_last() =~= inv.take(i));
    } else {
        assert(inv.take(i) =~= inv);
    }
}

// ---------------------------------------------------------------------
// Eviction never takes another owner's bytes.
pub open spec fn holds(roots: Seq<ResolvedRoot>, r: Seq<char>, h: Seq<char>) -> bool {
    closure_of(roots, r) matches Some(c) && c.contains(h)
}

#[verifier::spinoff_prover]
#[verifier::rlimit(30)]
proof fn lemma_refs_holding_remove(refs: Seq<Seq<char>>, roots: Seq<ResolvedRoot>, p: int, h: Seq<char>)
    requires
        0 <= p < refs.len(),
    ensures
        refs_holding(refs, roots, h) == refs_holding(refs.remove(p), roots, h) + (if holds(
            roots,
            refs[p],
            h,
        ) {
            1int
        } else {
            0int
        }),
    decreases refs.len(),
{
    if p == refs.len() - 1 {
        assert(refs.remove(p) =~= refs.drop_last());
    } else {
        assert(refs.drop_last()[p] == refs[p]);
        lemma_refs_holding_remove(refs.drop_last(), roots, p, h);
        assert(refs.remove(p).drop_last() =~= refs.drop_last().remove(p));
        assert(refs.remove(p).last() == refs.last());
    }
}

proof fn lemma_refs_holding_zero(refs: Seq<Seq<char>>, roots: Seq<ResolvedRoot>, h: Seq<char>)
    requires
        refs_holding(refs, roots, h) == 0,
    ensures
        forall|q: int| 0 <= q < refs.len() ==> !(#[trigger] holds(roots, refs[q], h)),
    decreases refs.len(),
{
    if refs.len() > 0 {
        lemma_refs_holding_zero(refs.drop_last(), roots, h);
        assert forall|q: int| 0 <= q < refs.len() implies !(#[trigger] holds(roots, refs[q], h)) by {
            if q < refs.len() - 1 {
                assert(refs[q] == refs.drop_last()[q]);
            }
        }
    }
}

/// Evicting the holder of reference `p` releases exactly that reference:
/// the counts afterwards are those of the remaining references, and a blob
/// left with no reference is in the closure of none of them. Two skills
/// sharing a snapshot, or an outbox payload pointing at an older snapshot,
/// keep their blobs.
pub proof fn lemma_eviction_keeps_shared_blobs(
    before: Seq<BlobCount>,
    after: Seq<BlobCount>,
    refs: Seq<Seq<char>>,
    roots: Seq<ResolvedRoot>,
    p: int,
)
    requires
        counts_match(before, refs, roots),
        0 <= p < refs.len(),
        forall|h: Seq<char>| #[trigger] count_of(after, h) == if closure_of(roots, refs[p]) matches Some(c)
            && c.contains(h) && count_of(before, h) > 0 {
            count_of(before, h) - 1
        } else {
            count_of(before, h)
        },
    ensures
        counts_match(after, refs.remove(p), roots),
        forall|h: Seq<char>, q: int|
            count_of(after, h) == 0 && 0 <= q < refs.remove(p).len() ==> !(#[trigger] holds(
                roots,
                refs.remove(p)[q],
                h,
            )),
{
    assert forall|h: Seq<char>| #[trigger] count_of(after, h) == refs_holding(refs.remove(p), roots, h) by {
        lemma_refs_holding_remove(refs, roots, p, h);
    }
    assert forall|h: Seq<char>, q: int|
        count_of(after, h) == 0 && 0 <= q < refs.remove(p).len() implies !(#[trigger] holds(
            roots,
            refs.remove(p)[q],
            h,
        )) by {
        lemma_refs_holding_zero(refs.remove(p), roots, h);
    }
}

} // verus!
