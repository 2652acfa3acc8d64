//! On-demand hydration of pulled skills.
//!
//! A pulled skill is stored as metadata and a manifest hash only: it is
//! remote-only, with no file closure and no workspace, and cannot be
//! deployed. Hydration downloads the missing blobs of its closure (each
//! checked against its content hash), materializes the snapshot into a
//! managed workspace, and only then promotes the record. Every step adds
//! data; a failure leaves the record remote-only and never touches local
//! work.
use vstd::prelude::*;
use crate::digest::{hash_bytes, spec_hash_bytes};
use crate::local_store::{skill_sync_state_name, LocalSkill, LocalStoreError, SkillSyncState};
use crate::skill_snapshot::{SkillSnapshotManifest, SnapshotError};
use crate::snapshot_verifier::SnapshotVerificationError;
use crate::sync_client::SyncClientError;
use crate::text::str_eq;
use crate::workspace::WorkspaceError;

verus! {

#[derive(Debug)]
pub enum HydrationError {
    Http(SyncClientError),
    LocalStore(LocalStoreError),
    BlobStore(String),
    Snapshot(SnapshotError),
    Workspace(WorkspaceError),
    Verification(SnapshotVerificationError),
    BlobDownload { hash: String, source: SyncClientError },
    DigestMismatch { expected: String, actual: String },
    InvalidState(String, String),
}

#[derive(Debug, Clone, PartialEq, Eq)]
pub struct HydrationOutcome {
    pub skill_id: String,
    pub manifest_hash: String,
    pub blobs_downloaded: usize,
    pub workspace_created: bool,
    pub workspace_path: String,
}

/// The request path a blob is downloaded from.
pub open spec fn blob_download_path(hash: Seq<char>) -> Seq<char> {
    "/api/v1/sync/blobs/"@ + hash
}

pub fn blob_download_url_path(hash: &str) -> (p: String)
    ensures
        p@ == blob_download_path(hash@),
{
    let mut p = String::from_str("/api/v1/sync/blobs/");
    p.append(hash);
    p
}

/// Checks downloaded bytes against the hash they were requested by; only
/// bytes that hash to it may enter the blob store.
pub fn check_downloaded_blob(hash: &str, bytes: &[u8]) -> (r: Result<(), HydrationError>)
    ensures
        r is Ok <==> spec_hash_bytes(bytes@) == hash@,
        r matches Err(e) ==> e matches HydrationError::DigestMismatch { expected, actual }
            && expected@ == hash@ && actual@ == spec_hash_bytes(bytes@),
{
    let actual = hash_bytes(bytes);
    if !str_eq(actual.as_str(), hash) {
        return Err(HydrationError::DigestMismatch { expected: hash.to_owned(), actual });
    }
    Ok(())
}

/// A failed download of `hash`, as reported.
pub fn download_failure(hash: &str, source: SyncClientError) -> (e: HydrationError)
    ensures
        e matches HydrationError::BlobDownload { hash: h, source: s } && h@ == hash@ && s
            == source,
{
    HydrationError::BlobDownload { hash: hash.to_owned(), source }
}

/// The blobs of a manifest's files that are not present locally
/// (`present[i]` tells whether file `i`'s blob verifies in the store), in
/// manifest order.
pub fn missing_file_blobs(manifest: &SkillSnapshotManifest, present: &Vec<bool>) -> (r: Vec<String>)
    requires
        present@.len() == manifest.files@.len(),
    ensures
        r@.len() <= manifest.files@.len(),
        r@.map_values(|s: String| s@) == missing_hashes(manifest.files@.map_values(
            |f: crate::skill_snapshot::SkillSnapshotFile| f.blob_hash@,
        ), present@),
{
    let ghost hashes = manifest.files@.map_values(
        |f: crate::skill_snapshot::SkillSnapshotFile| f.blob_hash@,
    );
    let mut r: Vec<String> = Vec::new();
    let mut i: usize = 0;
    while i < manifest.files.len()
        invariant
            i <= manifest.files@.len(),
            present@.len() == manifest.files@.len(),
            hashes == manifest.files@.map_values(
                |f: crate::skill_snapshot::SkillSnapshotFile| f.blob_hash@,
            ),
            r@.len() <= i,
            r@.map_values(|s: String| s@) == missing_hashes(hashes.take(i as int), present@.take(
                i as int,
            )),
        decreases manifest.files@.len() - i,
    {
        assert(hashes.take(i + 1).drop_last() =~= hashes.take(i as int));
        assert(present@.take(i + 1).drop_last() =~= present@.take(i as int));
        if !present[i] {
            let ghost before = r@;
            r.push(manifest.files[i].blob_hash.as_str().to_owned());
            assert(r@.map_values(|s: String| s@) =~= before.map_values(|s: String| s@).push(
                hashes[i as int],
            ));
        }
        i = i + 1;
    }
    assert(hashes.take(i as int) =~= hashes);
    assert(present@.take(i as int) =~= present@);
    r
}

/// The hashes whose blob is not present, in order.
pub open spec fn missing_hashes(hashes: Seq<Seq<char>>, present: Seq<bool>) -> Seq<Seq<char>>
    decreases hashes.len(),
{
    if hashes.len() == 0 || present.len() != hashes.len() {
        seq![]
    } else {
        let rest = missing_hashes(hashes.drop_last(), present.drop_last());
        if present.last() {
            rest
        } else {
            rest.push(hashes.last())
        }
    }
}

/// What hydration does for a skill.
#[derive(Debug, Clone, PartialEq, Eq)]
pub enum HydrationPlan {
    /// A workspace already exists: never touch it, only re-verify it
    /// against the manifest; promote the record when `promote`.
    VerifyExisting { manifest_hash: String, workspace_path: String, promote: bool },
    /// Download the missing closure, materialize the snapshot into a new
    /// workspace, then promote the record when `promote`.
    Materialize { manifest_hash: String, promote: bool },
}

/// The message a skill that cannot be hydrated without a workspace is
/// refused with.
pub open spec fn no_workspace_message(skill_id: Seq<char>, state: SkillSyncState) -> Seq<char> {
    "skill "@ + skill_id + " in state "@ + skill_sync_state_name(state)
        + " without a workspace cannot be hydrated"@
}

/// Decides how to hydrate `skill_id`, given its record (`skill`) and its
/// managed workspace, if one exists (`workspace`). A remote-only record is
/// fully hydrated; a synced record whose workspace was released is
/// re-materialized and stays synced; any other state without a workspace
/// is refused, since a fresh materialization could race unsynchronized
/// local work. Only a remote-only record is promoted.
pub fn hydration_plan(skill_id: &str, skill: Option<LocalSkill>, workspace: Option<String>) -> (r:
    Result<HydrationPlan, HydrationError>)
    ensures
        match skill {
            None => r matches Err(HydrationError::LocalStore(LocalStoreError::SkillNotFound(s)))
                && s@ == skill_id@,
            Some(k) => match workspace {
                Some(w) => r matches Ok(
                    HydrationPlan::VerifyExisting { manifest_hash, workspace_path, promote },
                ) && manifest_hash@ == k.current_blob_hash@ && workspace_path@ == w@ && promote
                    == (k.sync_state == SkillSyncState::RemoteOnly),
                None => if k.sync_state == SkillSyncState::RemoteOnly || k.sync_state
                    == SkillSyncState::Synced {
                    r matches Ok(HydrationPlan::Materialize { manifest_hash, promote })
                        && manifest_hash@ == k.current_blob_hash@ && promote == (k.sync_state
                        == SkillSyncState::RemoteOnly)
                } else {
                    r matches Err(HydrationError::LocalStore(LocalStoreError::InvalidInput(m)))
                        && m@ == no_workspace_message(skill_id@, k.sync_state)
                },
            },
        },
{
    let k = match skill {
        Some(k) => k,
        None => {
            return Err(HydrationError::LocalStore(LocalStoreError::SkillNotFound(skill_id.to_owned())));
        },
    };
    let remote_only = k.sync_state == SkillSyncState::RemoteOnly;
    match workspace {
        Some(w) => Ok(
            HydrationPlan::VerifyExisting {
                manifest_hash: k.current_blob_hash,
                workspace_path: w,
                promote: remote_only,
            },
        ),
        None => {
            if !(remote_only || k.sync_state == SkillSyncState::Synced) {
                let mut m = String::from_str("skill ");
                m.append(skill_id);
                m.append(" in state ");
                m.append(k.sync_state.debug_name());
                m.append(" without a workspace cannot be hydrated");
                return Err(HydrationError::LocalStore(LocalStoreError::InvalidInput(m)));
            }
            Ok(HydrationPlan::Materialize { manifest_hash: k.current_blob_hash, promote: remote_only })
        },
    }
}

} // verus!
