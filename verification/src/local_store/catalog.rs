//! The catalog rows: agent profiles, deployments, hydrated skills and the
//! local cache policy. Each function decides what one write stores, or
//! which error it is refused with, from the rows it reads.
use vstd::prelude::*;
use crate::local_store::{
    agent_profile_fault, blank_message, skill_sync_state_text, validate_agent_profile,
    validate_non_empty, AgentProfileRecord, DeploymentState, LocalSkill, LocalStoreError, RecordDeployment,
    SkillDeploymentRecord, SkillSyncState, UpsertAgentProfile,
};
use crate::paths::{is_absolute, is_absolute_path, is_direct_child, is_direct_child_of};
use crate::text::{str_eq, trim_seq};

verus! {

fn copy_string(s: &String) -> (r: String)
    ensures
        r@ == s@,
{
    s.as_str().to_owned()
}

fn copy_opt(s: &Option<String>) -> (r: Option<String>)
    ensures
        r is Some <==> s is Some,
        r matches Some(v) ==> s matches Some(w) && v@ == w@,
{
    match s {
        Some(v) => Some(copy_string(v)),
        None => None,
    }
}

// ---------------------------------------------------------------------
// Agent profiles.
/// The record an upsert of `profile` stores and returns: the profile's
/// fields as given, once it passes `validate_agent_profile`.
pub fn agent_profile_record(profile: UpsertAgentProfile) -> (r: Result<AgentProfileRecord, LocalStoreError>)
    ensures
        r is Ok <==> agent_profile_fault(profile) is None,
        r matches Err(e) ==> e matches LocalStoreError::InvalidInput(m) && agent_profile_fault(
            profile,
        ) == Some(m@),
        r matches Ok(rec) ==> rec.id == profile.id && rec.descriptor_id == profile.descriptor_id
            && rec.display_name == profile.display_name && rec.skill_root == profile.skill_root
            && rec.enabled == profile.enabled && rec.is_custom == profile.is_custom,
{
    validate_agent_profile(&profile)?;
    Ok(
        AgentProfileRecord {
            id: profile.id,
            descriptor_id: profile.descriptor_id,
            display_name: profile.display_name,
            skill_root: profile.skill_root,
            enabled: profile.enabled,
            is_custom: profile.is_custom,
        },
    )
}

// ---------------------------------------------------------------------
// Deployments.
/// The message a deployment outside its profile's root is refused with.
pub open spec fn outside_root_message(target: Seq<char>, root: Seq<char>) -> Seq<char> {
    "deployment target "@ + target + " is not a direct child of agent profile root "@ + root
}

/// The outcome of recording `d`, when the profile it names has skill root
/// `root` (`None` when no such profile exists).
pub open spec fn deployment_check(
    d: RecordDeployment,
    root: Option<Seq<char>>,
    r: Result<SkillDeploymentRecord, LocalStoreError>,
) -> bool {
    if trim_seq(d.skill_id@).len() == 0 {
        r matches Err(LocalStoreError::InvalidInput(m)) && m@ == blank_message("skill_id"@)
    } else if trim_seq(d.agent_profile_id@).len() == 0 {
        r matches Err(LocalStoreError::InvalidInput(m)) && m@ == blank_message(
            "agent_profile_id"@,
        )
    } else if trim_seq(d.deployed_blob_hash@).len() == 0 {
        r matches Err(LocalStoreError::InvalidInput(m)) && m@ == blank_message(
            "deployed_blob_hash"@,
        )
    } else if !is_absolute_path(d.target_path@) {
        r matches Err(LocalStoreError::InvalidInput(m)) && m@
            == "deployment target_path must be absolute"@
    } else {
        match root {
            None => r matches Err(LocalStoreError::AgentProfileNotFound(p)) && p@
                == d.agent_profile_id@,
            Some(rt) => if !is_direct_child(d.target_path@, rt) {
                r matches Err(LocalStoreError::InvalidInput(m)) && m@ == outside_root_message(
                    d.target_path@,
                    rt,
                )
            } else {
                r matches Ok(rec) && rec.skill_id == d.skill_id && rec.agent_profile_id
                    == d.agent_profile_id && rec.deployed_blob_hash == d.deployed_blob_hash
                    && rec.target_path == d.target_path && rec.state == d.state && rec.last_error
                    == d.last_error
            },
        }
    }
}

/// The deployment row a filesystem deployment outcome is recorded as.
/// Identifiers must be present and the target absolute; the named profile
/// must exist (`profile_root` is its persisted skill root), and the target
/// must be a direct child of that root, so that a mismatched profile id
/// cannot record an unrelated path.
pub fn deployment_record(deployment: RecordDeployment, profile_root: Option<&str>) -> (r: Result<
    SkillDeploymentRecord,
    LocalStoreError,
>)
    ensures
        deployment_check(
            deployment,
            match profile_root {
                Some(p) => Some(p@),
                None => None,
            },
            r,
        ),
{
    validate_non_empty("skill_id", deployment.skill_id.as_str())?;
    validate_non_empty("agent_profile_id", deployment.agent_profile_id.as_str())?;
    validate_non_empty("deployed_blob_hash", deployment.deployed_blob_hash.as_str())?;
    if !is_absolute(deployment.target_path.as_str()) {
        return Err(
            LocalStoreError::InvalidInput(String::from_str("deployment target_path must be absolute")),
        );
    }
    let root = match profile_root {
        Some(root) => root,
        None => {
            return Err(
                LocalStoreError::AgentProfileNotFound(copy_string(&deployment.agent_profile_id)),
            );
        },
    };
    if !is_direct_child_of(deployment.target_path.as_str(), root) {
        let mut m = String::from_str("deployment target ");
        m.append(deployment.target_path.as_str());
        m.append(" is not a direct child of agent profile root ");
        m.append(root);
        return Err(LocalStoreError::InvalidInput(m));
    }
    Ok(
        SkillDeploymentRecord {
            skill_id: deployment.skill_id,
            agent_profile_id: deployment.agent_profile_id,
            deployed_blob_hash: deployment.deployed_blob_hash,
            target_path: deployment.target_path,
            state: deployment.state,
            last_error: deployment.last_error,
        },
    )
}

/// A deployment in this state may have a live target, so its skill keeps
/// its cached content.
pub open spec fn holds_target(state: DeploymentState) -> bool {
    state == DeploymentState::Installing || state == DeploymentState::Installed || state
        == DeploymentState::Updating || state == DeploymentState::Modified || state
        == DeploymentState::Removing || state == DeploymentState::Revoked
}

fn holds_target_exec(state: DeploymentState) -> (b: bool)
    ensures
        b == holds_target(state),
{
    match state {
        DeploymentState::Installing | DeploymentState::Installed | DeploymentState::Updating
        | DeploymentState::Modified | DeploymentState::Removing | DeploymentState::Revoked => true,
        DeploymentState::Missing | DeploymentState::Failed => false,
    }
}

/// The skill can be claimed for eviction: it still has the snapshot the
/// enforcer judged, is known to the server, synced, not pinned, and no
/// deployment of it may have a live target.
pub open spec fn claimable(k: LocalSkill, expected_snapshot_hash: Seq<char>, states: Seq<DeploymentState>) -> bool {
    &&& k.current_blob_hash@ == expected_snapshot_hash
    &&& k.remote_id is Some
    &&& k.sync_state == SkillSyncState::Synced
    &&& !k.pinned
    &&& forall|i: int| 0 <= i < states.len() ==> !holds_target(#[trigger] states[i])
}

/// Claims a skill for eviction, given its current row and the states of
/// its deployments, read in the same transaction: the row marked
/// remote-only when the skill is still claimable, `None` otherwise (the
/// skill changed since it was judged, and is left alone).
pub fn claim_for_eviction(
    current: Option<LocalSkill>,
    expected_snapshot_hash: &str,
    deployment_states: &Vec<DeploymentState>,
) -> (r: Option<LocalSkill>)
    ensures
        r is Some <==> (current matches Some(k) && claimable(k, expected_snapshot_hash@, deployment_states@)),
        r matches Some(n) ==> n == (LocalSkill { sync_state: SkillSyncState::RemoteOnly, ..current->0 }),
{
    let k = match current {
        Some(k) => k,
        None => {
            return None;
        },
    };
    if !str_eq(k.current_blob_hash.as_str(), expected_snapshot_hash) || k.remote_id.is_none()
        || k.sync_state != SkillSyncState::Synced || k.pinned {
        return None;
    }
    let mut i: usize = 0;
    while i < deployment_states.len()
        invariant
            i <= deployment_states@.len(),
            forall|j: int| 0 <= j < i ==> !holds_target(#[trigger] deployment_states@[j]),
        decreases deployment_states@.len() - i,
    {
        if holds_target_exec(deployment_states[i]) {
            return None;
        }
        i = i + 1;
    }
    Some(LocalSkill { sync_state: SkillSyncState::RemoteOnly, ..k })
}

/// Whether an uninstall may delete the deployment row it was started
/// against. `current` is the row's (deployed hash, target path) when it
/// still exists. `Ok(false)`: there is no row, nothing to delete.
/// `Ok(true)`: the row is the expected one; delete it. A row whose hash or
/// path changed since is refused, so that a stale request cannot delete a
/// newer deployment.
pub fn catalog_removal(
    skill_id: &str,
    agent_profile_id: &str,
    current: Option<(String, String)>,
    expected_snapshot_hash: &str,
    expected_target_path: &str,
) -> (r: Result<bool, LocalStoreError>)
    ensures
        match current {
            None => r == Ok::<bool, LocalStoreError>(false),
            Some((h, t)) => if h@ == expected_snapshot_hash@ && t@ == expected_target_path@ {
                r == Ok::<bool, LocalStoreError>(true)
            } else {
                r matches Err(LocalStoreError::DeploymentCatalogChanged { skill_id: s, agent_profile_id: p })
                    && s@ == skill_id@ && p@ == agent_profile_id@
            },
        },
{
    match current {
        None => Ok(false),
        Some((h, t)) => {
            if !str_eq(h.as_str(), expected_snapshot_hash) || !str_eq(
                t.as_str(),
                expected_target_path,
            ) {
                return Err(
                    LocalStoreError::DeploymentCatalogChanged {
                        skill_id: skill_id.to_owned(),
                        agent_profile_id: agent_profile_id.to_owned(),
                    },
                );
            }
            Ok(true)
        },
    }
}

// ---------------------------------------------------------------------
// Hydrated skills.
/// The message a skill that cannot be hydrated is refused with.
pub open spec fn not_hydratable_message(skill_id: Seq<char>, state: SkillSyncState) -> Seq<char> {
    "skill "@ + skill_id + " in state "@ + skill_sync_state_text(state) + " cannot be hydrated"@
}

/// The row after a hydration is recorded. The update is a compare and
/// swap: it applies only to a remote-only or synced skill whose current
/// snapshot is still `expected_manifest_hash`, so that a pull which moved
/// the head meanwhile makes hydration retry instead of marking an old
/// workspace as synced. The skill then points at `workspace_path` and is
/// synced.
pub fn hydrated_skill(
    skill_id: &str,
    current: Option<LocalSkill>,
    expected_manifest_hash: &str,
    workspace_path: &str,
) -> (r: Result<LocalSkill, LocalStoreError>)
    ensures
        match current {
            None => r matches Err(LocalStoreError::SkillNotFound(s)) && s@ == skill_id@,
            Some(k) => if (k.sync_state == SkillSyncState::RemoteOnly || k.sync_state
                == SkillSyncState::Synced) && k.current_blob_hash@ == expected_manifest_hash@ {
                r matches Ok(n) && n == (LocalSkill {
                    workspace_path: n.workspace_path,
                    sync_state: SkillSyncState::Synced,
                    ..k
                }) && n.workspace_path@ == workspace_path@
            } else {
                r matches Err(LocalStoreError::InvalidInput(m)) && m@ == not_hydratable_message(
                    skill_id@,
                    k.sync_state,
                )
            },
        },
{
    let k = match current {
        Some(k) => k,
        None => {
            return Err(LocalStoreError::SkillNotFound(skill_id.to_owned()));
        },
    };
    let state_ok = match k.sync_state {
        SkillSyncState::RemoteOnly | SkillSyncState::Synced => true,
        _ => false,
    };
    if !state_ok || !str_eq(k.current_blob_hash.as_str(), expected_manifest_hash) {
        let mut m = String::from_str("skill ");
        m.append(skill_id);
        m.append(" in state ");
        m.append(k.sync_state.as_db_str());
        m.append(" cannot be hydrated");
        return Err(LocalStoreError::InvalidInput(m));
    }
    Ok(LocalSkill { workspace_path: workspace_path.to_owned(), sync_state: SkillSyncState::Synced, ..k })
}

// ---------------------------------------------------------------------
// The local cache policy.
#[derive(Debug, Clone, Copy, PartialEq, Eq, Structural)]
pub struct LocalCachePolicy {
    pub max_bytes: u64,
}

/// The largest budget the store can hold (`i64::MAX`).
pub const MAX_CACHE_BYTES: u64 = 0x7fff_ffff_ffff_ffff;

/// Accepts a cache budget between 1 byte and `i64::MAX` bytes.
pub fn validate_cache_policy(policy: LocalCachePolicy) -> (r: Result<LocalCachePolicy, LocalStoreError>)
    ensures
        r is Ok <==> 1 <= policy.max_bytes <= MAX_CACHE_BYTES,
        r matches Ok(p) ==> p == policy,
        r matches Err(e) ==> e matches LocalStoreError::InvalidInput(m) && m@
            == "local cache max_bytes must be between 1 and i64::MAX"@,
{
    if policy.max_bytes == 0 || policy.max_bytes > MAX_CACHE_BYTES {
        return Err(
            LocalStoreError::InvalidInput(
                String::from_str("local cache max_bytes must be between 1 and i64::MAX"),
            ),
        );
    }
    Ok(policy)
}

/// The policy a stored budget stands for; a negative stored value is
/// corrupt.
pub fn cache_policy_from_stored(max_bytes: i64) -> (r: Result<LocalCachePolicy, LocalStoreError>)
    ensures
        r is Ok <==> max_bytes >= 0,
        r matches Ok(p) ==> p.max_bytes == max_bytes,
        r matches Err(e) ==> e matches LocalStoreError::InvalidPersistedState(m) && m@
            == "local cache max_bytes is negative"@,
{
    if max_bytes < 0 {
        return Err(
            LocalStoreError::InvalidPersistedState(
                String::from_str("local cache max_bytes is negative"),
            ),
        );
    }
    Ok(LocalCachePolicy { max_bytes: max_bytes as u64 })
}

/// The value a policy is stored as.
pub fn stored_cache_budget(policy: LocalCachePolicy) -> (v: i64)
    requires
        policy.max_bytes <= MAX_CACHE_BYTES,
    ensures
        v == policy.max_bytes,
{
    policy.max_bytes as i64
}

/// A budget that was accepted reads back as the same policy.
pub proof fn lemma_cache_policy_round_trip(policy: LocalCachePolicy)
    requires
        1 <= policy.max_bytes <= MAX_CACHE_BYTES,
    ensures
        policy.max_bytes as i64 >= 0,
        (policy.max_bytes as i64) as u64 == policy.max_bytes,
{
}

} // verus!
