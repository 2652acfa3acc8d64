//! The desktop commands' decisions: which skill may be deployed where,
//! which deployment may be uninstalled, how discovered agents reconcile
//! with persisted profiles, and how startup recovery is reported.
//!
//! Each command reads the rows it needs, asks these functions what to do,
//! performs the filesystem work, and records the outcome.
use vstd::prelude::*;
use crate::agent::{AgentDescriptor, AgentDiscoveryResult, AgentInstance, AgentKind};
use crate::cache_manager::CacheEnforcementReport;
use crate::deployment::{DeploymentRequest, DeploymentResult, RecoveryReport};
use crate::local_store::{
    skill_sync_state_name, AgentProfileRecord, CommitSkillEdit, DeploymentState, LocalMutation,
    LocalSkill, LocalStoreHealth, MutationOperation, RecordDeployment, SkillDeploymentRecord,
    SkillSyncState, UpsertAgentProfile,
};
use crate::paths::{is_direct_child, is_direct_child_of};
use crate::skill_snapshot::SkillSnapshotRef;
use crate::uninstall::{UninstallRecoveryReport, UninstallRequest};

verus! {

#[derive(Debug, Clone, PartialEq, Eq)]
pub struct UninstallStartupReport {
    pub discovered: usize,
    pub rolled_back: usize,
    pub finalized: usize,
    pub cleaned_intents: usize,
    pub failed: Vec<String>,
}

#[derive(Debug, Clone)]
pub struct DesktopStartupStatus {
    pub local_store: LocalStoreHealth,
    pub recovered_in_flight_mutations: u64,
    pub deployment_recovery: RecoveryReport,
    pub uninstall_recovery: UninstallStartupReport,
    pub agent_reconciliation_errors: Vec<String>,
    pub cache_enforcement: Option<CacheEnforcementReport>,
    pub cache_error: Option<String>,
}

#[derive(Debug, Clone)]
pub struct SaveAgentProfileRequest {
    pub id: String,
    pub descriptor_id: String,
    pub display_name: String,
    pub skill_root: String,
    pub enabled: bool,
    pub is_custom: bool,
}

#[derive(Debug, Clone)]
pub struct CommitLocalSkillWorkspaceRequest {
    pub skill_id: String,
    pub remote_id: Option<String>,
    pub name: String,
    pub slug: String,
    pub workspace_path: String,
    pub base_revision: Option<i64>,
    pub operation: MutationOperation,
}

#[derive(Debug, Clone)]
pub struct CommitLocalSkillWorkspaceResult {
    pub skill: LocalSkill,
    pub snapshot: SkillSnapshotRef,
    pub mutation: LocalMutation,
    pub cache_enforcement: Option<CacheEnforcementReport>,
    pub cache_error: Option<String>,
}

#[derive(Debug, Clone)]
pub struct DeploySkillToAgentRequest {
    pub skill_id: String,
    pub agent_profile_id: String,
}

#[derive(Debug, Clone)]
pub struct DeploySkillToAgentResult {
    pub deployment: SkillDeploymentRecord,
    pub recovery_pending: bool,
}

#[derive(Debug, Clone)]
pub struct UninstallSkillFromAgentRequest {
    pub skill_id: String,
    pub agent_profile_id: String,
}

#[derive(Debug, Clone)]
pub struct UninstallSkillFromAgentResult {
    pub skill_id: String,
    pub agent_profile_id: String,
    pub target_existed: bool,
    /// The catalog is already correct, but quarantine or journal cleanup
    /// is left to startup recovery.
    pub recovery_pending: bool,
}

fn copy_string(s: &String) -> (r: String)
    ensures
        r@ == s@,
{
    s.as_str().to_owned()
}

// ---------------------------------------------------------------------
// Agent profiles.
impl SaveAgentProfileRequest {
    /// The profile upsert a save request stands for.
    pub fn into_upsert(self) -> (u: UpsertAgentProfile)
        ensures
            u.id == self.id && u.descriptor_id == self.descriptor_id && u.display_name
                == self.display_name && u.skill_root == self.skill_root && u.enabled
                == self.enabled && u.is_custom == self.is_custom,
    {
        UpsertAgentProfile {
            id: self.id,
            descriptor_id: self.descriptor_id,
            display_name: self.display_name,
            skill_root: self.skill_root,
            enabled: self.enabled,
            is_custom: self.is_custom,
        }
    }
}

/// Adds a problem to a discovery result: joined to an earlier one with
/// `; `, or as the first.
pub fn append_discovery_error(result: &mut AgentDiscoveryResult, error: &str)
    ensures
        final(result).descriptor == old(result).descriptor,
        final(result).instances == old(result).instances,
        final(result).error matches Some(e) && e@ == match old(result).error {
            Some(prev) => prev@ + "; "@ + error@,
            None => error@,
        },
{
    let next = match &result.error {
        Some(existing) => {
            let mut s = copy_string(existing);
            s.append("; ");
            s.append(error);
            s
        },
        None => error.to_owned(),
    };
    result.error = Some(next);
}

/// How one detected built-in instance reconciles with the persisted
/// profiles.
#[derive(Debug, Clone)]
pub enum InstanceReconcile {
    /// A custom profile already uses this id: report the collision, keep
    /// the custom profile.
    Collision(String),
    /// Upsert this profile.
    Upsert(UpsertAgentProfile),
}

/// The message reported when a detected instance collides with a custom
/// profile.
pub open spec fn collision_message(id: Seq<char>) -> Seq<char> {
    "detected built-in profile "@ + id + " collides with a persisted custom profile"@
}

/// Reconciles a detected instance with the persisted profile of the same
/// id (`existing`). A custom profile is never overwritten by detection; a
/// built-in one keeps the user's enabled choice; a new one is enabled.
pub fn reconcile_instance(instance: &AgentInstance, existing: Option<AgentProfileRecord>) -> (r:
    InstanceReconcile)
    ensures
        existing matches Some(p) && p.is_custom ==> (r matches InstanceReconcile::Collision(m)
            && m@ == collision_message(instance.id@)),
        !(existing matches Some(p) && p.is_custom) ==> (r matches InstanceReconcile::Upsert(u)
            && u.id@ == instance.id@ && u.descriptor_id@ == instance.descriptor_id@
            && u.display_name@ == instance.display_name@ && u.skill_root@ == instance.skill_root@
            && !u.is_custom && u.enabled == match existing {
            Some(p) => p.enabled,
            None => true,
        }),
{
    let enabled = match &existing {
        Some(p) => {
            if p.is_custom {
                let mut m = String::from_str("detected built-in profile ");
                m.append(instance.id.as_str());
                m.append(" collides with a persisted custom profile");
                return InstanceReconcile::Collision(m);
            }
            p.enabled
        },
        None => true,
    };
    InstanceReconcile::Upsert(
        UpsertAgentProfile {
            id: copy_string(&instance.id),
            descriptor_id: copy_string(&instance.descriptor_id),
            display_name: copy_string(&instance.display_name),
            skill_root: copy_string(&instance.skill_root),
            enabled,
            is_custom: false,
        },
    )
}

/// The message reported when the upsert of a detected instance failed.
pub fn reconcile_failure(instance_id: &str, error: &str) -> (m: String)
    ensures
        m@ == "failed to reconcile profile "@ + instance_id@ + ": "@ + error@,
{
    let mut m = String::from_str("failed to reconcile profile ");
    m.append(instance_id);
    m.append(": ");
    m.append(error);
    m
}

/// The discovery result of a persisted custom profile. Its root must be a
/// directory when it exists (`root_exists`, `root_is_dir`); otherwise the
/// profile is reported with that problem and no instance.
pub fn custom_profile_result(profile: AgentProfileRecord, root_exists: bool, root_is_dir: bool) -> (r:
    AgentDiscoveryResult)
    ensures
        r.descriptor.id == profile.descriptor_id,
        r.descriptor.display_name == profile.display_name,
        r.descriptor.kind == AgentKind::Custom,
        root_exists && !root_is_dir ==> r.instances@.len() == 0 && (r.error matches Some(e) && e@
            == profile.skill_root@ + " exists but is not a directory"@),
        !(root_exists && !root_is_dir) ==> r.error is None && r.instances@.len() == 1 && r.instances@[0]
            == (AgentInstance {
            id: profile.id,
            descriptor_id: profile.descriptor_id,
            display_name: profile.display_name,
            skill_root: profile.skill_root,
            enabled: profile.enabled,
            skill_root_exists: root_exists,
            detected: true,
        }),
{
    let descriptor = AgentDescriptor {
        id: profile.descriptor_id.clone(),
        display_name: profile.display_name.clone(),
        kind: AgentKind::Custom,
    };
    if root_exists && !root_is_dir {
        let mut e = copy_string(&profile.skill_root);
        e.append(" exists but is not a directory");
        return AgentDiscoveryResult { descriptor, instances: Vec::new(), error: Some(e) };
    }
    let instance = AgentInstance {
        id: profile.id,
        descriptor_id: profile.descriptor_id,
        display_name: profile.display_name,
        skill_root: profile.skill_root,
        enabled: profile.enabled,
        skill_root_exists: root_exists,
        detected: true,
    };
    let mut instances = Vec::new();
    instances.push(instance);
    AgentDiscoveryResult { descriptor, instances, error: None }
}

/// The startup list of reconciliation problems: `<descriptor id>: <error>`
/// for each result that has one, in order.
pub fn reconciliation_errors(results: &Vec<AgentDiscoveryResult>) -> (r: Vec<String>)
    ensures
        r@.map_values(|s: String| s@) == reconciliation_texts(results@),
{
    let mut r: Vec<String> = Vec::new();
    let mut i: usize = 0;
    while i < results.len()
        invariant
            i <= results@.len(),
            r@.map_values(|s: String| s@) == reconciliation_texts(results@.take(i as int)),
        decreases results@.len() - i,
    {
        assert(results@.take(i + 1).drop_last() =~= results@.take(i as int));
        let ghost before = r@;
        match &results[i].error {
            Some(e) => {
                let mut m = copy_string(&results[i].descriptor.id);
                m.append(": ");
                m.append(e.as_str());
                r.push(m);
                assert(r@.map_values(|s: String| s@) =~= before.map_values(|s: String| s@).push(
                    m@,
                ));
            },
            None => {},
        }
        i = i + 1;
    }
    assert(results@.take(results@.len() as int) =~= results@);
    r
}

/// `<descriptor id>: <error>` for each result with an error, in order.
pub open spec fn reconciliation_texts(results: Seq<AgentDiscoveryResult>) -> Seq<Seq<char>>
    decreases results.len(),
{
    if results.len() == 0 {
        seq![]
    } else {
        let rest = reconciliation_texts(results.drop_last());
        match results.last().error {
            Some(e) => rest.push(results.last().descriptor.id@ + ": "@ + e@),
            None => rest,
        }
    }
}

// ---------------------------------------------------------------------
// Committing a workspace.
/// A workspace commit records a create or an update; deletion goes
/// through the tombstone path instead.
pub fn check_commit_operation(operation: MutationOperation) -> (r: Result<(), String>)
    ensures
        r is Ok <==> operation != MutationOperation::Delete,
        r matches Err(m) ==> m@ == "workspace commit does not accept delete; deletion uses the tombstone path"@,
{
    if operation == MutationOperation::Delete {
        return Err(
            String::from_str(
                "workspace commit does not accept delete; deletion uses the tombstone path",
            ),
        );
    }
    Ok(())
}

/// The skill edit a workspace commit records: the request's fields, with
/// the captured snapshot's manifest hash as the new content.
pub fn commit_edit(request: CommitLocalSkillWorkspaceRequest, manifest_hash: String) -> (e:
    CommitSkillEdit)
    ensures
        e.skill_id == request.skill_id && e.remote_id == request.remote_id && e.name
            == request.name && e.slug == request.slug && e.workspace_path
            == request.workspace_path && e.blob_hash == manifest_hash && e.base_revision
            == request.base_revision && e.operation == request.operation,
{
    CommitSkillEdit {
        skill_id: request.skill_id,
        remote_id: request.remote_id,
        name: request.name,
        slug: request.slug,
        workspace_path: request.workspace_path,
        blob_hash: manifest_hash,
        base_revision: request.base_revision,
        operation: request.operation,
    }
}

// ---------------------------------------------------------------------
// Deploying.
/// A skill that has no local content, or may not be used, cannot be
/// deployed.
pub open spec fn is_deployable(state: SkillSyncState) -> bool {
    !(state == SkillSyncState::RemoteOnly || state == SkillSyncState::AccessRevoked || state
        == SkillSyncState::Corrupted)
}

/// The outcome of checking a deployment request against the skill
/// (`skill`) and profile (`profile`) it names.
pub open spec fn deploy_check(
    request: DeploySkillToAgentRequest,
    skill: Option<LocalSkill>,
    profile: Option<AgentProfileRecord>,
    r: Result<DeploymentRequest, String>,
) -> bool {
    match skill {
        None => r matches Err(m) && m@ == "skill not found: "@ + request.skill_id@,
        Some(k) => if !is_deployable(k.sync_state) {
            r matches Err(m) && m@ == "skill "@ + k.id@ + " is not deployable in state "@
                + skill_sync_state_name(k.sync_state)
        } else {
            match profile {
                None => r matches Err(m) && m@ == "agent profile not found: "@
                    + request.agent_profile_id@,
                Some(p) => if !p.enabled {
                    r matches Err(m) && m@ == "agent profile is disabled: "@ + p.id@
                } else {
                    r matches Ok(d) && d.skill_id@ == k.id@ && d.agent_profile_id@ == p.id@
                        && d.snapshot_hash@ == k.current_blob_hash@ && d.skill_root@
                        == p.skill_root@ && d.directory_name@ == k.slug@
                },
            }
        },
    }
}

/// The filesystem deployment a request leads to: the skill's current
/// snapshot, into its slug directory under the profile's skill root. The
/// skill must exist and be deployable, the profile must exist and be
/// enabled.
pub fn deployment_request(
    request: &DeploySkillToAgentRequest,
    skill: Option<LocalSkill>,
    profile: Option<AgentProfileRecord>,
) -> (r: Result<DeploymentRequest, String>)
    ensures
        deploy_check(*request, skill, profile, r),
        skill matches Some(k) && (k.sync_state == SkillSyncState::RemoteOnly || k.sync_state
            == SkillSyncState::AccessRevoked || k.sync_state == SkillSyncState::Corrupted) ==> r is Err,
        r is Ok ==> (skill matches Some(k) && k.sync_state != SkillSyncState::RemoteOnly
            && k.sync_state != SkillSyncState::AccessRevoked && k.sync_state != SkillSyncState::Corrupted),
        r is Ok ==> (profile matches Some(p) && p.enabled),
{
    let k = match skill {
        Some(k) => k,
        None => {
            let mut m = String::from_str("skill not found: ");
            m.append(request.skill_id.as_str());
            return Err(m);
        },
    };
    let deployable = match k.sync_state {
        SkillSyncState::RemoteOnly | SkillSyncState::AccessRevoked | SkillSyncState::Corrupted => false,
        _ => true,
    };
    if !deployable {
        let mut m = String::from_str("skill ");
        m.append(k.id.as_str());
        m.append(" is not deployable in state ");
        m.append(k.sync_state.debug_name());
        return Err(m);
    }
    let p = match profile {
        Some(p) => p,
        None => {
            let mut m = String::from_str("agent profile not found: ");
            m.append(request.agent_profile_id.as_str());
            return Err(m);
        },
    };
    if !p.enabled {
        let mut m = String::from_str("agent profile is disabled: ");
        m.append(p.id.as_str());
        return Err(m);
    }
    Ok(
        DeploymentRequest {
            skill_id: k.id,
            agent_profile_id: p.id,
            snapshot_hash: k.current_blob_hash,
            skill_root: p.skill_root,
            directory_name: k.slug,
        },
    )
}

/// The catalog row a verified deployment is recorded as: installed, with
/// no error.
pub fn installed_record(result: &DeploymentResult) -> (d: RecordDeployment)
    ensures
        d.skill_id@ == result.skill_id@,
        d.agent_profile_id@ == result.agent_profile_id@,
        d.deployed_blob_hash@ == result.snapshot_hash@,
        d.target_path@ == result.target_path@,
        d.state == DeploymentState::Installed,
        d.last_error is None,
{
    RecordDeployment {
        skill_id: copy_string(&result.skill_id),
        agent_profile_id: copy_string(&result.agent_profile_id),
        deployed_blob_hash: copy_string(&result.snapshot_hash),
        target_path: copy_string(&result.target_path),
        state: DeploymentState::Installed,
        last_error: None,
    }
}

/// What a deployment reports once its catalog row is written: the row,
/// and whether the journal acknowledgement failed and is left to startup
/// recovery.
pub fn deploy_result(deployment: SkillDeploymentRecord, ack_failed: bool) -> (r:
    DeploySkillToAgentResult)
    ensures
        r.deployment == deployment,
        r.recovery_pending == ack_failed,
{
    DeploySkillToAgentResult { deployment, recovery_pending: ack_failed }
}

// ---------------------------------------------------------------------
// Uninstalling.
/// The outcome of checking an uninstall request against the deployment
/// row (`deployment`) and profile (`profile`) it names.
pub open spec fn uninstall_check(
    request: UninstallSkillFromAgentRequest,
    deployment: Option<SkillDeploymentRecord>,
    profile: Option<AgentProfileRecord>,
    r: Result<UninstallRequest, String>,
) -> bool {
    match deployment {
        None => r matches Err(m) && m@ == "deployment not found for skill "@ + request.skill_id@
            + " and profile "@ + request.agent_profile_id@,
        Some(d) => match profile {
            None => r matches Err(m) && m@ == "agent profile not found: "@
                + request.agent_profile_id@,
            Some(p) => if !is_direct_child(d.target_path@, p.skill_root@) {
                r matches Err(m) && m@
                    == "deployment catalog target no longer matches agent profile root"@
            } else {
                r matches Ok(u) && u.skill_id@ == d.skill_id@ && u.agent_profile_id@
                    == d.agent_profile_id@ && u.skill_root@ == p.skill_root@ && u.target_path@
                    == d.target_path@
            },
        },
    }
}

/// The filesystem uninstall a request leads to: the recorded target, which
/// must still be directly inside the profile's skill root.
pub fn uninstall_request(
    request: &UninstallSkillFromAgentRequest,
    deployment: Option<SkillDeploymentRecord>,
    profile: Option<AgentProfileRecord>,
) -> (r: Result<UninstallRequest, String>)
    ensures
        uninstall_check(*request, deployment, profile, r),
{
    let d = match deployment {
        Some(d) => d,
        None => {
            let mut m = String::from_str("deployment not found for skill ");
            m.append(request.skill_id.as_str());
            m.append(" and profile ");
            m.append(request.agent_profile_id.as_str());
            return Err(m);
        },
    };
    let p = match profile {
        Some(p) => p,
        None => {
            let mut m = String::from_str("agent profile not found: ");
            m.append(request.agent_profile_id.as_str());
            return Err(m);
        },
    };
    if !is_direct_child_of(d.target_path.as_str(), p.skill_root.as_str()) {
        return Err(String::from_str("deployment catalog target no longer matches agent profile root"));
    }
    Ok(
        UninstallRequest {
            skill_id: d.skill_id,
            agent_profile_id: d.agent_profile_id,
            skill_root: p.skill_root,
            target_path: d.target_path,
        },
    )
}

/// What an uninstall reports once the catalog row is gone. Cleanup is
/// pending when a transaction was opened and finalizing it failed.
pub fn uninstall_result(
    deployment: &SkillDeploymentRecord,
    target_existed: bool,
    had_transaction: bool,
    finalize_failed: bool,
) -> (r: UninstallSkillFromAgentResult)
    ensures
        r.skill_id@ == deployment.skill_id@,
        r.agent_profile_id@ == deployment.agent_profile_id@,
        r.target_existed == target_existed,
        r.recovery_pending == (had_transaction && finalize_failed),
{
    UninstallSkillFromAgentResult {
        skill_id: copy_string(&deployment.skill_id),
        agent_profile_id: copy_string(&deployment.agent_profile_id),
        target_existed,
        recovery_pending: had_transaction && finalize_failed,
    }
}

// ---------------------------------------------------------------------
// Startup recovery.
/// What startup does with a pending uninstall transaction.
#[derive(Debug, Clone, Copy, PartialEq, Eq, Structural)]
pub enum PendingUninstall {
    /// The catalog row still exists: the uninstall never committed, so
    /// the target is restored.
    Rollback,
    /// The catalog row is gone: the uninstall committed, so the
    /// quarantine is removed.
    Finalize,
}

/// Chooses between rollback and finalize from the authoritative catalog:
/// `catalog` is whether the deployment row exists, or the error text of
/// the lookup.
pub fn pending_uninstall_action(transaction_id: &str, catalog: Result<bool, String>) -> (r: Result<
    PendingUninstall,
    String,
>)
    ensures
        match catalog {
            Ok(true) => r == Ok::<PendingUninstall, String>(PendingUninstall::Rollback),
            Ok(false) => r == Ok::<PendingUninstall, String>(PendingUninstall::Finalize),
            Err(e) => r matches Err(m) && m@ == "uninstall catalog lookup failed for "@
                + transaction_id@ + ": "@ + e@,
        },
{
    match catalog {
        Ok(true) => Ok(PendingUninstall::Rollback),
        Ok(false) => Ok(PendingUninstall::Finalize),
        Err(e) => {
            let mut m = String::from_str("uninstall catalog lookup failed for ");
            m.append(transaction_id);
            m.append(": ");
            m.append(e.as_str());
            Err(m)
        },
    }
}

/// The report after one pending transaction's outcome is counted.
pub open spec fn pending_recorded(
    before: UninstallStartupReport,
    after: UninstallStartupReport,
    transaction_id: Seq<char>,
    action: PendingUninstall,
    outcome: Result<(), String>,
) -> bool {
    &&& after.discovered == before.discovered
    &&& after.cleaned_intents == before.cleaned_intents
    &&& match outcome {
        Ok(_) => {
            &&& after.failed == before.failed
            &&& action == PendingUninstall::Rollback ==> after.rolled_back == before.rolled_back + 1
                && after.finalized == before.finalized
            &&& action == PendingUninstall::Finalize ==> after.finalized == before.finalized + 1
                && after.rolled_back == before.rolled_back
        },
        Err(e) => {
            &&& after.rolled_back == before.rolled_back
            &&& after.finalized == before.finalized
            &&& after.failed@.len() == before.failed@.len() + 1
            &&& after.failed@.take(before.failed@.len() as int) == before.failed@
            &&& after.failed@.last()@ == "uninstall "@ + (if action == PendingUninstall::Rollback {
                "rollback"@
            } else {
                "finalize"@
            }) + " failed for "@ + transaction_id + ": "@ + e@
        },
    }
}

impl UninstallStartupReport {
    /// The report of what the uninstall journals held at startup.
    pub fn from_discovery(discovered: UninstallRecoveryReport) -> (r: UninstallStartupReport)
        ensures
            r.discovered == discovered.pending@.len(),
            r.rolled_back == 0,
            r.finalized == 0,
            r.cleaned_intents == discovered.cleaned_intents,
            r.failed == discovered.failed,
    {
        UninstallStartupReport {
            discovered: discovered.pending.len(),
            rolled_back: 0,
            finalized: 0,
            cleaned_intents: discovered.cleaned_intents,
            failed: discovered.failed,
        }
    }

    /// The report when the journals could not be read at all.
    pub fn failed_with(error: String) -> (r: UninstallStartupReport)
        ensures
            r.discovered == 0 && r.rolled_back == 0 && r.finalized == 0 && r.cleaned_intents == 0,
            r.failed@ == seq![error],
    {
        let mut failed = Vec::new();
        failed.push(error);
        UninstallStartupReport { discovered: 0, rolled_back: 0, finalized: 0, cleaned_intents: 0, failed }
    }

    /// Counts the outcome of one pending transaction's rollback or
    /// finalize; a failure is kept as
    /// `uninstall <rollback|finalize> failed for <transaction>: <error>`.
    pub fn record(&mut self, transaction_id: &str, action: PendingUninstall, outcome: Result<(), String>)
        requires
            old(self).rolled_back < usize::MAX,
            old(self).finalized < usize::MAX,
        ensures
            pending_recorded(*old(self), *final(self), transaction_id@, action, outcome),
    {
        match outcome {
            Ok(()) => {
                if action == PendingUninstall::Rollback {
                    self.rolled_back = self.rolled_back + 1;
                } else {
                    self.finalized = self.finalized + 1;
                }
            },
            Err(e) => {
                let mut m = String::from_str("uninstall ");
                if action == PendingUninstall::Rollback {
                    m.append("rollback");
                } else {
                    m.append("finalize");
                }
                m.append(" failed for ");
                m.append(transaction_id);
                m.append(": ");
                m.append(e.as_str());
                let ghost before = self.failed@;
                self.failed.push(m);
                assert(self.failed@.take(before.len() as int) =~= before);
            },
        }
    }
}

/// The failure kept when a transaction recovered at startup leaves a
/// target that does not match its snapshot.
pub fn recovered_target_mismatch(recovered: &DeploymentResult, error: &str) -> (m: String)
    ensures
        m@ == "deployment "@ + recovered.transaction_id@ + " recovered a target that does not match snapshot "@
            + recovered.snapshot_hash@ + ": "@ + error@,
{
    let mut m = String::from_str("deployment ");
    m.append(recovered.transaction_id.as_str());
    m.append(" recovered a target that does not match snapshot ");
    m.append(recovered.snapshot_hash.as_str());
    m.append(": ");
    m.append(error);
    m
}

/// The failure kept when the catalog row of a recovered deployment was
/// written but its journal acknowledgement failed.
pub fn recovered_ack_failure(recovered: &DeploymentResult, error: &str) -> (m: String)
    ensures
        m@ == "catalog committed for "@ + recovered.transaction_id@
            + ", but deployment journal ACK failed: "@ + error@,
{
    let mut m = String::from_str("catalog committed for ");
    m.append(recovered.transaction_id.as_str());
    m.append(", but deployment journal ACK failed: ");
    m.append(error);
    m
}

/// The failure kept when the catalog row of a recovered deployment could
/// not be written.
pub fn recovered_catalog_failure(recovered: &DeploymentResult, error: &str) -> (m: String)
    ensures
        m@ == "deployment catalog reconciliation failed for "@ + recovered.transaction_id@ + ": "@
            + error@,
{
    let mut m = String::from_str("deployment catalog reconciliation failed for ");
    m.append(recovered.transaction_id.as_str());
    m.append(": ");
    m.append(error);
    m
}

/// A skill without usable local content (remote-only, revoked or
/// corrupted) is never deployed, whatever the profile: the request is
/// refused. A deployment only ever comes from an enabled profile.
pub proof fn lemma_unusable_skills_are_never_deployed(
    request: DeploySkillToAgentRequest,
    skill: Option<LocalSkill>,
    profile: Option<AgentProfileRecord>,
    r: Result<DeploymentRequest, String>,
)
    requires
        deploy_check(request, skill, profile, r),
    ensures
        skill matches Some(k) && (k.sync_state == SkillSyncState::RemoteOnly || k.sync_state
            == SkillSyncState::AccessRevoked || k.sync_state == SkillSyncState::Corrupted) ==> r is Err,
        r is Ok ==> (skill matches Some(k) && k.sync_state != SkillSyncState::AccessRevoked
            && k.sync_state != SkillSyncState::RemoteOnly && k.sync_state != SkillSyncState::Corrupted),
        r is Ok ==> (profile matches Some(p) && p.enabled),
{
}

/// A deployment is only recorded as installed for a skill that has local
/// content and may be used, and through an enabled profile.
pub proof fn lemma_deploy_requires_usable_skill_and_enabled_profile(
    request: DeploySkillToAgentRequest,
    skill: Option<LocalSkill>,
    profile: Option<AgentProfileRecord>,
    r: Result<DeploymentRequest, String>,
)
    requires
        deploy_check(request, skill, profile, r),
        r is Ok,
    ensures
        skill matches Some(k) && is_deployable(k.sync_state),
        profile matches Some(p) && p.enabled,
{
}

} // verus!
