//! The desktop's durable local state: skills, the mutation outbox, agent
//! profiles and deployments, sync cursors, entitlements and preferences.
//!
//! The rows live in SQLite; this module holds their types, the persisted
//! text of each state, the input rules, and the transitions every write
//! applies, so that each transaction only stores what these functions
//! decided.
pub mod outcomes;
pub mod mutations;
pub mod entitlements;
pub mod pull_apply;
pub mod scope;
pub mod catalog;
pub mod prefs;
pub mod conflicts;
pub mod sync_state;

use vstd::prelude::*;
use crate::paths::{is_absolute, is_absolute_path};
use crate::text::{i64_text, int_text, is_blank, nat_text, str_eq, trim_seq, u64_text};

verus! {

#[derive(Debug, Clone, Copy, PartialEq, Eq, Structural)]
pub enum SkillSyncState {
    RemoteOnly,
    Synced,
    Dirty,
    Uploading,
    Conflict,
    SyncError,
    AccessRevoked,
    Corrupted,
}

#[derive(Debug, Clone, Copy, PartialEq, Eq, Structural)]
pub enum MutationOperation {
    Create,
    Update,
    Delete,
}

#[derive(Debug, Clone, Copy, PartialEq, Eq, Structural)]
pub enum MutationState {
    Pending,
    InFlight,
    Acked,
    RetryableError,
    Conflict,
    PermissionDenied,
    PermanentError,
}

#[derive(Debug, Clone, Copy, PartialEq, Eq, Structural)]
pub enum DeploymentState {
    Installing,
    Installed,
    Updating,
    Removing,
    Modified,
    Missing,
    Failed,
    Revoked,
}

#[derive(Debug)]
pub enum LocalStoreError {
    Database(String),
    Io(String),
    LockPoisoned,
    UnsupportedSchema { found: i64, supported: i64 },
    InvalidPersistedState(String),
    InvalidInput(String),
    SkillNotFound(String),
    AgentProfileNotFound(String),
    AgentProfileRootInUse {
        profile_id: String,
        current_root: String,
        requested_root: String,
        deployment_count: u64,
    },
    DeploymentCatalogChanged { skill_id: String, agent_profile_id: String },
    OutboxClaimLost(String),
    NonUtf8Path(String),
}

// ---------------------------------------------------------------------
// Persisted text of each state.
pub open spec fn skill_sync_state_text(s: SkillSyncState) -> Seq<char> {
    match s {
        SkillSyncState::RemoteOnly => "remote_only"@,
        SkillSyncState::Synced => "synced"@,
        SkillSyncState::Dirty => "dirty"@,
        SkillSyncState::Uploading => "uploading"@,
        SkillSyncState::Conflict => "conflict"@,
        SkillSyncState::SyncError => "sync_error"@,
        SkillSyncState::AccessRevoked => "access_revoked"@,
        SkillSyncState::Corrupted => "corrupted"@,
    }
}

pub open spec fn mutation_operation_text(o: MutationOperation) -> Seq<char> {
    match o {
        MutationOperation::Create => "create"@,
        MutationOperation::Update => "update"@,
        MutationOperation::Delete => "delete"@,
    }
}

pub open spec fn mutation_state_text(s: MutationState) -> Seq<char> {
    match s {
        MutationState::Pending => "pending"@,
        MutationState::InFlight => "in_flight"@,
        MutationState::Acked => "acked"@,
        MutationState::RetryableError => "retryable_error"@,
        MutationState::Conflict => "conflict"@,
        MutationState::PermissionDenied => "permission_denied"@,
        MutationState::PermanentError => "permanent_error"@,
    }
}

pub open spec fn deployment_state_text(s: DeploymentState) -> Seq<char> {
    match s {
        DeploymentState::Installing => "installing"@,
        DeploymentState::Installed => "installed"@,
        DeploymentState::Updating => "updating"@,
        DeploymentState::Removing => "removing"@,
        DeploymentState::Modified => "modified"@,
        DeploymentState::Missing => "missing"@,
        DeploymentState::Failed => "failed"@,
        DeploymentState::Revoked => "revoked"@,
    }
}

/// The state's name as `{:?}` prints it.
pub open spec fn skill_sync_state_name(s: SkillSyncState) -> Seq<char> {
    match s {
        SkillSyncState::RemoteOnly => "RemoteOnly"@,
        SkillSyncState::Synced => "Synced"@,
        SkillSyncState::Dirty => "Dirty"@,
        SkillSyncState::Uploading => "Uploading"@,
        SkillSyncState::Conflict => "Conflict"@,
        SkillSyncState::SyncError => "SyncError"@,
        SkillSyncState::AccessRevoked => "AccessRevoked"@,
        SkillSyncState::Corrupted => "Corrupted"@,
    }
}

impl SkillSyncState {
    /// The state's name as `{:?}` prints it.
    pub fn debug_name(self) -> (r: &'static str)
        ensures
            r@ == skill_sync_state_name(self),
    {
        match self {
            SkillSyncState::RemoteOnly => "RemoteOnly",
            SkillSyncState::Synced => "Synced",
            SkillSyncState::Dirty => "Dirty",
            SkillSyncState::Uploading => "Uploading",
            SkillSyncState::Conflict => "Conflict",
            SkillSyncState::SyncError => "SyncError",
            SkillSyncState::AccessRevoked => "AccessRevoked",
            SkillSyncState::Corrupted => "Corrupted",
        }
    }

    pub fn as_db_str(self) -> (r: &'static str)
        ensures
            r@ == skill_sync_state_text(self),
    {
        match self {
            SkillSyncState::RemoteOnly => "remote_only",
            SkillSyncState::Synced => "synced",
            SkillSyncState::Dirty => "dirty",
            SkillSyncState::Uploading => "uploading",
            SkillSyncState::Conflict => "conflict",
            SkillSyncState::SyncError => "sync_error",
            SkillSyncState::AccessRevoked => "access_revoked",
            SkillSyncState::Corrupted => "corrupted",
        }
    }

    pub fn from_db_str(value: &str) -> (r: Result<SkillSyncState, LocalStoreError>)
        ensures
            r matches Ok(s) ==> skill_sync_state_text(s) == value@,
            r is Err ==> (forall|s: SkillSyncState| skill_sync_state_text(s) != value@),
            r matches Err(e) ==> e matches LocalStoreError::InvalidPersistedState(v) && v@ == value@,
    {
        if str_eq(value, "remote_only") {
            Ok(SkillSyncState::RemoteOnly)
        } else if str_eq(value, "synced") {
            Ok(SkillSyncState::Synced)
        } else if str_eq(value, "dirty") {
            Ok(SkillSyncState::Dirty)
        } else if str_eq(value, "uploading") {
            Ok(SkillSyncState::Uploading)
        } else if str_eq(value, "conflict") {
            Ok(SkillSyncState::Conflict)
        } else if str_eq(value, "sync_error") {
            Ok(SkillSyncState::SyncError)
        } else if str_eq(value, "access_revoked") {
            Ok(SkillSyncState::AccessRevoked)
        } else if str_eq(value, "corrupted") {
            Ok(SkillSyncState::Corrupted)
        } else {
            Err(LocalStoreError::InvalidPersistedState(value.to_owned()))
        }
    }
}

impl MutationOperation {
    pub fn as_db_str(self) -> (r: &'static str)
        ensures
            r@ == mutation_operation_text(self),
    {
        match self {
            MutationOperation::Create => "create",
            MutationOperation::Update => "update",
            MutationOperation::Delete => "delete",
        }
    }

    pub fn from_db_str(value: &str) -> (r: Result<MutationOperation, LocalStoreError>)
        ensures
            r matches Ok(o) ==> mutation_operation_text(o) == value@,
            r is Err ==> (forall|o: MutationOperation| mutation_operation_text(o) != value@),
            r matches Err(e) ==> e matches LocalStoreError::InvalidPersistedState(v) && v@ == value@,
    {
        if str_eq(value, "create") {
            Ok(MutationOperation::Create)
        } else if str_eq(value, "update") {
            Ok(MutationOperation::Update)
        } else if str_eq(value, "delete") {
            Ok(MutationOperation::Delete)
        } else {
            Err(LocalStoreError::InvalidPersistedState(value.to_owned()))
        }
    }
}

impl MutationState {
    pub fn as_db_str(self) -> (r: &'static str)
        ensures
            r@ == mutation_state_text(self),
    {
        match self {
            MutationState::Pending => "pending",
            MutationState::InFlight => "in_flight",
            MutationState::Acked => "acked",
            MutationState::RetryableError => "retryable_error",
            MutationState::Conflict => "conflict",
            MutationState::PermissionDenied => "permission_denied",
            MutationState::PermanentError => "permanent_error",
        }
    }

    pub fn from_db_str(value: &str) -> (r: Result<MutationState, LocalStoreError>)
        ensures
            r matches Ok(s) ==> mutation_state_text(s) == value@,
            r is Err ==> (forall|s: MutationState| mutation_state_text(s) != value@),
            r matches Err(e) ==> e matches LocalStoreError::InvalidPersistedState(v) && v@ == value@,
    {
        if str_eq(value, "pending") {
            Ok(MutationState::Pending)
        } else if str_eq(value, "in_flight") {
            Ok(MutationState::InFlight)
        } else if str_eq(value, "acked") {
            Ok(MutationState::Acked)
        } else if str_eq(value, "retryable_error") {
            Ok(MutationState::RetryableError)
        } else if str_eq(value, "conflict") {
            Ok(MutationState::Conflict)
        } else if str_eq(value, "permission_denied") {
            Ok(MutationState::PermissionDenied)
        } else if str_eq(value, "permanent_error") {
            Ok(MutationState::PermanentError)
        } else {
            Err(LocalStoreError::InvalidPersistedState(value.to_owned()))
        }
    }
}

impl DeploymentState {
    pub fn as_db_str(self) -> (r: &'static str)
        ensures
            r@ == deployment_state_text(self),
    {
        match self {
            DeploymentState::Installing => "installing",
            DeploymentState::Installed => "installed",
            DeploymentState::Updating => "updating",
            DeploymentState::Removing => "removing",
            DeploymentState::Modified => "modified",
            DeploymentState::Missing => "missing",
            DeploymentState::Failed => "failed",
            DeploymentState::Revoked => "revoked",
        }
    }

    pub fn from_db_str(value: &str) -> (r: Result<DeploymentState, LocalStoreError>)
        ensures
            r matches Ok(s) ==> deployment_state_text(s) == value@,
            r is Err ==> (forall|s: DeploymentState| deployment_state_text(s) != value@),
            r matches Err(e) ==> e matches LocalStoreError::InvalidPersistedState(v) && v@ == value@,
    {
        if str_eq(value, "installing") {
            Ok(DeploymentState::Installing)
        } else if str_eq(value, "installed") {
            Ok(DeploymentState::Installed)
        } else if str_eq(value, "updating") {
            Ok(DeploymentState::Updating)
        } else if str_eq(value, "removing") {
            Ok(DeploymentState::Removing)
        } else if str_eq(value, "modified") {
            Ok(DeploymentState::Modified)
        } else if str_eq(value, "missing") {
            Ok(DeploymentState::Missing)
        } else if str_eq(value, "failed") {
            Ok(DeploymentState::Failed)
        } else if str_eq(value, "revoked") {
            Ok(DeploymentState::Revoked)
        } else {
            Err(LocalStoreError::InvalidPersistedState(value.to_owned()))
        }
    }
}

// ---------------------------------------------------------------------
// Rows.
#[derive(Debug, Clone)]
pub struct CommitSkillEdit {
    pub skill_id: String,
    pub remote_id: Option<String>,
    pub name: String,
    pub slug: String,
    pub workspace_path: String,
    pub blob_hash: String,
    pub base_revision: Option<i64>,
    pub operation: MutationOperation,
}

#[derive(Debug, Clone, PartialEq, Eq)]
pub struct LocalSkill {
    pub id: String,
    pub remote_id: Option<String>,
    pub name: String,
    pub slug: String,
    pub workspace_path: String,
    pub current_blob_hash: String,
    pub remote_blob_hash: Option<String>,
    pub remote_revision: Option<i64>,
    pub sync_state: SkillSyncState,
    pub pinned: bool,
}

#[derive(Debug, Clone, PartialEq, Eq)]
pub struct LocalMutation {
    pub id: String,
    pub skill_id: String,
    pub local_sequence: u64,
    pub operation: MutationOperation,
    pub base_revision: Option<i64>,
    pub payload_hash: String,
    pub state: MutationState,
    pub retry_count: u32,
    pub next_attempt_at: Option<String>,
    pub last_attempt_at: Option<String>,
    pub server_error_code: Option<String>,
    pub server_error_details: Option<String>,
    pub acknowledged_remote_revision: Option<i64>,
    pub acknowledged_remote_id: Option<String>,
    pub last_error: Option<String>,
}

#[derive(Debug, Clone, PartialEq, Eq)]
pub struct LocalSyncState {
    pub protocol_version: u32,
    pub client_instance_id: Option<String>,
    pub device_id: Option<String>,
    pub server_user_id: Option<String>,
    pub server_url: Option<String>,
    pub server_login_identity: Option<String>,
    pub server_cursor: Option<String>,
    pub last_successful_push_at: Option<String>,
    pub last_successful_pull_at: Option<String>,
    pub last_server_error: Option<String>,
}

#[derive(Debug, Clone)]
pub struct UpsertAgentProfile {
    pub id: String,
    pub descriptor_id: String,
    pub display_name: String,
    pub skill_root: String,
    pub enabled: bool,
    pub is_custom: bool,
}

#[derive(Debug, Clone, PartialEq, Eq)]
pub struct AgentProfileRecord {
    pub id: String,
    pub descriptor_id: String,
    pub display_name: String,
    pub skill_root: String,
    pub enabled: bool,
    pub is_custom: bool,
}

#[derive(Debug, Clone)]
pub struct RecordDeployment {
    pub skill_id: String,
    pub agent_profile_id: String,
    pub deployed_blob_hash: String,
    pub target_path: String,
    pub state: DeploymentState,
    pub last_error: Option<String>,
}

#[derive(Debug, Clone, PartialEq, Eq)]
pub struct SkillDeploymentRecord {
    pub skill_id: String,
    pub agent_profile_id: String,
    pub deployed_blob_hash: String,
    pub target_path: String,
    pub state: DeploymentState,
    pub last_error: Option<String>,
}

#[derive(Debug, Clone, PartialEq, Eq)]
pub struct LocalStoreHealth {
    pub schema_version: i64,
    pub pending_mutations: u64,
}

// ---------------------------------------------------------------------
// Input rules.
/// The message reported for a blank required field.
pub open spec fn blank_message(field: Seq<char>) -> Seq<char> {
    field + " must not be empty"@
}

/// Refuses a value that is empty once trimmed, naming the field.
pub fn validate_non_empty(field: &str, value: &str) -> (r: Result<(), LocalStoreError>)
    ensures
        r is Ok <==> trim_seq(value@).len() > 0,
        r matches Err(e) ==> e matches LocalStoreError::InvalidInput(m) && m@ == blank_message(
            field@,
        ),
{
    if is_blank(value) {
        let mut message = field.to_owned();
        message.append(" must not be empty");
        return Err(LocalStoreError::InvalidInput(message));
    }
    Ok(())
}

/// The first rule a skill edit breaks, as the message it is refused with.
pub open spec fn edit_fault(edit: CommitSkillEdit) -> Option<Seq<char>> {
    if trim_seq(edit.skill_id@).len() == 0 {
        Some(blank_message("skill_id"@))
    } else if trim_seq(edit.name@).len() == 0 {
        Some(blank_message("name"@))
    } else if trim_seq(edit.slug@).len() == 0 {
        Some(blank_message("slug"@))
    } else if trim_seq(edit.blob_hash@).len() == 0 {
        Some(blank_message("blob_hash"@))
    } else if !is_absolute_path(edit.workspace_path@) {
        Some("workspace_path must be absolute"@)
    } else if edit.base_revision matches Some(rev) && rev < 0 {
        Some("base_revision must not be negative"@)
    } else {
        None
    }
}

/// Checks a skill edit: required fields present, an absolute workspace and
/// a non-negative base revision.
pub fn validate_edit(edit: &CommitSkillEdit) -> (r: Result<(), LocalStoreError>)
    ensures
        r is Ok <==> edit_fault(*edit) is None,
        r matches Err(e) ==> e matches LocalStoreError::InvalidInput(m) && edit_fault(*edit)
            == Some(m@),
{
    validate_non_empty("skill_id", edit.skill_id.as_str())?;
    validate_non_empty("name", edit.name.as_str())?;
    validate_non_empty("slug", edit.slug.as_str())?;
    validate_non_empty("blob_hash", edit.blob_hash.as_str())?;
    if !is_absolute(edit.workspace_path.as_str()) {
        return Err(LocalStoreError::InvalidInput(String::from_str("workspace_path must be absolute")));
    }
    match edit.base_revision {
        Some(rev) => {
            if rev < 0 {
                return Err(
                    LocalStoreError::InvalidInput(String::from_str("base_revision must not be negative")),
                );
            }
        },
        None => {},
    }
    Ok(())
}

/// The first rule an agent profile breaks, as the message it is refused with.
pub open spec fn agent_profile_fault(profile: UpsertAgentProfile) -> Option<Seq<char>> {
    if trim_seq(profile.id@).len() == 0 {
        Some(blank_message("id"@))
    } else if trim_seq(profile.descriptor_id@).len() == 0 {
        Some(blank_message("descriptor_id"@))
    } else if trim_seq(profile.display_name@).len() == 0 {
        Some(blank_message("display_name"@))
    } else if !is_absolute_path(profile.skill_root@) {
        Some("agent skill_root must be absolute"@)
    } else {
        None
    }
}

/// Checks an agent profile: identifiers and name present, absolute root.
pub fn validate_agent_profile(profile: &UpsertAgentProfile) -> (r: Result<(), LocalStoreError>)
    ensures
        r is Ok <==> agent_profile_fault(*profile) is None,
        r matches Err(e) ==> e matches LocalStoreError::InvalidInput(m) && agent_profile_fault(
            *profile,
        ) == Some(m@),
{
    validate_non_empty("id", profile.id.as_str())?;
    validate_non_empty("descriptor_id", profile.descriptor_id.as_str())?;
    validate_non_empty("display_name", profile.display_name.as_str())?;
    if !is_absolute(profile.skill_root.as_str()) {
        return Err(
            LocalStoreError::InvalidInput(String::from_str("agent skill_root must be absolute")),
        );
    }
    Ok(())
}

// ---------------------------------------------------------------------
// Errors, schema and health.
/// The text each error is reported with (paths are shown quoted).
pub open spec fn local_store_error_text(e: LocalStoreError) -> Seq<char> {
    match e {
        LocalStoreError::Database(m) => "local database error: "@ + m@,
        LocalStoreError::Io(m) => "local filesystem error: "@ + m@,
        LocalStoreError::LockPoisoned => "local database lock was poisoned"@,
        LocalStoreError::UnsupportedSchema { found, supported } => "database schema version "@
            + int_text(found as int) + " is newer than supported version "@ + int_text(
            supported as int,
        ),
        LocalStoreError::InvalidPersistedState(m) => "invalid persisted state: "@ + m@,
        LocalStoreError::InvalidInput(m) => "invalid local store input: "@ + m@,
        LocalStoreError::SkillNotFound(m) => "skill not found: "@ + m@,
        LocalStoreError::AgentProfileNotFound(m) => "agent profile not found: "@ + m@,
        LocalStoreError::AgentProfileRootInUse {
            profile_id,
            current_root,
            requested_root,
            deployment_count,
        } => "agent profile "@ + profile_id@ + " cannot move from \""@ + current_root@
            + "\" to \""@ + requested_root@ + "\" while "@ + nat_text(deployment_count as nat)
            + " deployments exist"@,
        LocalStoreError::DeploymentCatalogChanged { skill_id, agent_profile_id } =>
            "deployment catalog changed while uninstalling skill "@ + skill_id@ + " from profile "@
            + agent_profile_id@,
        LocalStoreError::OutboxClaimLost(m) => "outbox claim lost for mutation "@ + m@,
        LocalStoreError::NonUtf8Path(p) => "path is not valid UTF-8: \""@ + p@ + "\""@,
    }
}

fn prefixed(head: &str, tail: &String) -> (s: String)
    ensures
        s@ == head@ + tail@,
{
    let mut s = head.to_owned();
    s.append(tail.as_str());
    s
}

impl LocalStoreError {
    /// The error's text.
    pub fn message(&self) -> (s: String)
        ensures
            s@ == local_store_error_text(*self),
    {
        match self {
            LocalStoreError::Database(m) => prefixed("local database error: ", m),
            LocalStoreError::Io(m) => prefixed("local filesystem error: ", m),
            LocalStoreError::LockPoisoned => String::from_str("local database lock was poisoned"),
            LocalStoreError::UnsupportedSchema { found, supported } => {
                let mut s = String::from_str("database schema version ");
                s.append(i64_text(*found).as_str());
                s.append(" is newer than supported version ");
                s.append(i64_text(*supported).as_str());
                s
            },
            LocalStoreError::InvalidPersistedState(m) => prefixed("invalid persisted state: ", m),
            LocalStoreError::InvalidInput(m) => prefixed("invalid local store input: ", m),
            LocalStoreError::SkillNotFound(m) => prefixed("skill not found: ", m),
            LocalStoreError::AgentProfileNotFound(m) => prefixed("agent profile not found: ", m),
            LocalStoreError::AgentProfileRootInUse {
                profile_id,
                current_root,
                requested_root,
                deployment_count,
            } => {
                let mut s = String::from_str("agent profile ");
                s.append(profile_id.as_str());
                s.append(" cannot move from \"");
                s.append(current_root.as_str());
                s.append("\" to \"");
                s.append(requested_root.as_str());
                s.append("\" while ");
                s.append(u64_text(*deployment_count).as_str());
                s.append(" deployments exist");
                s
            },
            LocalStoreError::DeploymentCatalogChanged { skill_id, agent_profile_id } => {
                let mut s = String::from_str("deployment catalog changed while uninstalling skill ");
                s.append(skill_id.as_str());
                s.append(" from profile ");
                s.append(agent_profile_id.as_str());
                s
            },
            LocalStoreError::OutboxClaimLost(m) => prefixed("outbox claim lost for mutation ", m),
            LocalStoreError::NonUtf8Path(p) => {
                let mut s = String::from_str("path is not valid UTF-8: \"");
                s.append(p.as_str());
                s.append("\"");
                s
            },
        }
    }
}

/// The newest schema this code knows.
pub const LATEST_SCHEMA_VERSION: i64 = 1;

/// What opening a store runs before use.
#[derive(Debug, Clone, PartialEq, Eq)]
pub struct MigrationPlan {
    /// Copy the database aside before the first step: an existing store
    /// is behind. A fresh store has nothing to protect.
    pub backup: bool,
    /// The migration steps to apply, in order, each in its own
    /// transaction.
    pub versions: Vec<i64>,
}

/// The versions above `current`, in order.
pub open spec fn pending_versions(available: Seq<i64>, current: i64) -> Seq<i64> {
    available.filter(|v: i64| v > current)
}

/// Decides how to bring a store at schema `current` to the newest version,
/// given the known migration versions in order. A store newer than this
/// code is refused; an existing store that is behind is backed up first.
pub fn migration_plan(current: i64, available: &Vec<i64>) -> (r: Result<MigrationPlan, LocalStoreError>)
    ensures
        current > LATEST_SCHEMA_VERSION ==> (r matches Err(
            LocalStoreError::UnsupportedSchema { found, supported },
        ) && found == current && supported == LATEST_SCHEMA_VERSION),
        current <= LATEST_SCHEMA_VERSION ==> (r matches Ok(p) && p.versions@ == pending_versions(
            available@,
            current,
        ) && p.backup == (current > 0 && p.versions@.len() > 0)),
{
    if current > LATEST_SCHEMA_VERSION {
        return Err(
            LocalStoreError::UnsupportedSchema { found: current, supported: LATEST_SCHEMA_VERSION },
        );
    }
    let mut versions: Vec<i64> = Vec::new();
    let mut i: usize = 0;
    while i < available.len()
        invariant
            i <= available@.len(),
            versions@ == pending_versions(available@.take(i as int), current),
        decreases available@.len() - i,
    {
        proof {
            reveal(Seq::filter);
            assert(available@.take(i + 1).drop_last() =~= available@.take(i as int));
        }
        if available[i] > current {
            versions.push(available[i]);
        }
        i = i + 1;
    }
    assert(available@.take(available@.len() as int) =~= available@);
    let backup = current > 0 && versions.len() > 0;
    Ok(MigrationPlan { backup, versions })
}

/// The health report: the schema version, and the number of waiting
/// mutations (a negative count reads as zero).
pub fn store_health(schema_version: i64, pending_mutations: i64) -> (h: LocalStoreHealth)
    ensures
        h.schema_version == schema_version,
        h.pending_mutations == if pending_mutations < 0 {
            0
        } else {
            pending_mutations as u64
        },
{
    let pending: u64 = if pending_mutations < 0 {
        0
    } else {
        pending_mutations as u64
    };
    LocalStoreHealth { schema_version, pending_mutations: pending }
}

} // verus!
