//! Importing an existing skill from an agent's skill directory into a
//! managed workspace. The source path is never taken from the caller: it
//! is always `<persisted skill root>/<directory name>`.
use vstd::prelude::*;
use crate::deployment::{is_single_component, reserved_prefix_seq, starts_with, starts_with_str};
use crate::local_store::{AgentProfileRecord, LocalStoreError};
use crate::paths::{is_direct_child, is_direct_child_of, join, join_path};
use crate::skill_snapshot::{SkillSnapshotRef, SnapshotError};
use crate::workspace::{WorkspaceError, WorkspaceRef};

verus! {

#[derive(Debug, Clone)]
pub struct ImportAgentSkillRequest {
    pub skill_id: String,
    pub agent_profile_id: String,
    pub directory_name: String,
}

#[derive(Debug, Clone, PartialEq, Eq)]
pub struct ImportAgentSkillResult {
    pub workspace: WorkspaceRef,
    pub snapshot: SkillSnapshotRef,
    pub source_profile_id: String,
    pub source_directory_name: String,
}

#[derive(Debug)]
pub enum AgentSkillImportError {
    ProfileNotFound(String),
    ProfileDisabled(String),
    InvalidDirectoryName(String),
    SourceNotFound(String),
    InvalidSource(String),
    Io(String),
    Agent(String),
    LocalStore(LocalStoreError),
    Snapshot(SnapshotError),
    Workspace(WorkspaceError),
}

/// A directory name an import may read: not empty, not one of the
/// engine's reserved names, and a single plain path component.
pub open spec fn is_importable_name(s: Seq<char>) -> bool {
    s.len() > 0 && !starts_with(s, reserved_prefix_seq()) && is_single_component(s)
}

fn is_single_component_str(s: &str) -> (b: bool)
    ensures
        b == is_single_component(s@),
{
    crate::deployment::is_single_component_text(s)
}

/// Refuses a directory name that is empty, reserved, or more than one
/// plain component (`..`, `./x`, `a/b`, `/a`).
pub fn validate_directory_name(value: &str) -> (r: Result<(), AgentSkillImportError>)
    ensures
        r is Ok <==> is_importable_name(value@),
        r matches Err(e) ==> e matches AgentSkillImportError::InvalidDirectoryName(v) && v@
            == value@,
{
    if value.is_empty() || starts_with_str(value, ".skillhive-") {
        proof {
            reveal_strlit(".skillhive-");
            assert(".skillhive-"@ =~= reserved_prefix_seq());
        }
        return Err(AgentSkillImportError::InvalidDirectoryName(value.to_owned()));
    }
    proof {
        reveal_strlit(".skillhive-");
        assert(".skillhive-"@ =~= reserved_prefix_seq());
    }
    if !is_single_component_str(value) {
        return Err(AgentSkillImportError::InvalidDirectoryName(value.to_owned()));
    }
    Ok(())
}

/// The profile and source directory an import reads from: the named
/// directory must be valid, the profile must exist (`profile`) and be
/// enabled, and the source is the directory inside its skill root.
pub fn import_source(request: &ImportAgentSkillRequest, profile: Option<AgentProfileRecord>) -> (r:
    Result<(AgentProfileRecord, String), AgentSkillImportError>)
    ensures
        !is_importable_name(request.directory_name@) ==> (r matches Err(
            AgentSkillImportError::InvalidDirectoryName(v),
        ) && v@ == request.directory_name@),
        is_importable_name(request.directory_name@) && profile is None ==> (r matches Err(
            AgentSkillImportError::ProfileNotFound(p),
        ) && p@ == request.agent_profile_id@),
        is_importable_name(request.directory_name@) && profile is Some && !profile->0.enabled
            ==> (r matches Err(AgentSkillImportError::ProfileDisabled(id)) && id@ == profile->0.id@),
        r matches Ok((p, source)) ==> profile == Some(p) && p.enabled && source@ == join_path(
            p.skill_root@,
            request.directory_name@,
        ) && is_direct_child(source@, p.skill_root@),
        is_importable_name(request.directory_name@) && profile is Some && profile->0.enabled
            && is_direct_child(
            join_path(profile->0.skill_root@, request.directory_name@),
            profile->0.skill_root@,
        ) ==> r is Ok,
{
    validate_directory_name(request.directory_name.as_str())?;
    let p = match profile {
        Some(p) => p,
        None => {
            return Err(AgentSkillImportError::ProfileNotFound(request.agent_profile_id.as_str().to_owned()));
        },
    };
    if !p.enabled {
        return Err(AgentSkillImportError::ProfileDisabled(p.id));
    }
    let source = join(p.skill_root.as_str(), request.directory_name.as_str());
    if !is_direct_child_of(source.as_str(), p.skill_root.as_str()) {
        return Err(
            AgentSkillImportError::InvalidDirectoryName(request.directory_name.as_str().to_owned()),
        );
    }
    Ok((p, source))
}

/// The source must exist (`stat` is its (is a link, is a directory) pair)
/// and be a real directory.
pub fn check_source(source: &str, stat: Option<(bool, bool)>) -> (r: Result<(), AgentSkillImportError>)
    ensures
        match stat {
            None => r matches Err(AgentSkillImportError::SourceNotFound(s)) && s@ == source@,
            Some((link, dir)) => if link || !dir {
                r matches Err(AgentSkillImportError::InvalidSource(s)) && s@ == source@
            } else {
                r is Ok
            },
        },
{
    match stat {
        None => Err(AgentSkillImportError::SourceNotFound(source.to_owned())),
        Some((link, dir)) => {
            if link || !dir {
                Err(AgentSkillImportError::InvalidSource(source.to_owned()))
            } else {
                Ok(())
            }
        },
    }
}

} // verus!
