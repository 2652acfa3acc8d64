//! Managed skill workspaces: one directory per skill inside the workspace
//! root, named by the SHA-256 of the skill id so that no logical id can
//! reach outside the root.
pub mod import;
pub mod zip;

use vstd::prelude::*;
use crate::digest::{hex_digit, hex_seq, push_hex, sha256_digest, spec_sha256};
use crate::paths::{child_rest, is_direct_child, is_plain_component, is_separator, join, join_path};
use crate::skill_snapshot::SnapshotError;
use crate::text::{is_blank, nat_text, str_utf8_len_exceeds, trim_seq, u64_text, utf8_len};
use vstd::utf8::encode_utf8;

verus! {

/// The largest initial `SKILL.md` a new workspace accepts, in bytes.
pub const MAX_INITIAL_SKILL_MD_BYTES: usize = 2097152;

/// The longest skill id a workspace accepts, in UTF-8 bytes.
pub const MAX_SKILL_ID_BYTES: usize = 512;

#[derive(Debug, Clone)]
pub struct WorkspaceStore {
    pub root: String,
}

#[derive(Debug, Clone, PartialEq, Eq)]
pub struct WorkspaceRef {
    pub skill_id: String,
    pub path: String,
}

#[derive(Debug)]
pub enum WorkspaceError {
    Io(String),
    Snapshot(SnapshotError),
    InvalidSkillId,
    InvalidWorkspaceRoot(String),
    InvalidWorkspace(String),
    AlreadyExists(String),
    IncompleteWorkspace(String),
    InitialSkillTooLarge { size: usize, limit: usize },
}

/// The text each error is reported with (paths are shown quoted); a
/// wrapped snapshot error has none of its own.
pub open spec fn workspace_error_text(e: WorkspaceError) -> Option<Seq<char>> {
    match e {
        WorkspaceError::Io(m) => Some("workspace filesystem error: "@ + m@),
        WorkspaceError::Snapshot(_) => None,
        WorkspaceError::InvalidSkillId => Some("invalid skill id"@),
        WorkspaceError::InvalidWorkspaceRoot(p) => Some(
            "invalid workspace root: \""@ + p@ + "\""@,
        ),
        WorkspaceError::InvalidWorkspace(p) => Some("invalid managed workspace: \""@ + p@ + "\""@),
        WorkspaceError::AlreadyExists(p) => Some(
            "managed workspace already exists: \""@ + p@ + "\""@,
        ),
        WorkspaceError::IncompleteWorkspace(p) => Some(
            "managed workspace is incomplete and contains unexpected files: \""@ + p@ + "\""@,
        ),
        WorkspaceError::InitialSkillTooLarge { size, limit } => Some(
            "initial SKILL.md has "@ + nat_text(size as nat) + " bytes, exceeding limit "@
                + nat_text(limit as nat),
        ),
    }
}

impl WorkspaceError {
    /// The error's text; `snapshot_text` is the text of a wrapped snapshot
    /// error.
    pub fn message(&self, snapshot_text: &str) -> (s: String)
        ensures
            workspace_error_text(*self) matches Some(t) ==> s@ == t,
            self is Snapshot ==> s@ == "snapshot materialization error: "@ + snapshot_text@,
    {
        match self {
            WorkspaceError::Io(m) => {
                let mut s = String::from_str("workspace filesystem error: ");
                s.append(m.as_str());
                s
            },
            WorkspaceError::Snapshot(_) => {
                let mut s = String::from_str("snapshot materialization error: ");
                s.append(snapshot_text);
                s
            },
            WorkspaceError::InvalidSkillId => String::from_str("invalid skill id"),
            WorkspaceError::InvalidWorkspaceRoot(p) => quoted("invalid workspace root: \"", p),
            WorkspaceError::InvalidWorkspace(p) => quoted("invalid managed workspace: \"", p),
            WorkspaceError::AlreadyExists(p) => quoted("managed workspace already exists: \"", p),
            WorkspaceError::IncompleteWorkspace(p) => quoted(
                "managed workspace is incomplete and contains unexpected files: \"",
                p,
            ),
            WorkspaceError::InitialSkillTooLarge { size, limit } => {
                let mut s = String::from_str("initial SKILL.md has ");
                s.append(u64_text(*size as u64).as_str());
                s.append(" bytes, exceeding limit ");
                s.append(u64_text(*limit as u64).as_str());
                s
            },
        }
    }
}

fn quoted(head: &str, p: &String) -> (s: String)
    ensures
        s@ == head@ + p@ + "\""@,
{
    let mut s = head.to_owned();
    s.append(p.as_str());
    s.append("\"");
    s
}

// ---------------------------------------------------------------------
// Skill ids and their directories.
/// A skill id a workspace can be made for: not blank, at most 512 bytes.
pub open spec fn is_valid_skill_id(s: Seq<char>) -> bool {
    trim_seq(s).len() > 0 && utf8_len(s) <= MAX_SKILL_ID_BYTES
}

pub fn validate_skill_id(skill_id: &str) -> (r: Result<(), WorkspaceError>)
    ensures
        r is Ok <==> is_valid_skill_id(skill_id@),
        r is Err ==> r matches Err(WorkspaceError::InvalidSkillId),
{
    if is_blank(skill_id) || str_utf8_len_exceeds(skill_id, MAX_SKILL_ID_BYTES as u64) {
        return Err(WorkspaceError::InvalidSkillId);
    }
    Ok(())
}

/// The directory name of a skill's workspace: the hex SHA-256 of the id's
/// UTF-8 bytes.
pub open spec fn workspace_dir_name(skill_id: Seq<char>) -> Seq<char> {
    hex_seq(spec_sha256(encode_utf8(skill_id)))
}

/// Where the workspace of `skill_id` lives under `root`.
pub open spec fn workspace_path(root: Seq<char>, skill_id: Seq<char>) -> Seq<char> {
    join_path(root, workspace_dir_name(skill_id))
}

impl WorkspaceStore {
    /// Opens the workspace root, as found on disk after it was created if
    /// it was missing (`is_real_dir`): a symbolic link or a file there is
    /// refused.
    pub fn open(root: &str, is_real_dir: bool) -> (r: Result<WorkspaceStore, WorkspaceError>)
        ensures
            r is Ok <==> is_real_dir,
            r matches Ok(w) ==> w.root@ == root@,
            r matches Err(e) ==> e matches WorkspaceError::InvalidWorkspaceRoot(p) && p@ == root@,
    {
        if !is_real_dir {
            return Err(WorkspaceError::InvalidWorkspaceRoot(root.to_owned()));
        }
        Ok(WorkspaceStore { root: root.to_owned() })
    }

    pub fn root(&self) -> (r: &str)
        ensures
            r@ == self.root@,
    {
        self.root.as_str()
    }

    /// Maps an arbitrary logical skill id to a fixed, traversal-free path
    /// inside the root.
    pub fn path_for_skill(&self, skill_id: &str) -> (r: Result<String, WorkspaceError>)
        ensures
            r is Ok <==> is_valid_skill_id(skill_id@),
            r is Err ==> r matches Err(WorkspaceError::InvalidSkillId),
            r matches Ok(p) ==> p@ == workspace_path(self.root@, skill_id@),
            self.root@.len() > 0 ==> (r matches Ok(p) ==> is_direct_child(p@, self.root@)),
    {
        validate_skill_id(skill_id)?;
        let digest = sha256_digest(skill_id.as_bytes());
        let mut name = String::new();
        push_hex(&mut name, digest.as_slice());
        assert(name@ =~= workspace_dir_name(skill_id@));
        proof {
            if self.root@.len() > 0 {
                lemma_workspace_stays_in_root(self.root@, skill_id@);
            }
        }
        Ok(join(self.root.as_str(), name.as_str()))
    }

    /// Checks a new workspace request and names its directory: a valid id
    /// and an initial `SKILL.md` of at most 2 MiB.
    pub fn create_target(&self, skill_id: &str, initial_skill_md: &str) -> (r: Result<
        String,
        WorkspaceError,
    >)
        ensures
            !is_valid_skill_id(skill_id@) ==> r matches Err(WorkspaceError::InvalidSkillId),
            is_valid_skill_id(skill_id@) && utf8_len(initial_skill_md@)
                > MAX_INITIAL_SKILL_MD_BYTES ==> (r matches Err(
                WorkspaceError::InitialSkillTooLarge { size, limit },
            ) && size == utf8_len(initial_skill_md@) as usize && limit
                == MAX_INITIAL_SKILL_MD_BYTES),
            is_valid_skill_id(skill_id@) && utf8_len(initial_skill_md@)
                <= MAX_INITIAL_SKILL_MD_BYTES ==> (r matches Ok(p) && p@ == workspace_path(
                self.root@,
                skill_id@,
            )),
    {
        validate_skill_id(skill_id)?;
        if str_utf8_len_exceeds(initial_skill_md, MAX_INITIAL_SKILL_MD_BYTES as u64) {
            proof {
                crate::text::lemma_encode_utf8_len(initial_skill_md@);
            }
            return Err(
                WorkspaceError::InitialSkillTooLarge {
                    size: initial_skill_md.len(),
                    limit: MAX_INITIAL_SKILL_MD_BYTES,
                },
            );
        }
        self.path_for_skill(skill_id)
    }

    /// The directory a snapshot is imported into; it must not exist yet
    /// (`exists`).
    pub fn import_target(&self, skill_id: &str, exists: bool) -> (r: Result<String, WorkspaceError>)
        ensures
            !is_valid_skill_id(skill_id@) ==> r matches Err(WorkspaceError::InvalidSkillId),
            is_valid_skill_id(skill_id@) && exists ==> (r matches Err(
                WorkspaceError::AlreadyExists(p),
            ) && p@ == workspace_path(self.root@, skill_id@)),
            is_valid_skill_id(skill_id@) && !exists ==> (r matches Ok(p) && p@ == workspace_path(
                self.root@,
                skill_id@,
            )),
    {
        let path = self.path_for_skill(skill_id)?;
        if exists {
            return Err(WorkspaceError::AlreadyExists(path));
        }
        Ok(path)
    }
}

/// What is found at a workspace path.
#[derive(Debug, Clone, Copy, PartialEq, Eq, Structural)]
pub struct ExistingEntry {
    /// A directory, not a symbolic link.
    pub is_real_dir: bool,
    /// `SKILL.md` exists inside it.
    pub has_entrypoint: bool,
    /// It holds no entry at all.
    pub is_empty: bool,
}

/// Whether creating a workspace at `path` first creates the directory
/// (`Ok(true)`) or reuses an existing empty one (`Ok(false)`). An entry
/// that is not a real directory, one that already has a `SKILL.md`, and one
/// that holds other files are refused.
pub fn create_decision(path: &str, existing: Option<ExistingEntry>) -> (r: Result<bool, WorkspaceError>)
    ensures
        match existing {
            None => r == Ok::<bool, WorkspaceError>(true),
            Some(e) => if !e.is_real_dir {
                r matches Err(WorkspaceError::InvalidWorkspace(p)) && p@ == path@
            } else if e.has_entrypoint {
                r matches Err(WorkspaceError::AlreadyExists(p)) && p@ == path@
            } else if !e.is_empty {
                r matches Err(WorkspaceError::IncompleteWorkspace(p)) && p@ == path@
            } else {
                r == Ok::<bool, WorkspaceError>(false)
            },
        },
{
    match existing {
        None => Ok(true),
        Some(e) => {
            if !e.is_real_dir {
                Err(WorkspaceError::InvalidWorkspace(path.to_owned()))
            } else if e.has_entrypoint {
                Err(WorkspaceError::AlreadyExists(path.to_owned()))
            } else if !e.is_empty {
                Err(WorkspaceError::IncompleteWorkspace(path.to_owned()))
            } else {
                Ok(false)
            }
        },
    }
}

/// The workspace found at `path` for `skill_id`, if any: `existing` tells
/// whether an entry exists and whether it is a real directory.
pub fn found_workspace(skill_id: &str, path: String, existing: Option<bool>) -> (r: Result<
    Option<WorkspaceRef>,
    WorkspaceError,
>)
    ensures
        match existing {
            None => r matches Ok(None),
            Some(false) => r matches Err(WorkspaceError::InvalidWorkspace(p)) && p@ == path@,
            Some(true) => r matches Ok(Some(w)) && w.skill_id@ == skill_id@ && w.path@ == path@,
        },
{
    match existing {
        None => Ok(None),
        Some(false) => Err(WorkspaceError::InvalidWorkspace(path)),
        Some(true) => Ok(Some(WorkspaceRef { skill_id: skill_id.to_owned(), path })),
    }
}

/// The name of the temporary file a new file is written through before it
/// is renamed into place: `.skillhive-create-<fresh id>.tmp`.
pub fn temporary_file_name() -> (n: String)
    ensures
        n@.len() > 0,
        exists|id: Seq<char>|
            crate::ids::is_token_text(id) && n@ == ".skillhive-create-"@ + id + ".tmp"@,
{
    let mut n = String::from_str(".skillhive-create-");
    let id = crate::ids::new_uuid_v4();
    n.append(id.as_str());
    n.append(".tmp");
    proof {
        reveal_strlit(".skillhive-create-");
        assert(n@ == ".skillhive-create-"@ + id@ + ".tmp"@);
    }
    n
}

proof fn lemma_hex_is_plain(bytes: Seq<u8>)
    requires
        bytes.len() > 0,
    ensures
        is_plain_component(hex_seq(bytes)),
{
    let h = hex_seq(bytes);
    assert forall|i: int| 0 <= i < h.len() implies !is_separator(#[trigger] h[i]) by {
        let v = if i % 2 == 0 {
            bytes[i / 2] as int / 16
        } else {
            bytes[i / 2] as int % 16
        };
        assert(0 <= v < 16);
        assert(h[i] == hex_digit(v));
    }
    assert(h.len() >= 2);
    assert(h != seq!['.']);
    if h == seq!['.', '.'] {
        assert(h[0] == '.');
        assert(h[0] == hex_digit(bytes[0] as int / 16));
    }
}

/// No skill id leads outside the workspace root: every workspace is a
/// direct child of the root.
pub proof fn lemma_workspace_stays_in_root(root: Seq<char>, skill_id: Seq<char>)
    requires
        root.len() > 0,
        spec_sha256(encode_utf8(skill_id)).len() > 0,
    ensures
        is_direct_child(workspace_path(root, skill_id), root),
{
    let name = workspace_dir_name(skill_id);
    lemma_hex_is_plain(spec_sha256(encode_utf8(skill_id)));
    let p = workspace_path(root, skill_id);
    if is_separator(root.last()) {
        assert(p.take(root.len() as int) =~= root);
        assert(child_rest(p, root) =~= name);
    } else {
        assert(p.take(root.len() as int) =~= root);
        assert(child_rest(p, root) =~= name);
    }
}

} // verus!
