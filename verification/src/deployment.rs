//! Transactional deployment of immutable snapshots into an agent's skill
//! directory, with a durable journal and crash recovery.
//!
//! A deployment stages the snapshot next to its destination, verifies it,
//! moves any existing target aside as a backup, activates the staged copy,
//! verifies it again, and only then drops the backup. The journal records
//! the phase reached. Recovery decides, from the journal's phase and from
//! which of destination, staging and backup exist, what to do: roll forward
//! only through a verification of the candidate, and fall back to the
//! known-good backup whenever one exists and the candidate cannot be proven.
use vstd::prelude::*;
use crate::paths::{is_absolute, is_absolute_path, is_direct_child, is_direct_child_of, join, join_path};
use crate::portable::{has_forbidden_chars, has_forbidden_chars_exec, has_reserved_stem, has_reserved_stem_exec};
use crate::skill_snapshot::{SkillSnapshotRef, SnapshotError};
use crate::snapshot_verifier::SnapshotVerificationError;
use crate::text::{
    chars_of, is_ascii_alphanumeric, is_blank, split_slash, split_slash_chars, trim_seq,
};

verus! {

/// Names beginning with this prefix belong to the engine (staging and
/// backup directories) and cannot be deployment targets.
pub const RESERVED_PREFIX: &'static str = ".skillhive-";

pub open spec fn reserved_prefix_seq() -> Seq<char> {
    seq!['.', 's', 'k', 'i', 'l', 'l', 'h', 'i', 'v', 'e', '-']
}

pub open spec fn stage_infix() -> Seq<char> {
    reserved_prefix_seq() + seq!['s', 't', 'a', 'g', 'e', '-']
}

pub open spec fn backup_infix() -> Seq<char> {
    reserved_prefix_seq() + seq!['b', 'a', 'c', 'k', 'u', 'p', '-']
}

pub open spec fn journal_suffix() -> Seq<char> {
    seq!['.', 'j', 'o', 'u', 'r', 'n', 'a', 'l']
}

#[derive(Debug, Clone)]
pub struct DeploymentEngine {
    pub journal_root: String,
}

#[derive(Debug, Clone)]
pub struct DeploymentRequest {
    pub skill_id: String,
    pub agent_profile_id: String,
    pub snapshot_hash: String,
    pub skill_root: String,
    pub directory_name: String,
}

#[derive(Debug, Clone, PartialEq, Eq)]
pub struct DeploymentResult {
    pub transaction_id: String,
    pub skill_id: String,
    pub agent_profile_id: String,
    pub target_path: String,
    pub snapshot_hash: String,
    pub replaced_existing: bool,
}

/// How far a deployment got before its journal was last written.
#[derive(Debug, Clone, Copy, PartialEq, Eq, Structural)]
pub enum DeploymentPhase {
    /// The journal exists; nothing has been staged yet.
    Intent,
    /// The snapshot is staged and verified.
    Prepared,
    /// The previous target was moved to the backup path.
    OldMoved,
    /// The staged snapshot is the active target.
    Activated,
}

/// The durable record of one deployment transaction.
#[derive(Debug, Clone)]
pub struct DeploymentJournal {
    pub transaction_id: String,
    pub skill_id: String,
    pub agent_profile_id: String,
    pub snapshot_hash: String,
    pub skill_root: String,
    pub destination: String,
    pub staging: String,
    pub backup: String,
    pub replaced_existing: bool,
    pub phase: DeploymentPhase,
}

#[derive(Debug, Clone, PartialEq, Eq)]
pub struct RecoveryReport {
    pub recovered: usize,
    pub rolled_back: usize,
    pub catalog_commits: Vec<DeploymentResult>,
    pub failed: Vec<String>,
}

/// How one interrupted transaction ended.
#[derive(Debug, Clone, PartialEq, Eq)]
pub enum RecoveryOutcome {
    Committed(DeploymentResult),
    RolledBack,
}

#[derive(Debug)]
pub enum DeploymentError {
    Io(String),
    Snapshot(SnapshotError),
    Verification(SnapshotVerificationError),
    JournalSerialization(String),
    InvalidRequest(String),
    InvalidTransactionId(String),
    CatalogAckRejected(String),
    InvalidDirectoryName(String),
    InvalidSkillRoot(String),
    UnsupportedFileType(String),
    InvalidJournal(String),
    UnrecoverableTransaction { transaction_id: String, reason: String },
}

// ---------------------------------------------------------------------
// Names and requests.
pub open spec fn starts_with(s: Seq<char>, p: Seq<char>) -> bool {
    p.len() <= s.len() && s.take(p.len() as int) == p
}

/// `Path::new(s)` has exactly one component and it is a plain name: the
/// first `/`-separated part is a name other than `.` and `..`, and every
/// later part is empty or `.` (which `Path` drops).
pub open spec fn is_single_component(s: Seq<char>) -> bool {
    let parts = split_slash(s);
    &&& s.len() > 0
    &&& s[0] != '/'
    &&& parts[0] != seq!['.']
    &&& parts[0] != seq!['.', '.']
    &&& forall|i: int|
        1 <= i < parts.len() ==> (#[trigger] parts[i]).len() == 0 || parts[i] == seq!['.']
}

/// A name an agent skill may be deployed under.
pub open spec fn is_valid_directory_name(s: Seq<char>) -> bool {
    &&& !starts_with(s, reserved_prefix_seq())
    &&& !(s.len() > 0 && (s.last() == '.' || s.last() == ' '))
    &&& !has_forbidden_chars(s)
    &&& is_single_component(s)
    &&& !has_reserved_stem(s)
}

/// A transaction identifier: non-empty, ASCII letters, digits and `-`.
pub open spec fn is_valid_transaction_id(s: Seq<char>) -> bool {
    crate::ids::is_token_text(s)
}

pub fn starts_with_str(s: &str, p: &str) -> (b: bool)
    ensures
        b == starts_with(s@, p@),
{
    let v = chars_of(s);
    let w = chars_of(p);
    crate::text::starts_with_chars(v.as_slice(), w.as_slice())
}

proof fn lemma_reserved_prefix()
    ensures
        RESERVED_PREFIX@ == reserved_prefix_seq(),
{
    reveal_strlit(".skillhive-");
    assert(RESERVED_PREFIX@ =~= reserved_prefix_seq());
}

/// Whether `s` is exactly one plain path component.
pub fn is_single_component_text(s: &str) -> (b: bool)
    ensures
        b == is_single_component(s@),
{
    let v = chars_of(s);
    is_single_component_chars(v.as_slice())
}

fn is_single_component_chars(v: &[char]) -> (b: bool)
    ensures
        b == is_single_component(v@),
{
    if v.len() == 0 || v[0] == '/' {
        return false;
    }
    let parts = split_slash_chars(v);
    proof {
        crate::text::lemma_split_slash_nonempty(v@);
    }
    let first = &parts[0];
    if (first.len() == 1 && first[0] == '.') || (first.len() == 2 && first[0] == '.' && first[1]
        == '.') {
        proof {
            if first@.len() == 1 {
                assert(first@ =~= seq!['.']);
            } else {
                assert(first@ =~= seq!['.', '.']);
            }
        }
        return false;
    }
    assert(first@ != seq!['.']) by {
        if first@ == seq!['.'] {
            assert(first@[0] == '.');
        }
    }
    assert(first@ != seq!['.', '.']) by {
        if first@ == seq!['.', '.'] {
            assert(first@[0] == '.' && first@[1] == '.');
        }
    }
    let mut i: usize = 1;
    while i < parts.len()
        invariant
            1 <= i <= parts@.len(),
            parts@.len() == split_slash(v@).len(),
            forall|k: int| 0 <= k < parts@.len() ==> #[trigger] parts@[k]@ == split_slash(v@)[k],
            forall|k: int|
                1 <= k < i ==> (#[trigger] split_slash(v@)[k]).len() == 0 || split_slash(v@)[k]
                    == seq!['.'],
        decreases parts@.len() - i,
    {
        let p = &parts[i];
        if !(p.len() == 0 || (p.len() == 1 && p[0] == '.')) {
            assert(p@ == split_slash(v@)[i as int]);
            assert(split_slash(v@)[i as int] != seq!['.']) by {
                if split_slash(v@)[i as int] == seq!['.'] {
                    assert(p@[0] == '.');
                }
            }
            return false;
        }
        proof {
            assert(p@ == split_slash(v@)[i as int]);
            if p@.len() == 1 {
                assert(p@ =~= seq!['.']);
            }
        }
        i = i + 1;
    }
    true
}

/// Rejects names that cannot be deployment targets: the engine's reserved
/// prefix, a trailing dot or space, control or reserved characters,
/// anything but one plain path component, and reserved device names.
pub fn validate_directory_name(name: &str) -> (r: Result<(), DeploymentError>)
    ensures
        r is Ok <==> is_valid_directory_name(name@),
        r matches Err(e) ==> e matches DeploymentError::InvalidDirectoryName(n) && n@ == name@,
{
    let v = chars_of(name);
    let n = v.len();
    proof {
        lemma_reserved_prefix();
    }
    if starts_with_str(name, RESERVED_PREFIX) || (n > 0 && (v[n - 1] == '.' || v[n - 1] == ' '))
        || has_forbidden_chars_exec(v.as_slice()) {
        return Err(DeploymentError::InvalidDirectoryName(name.to_owned()));
    }
    if !is_single_component_chars(v.as_slice()) {
        return Err(DeploymentError::InvalidDirectoryName(name.to_owned()));
    }
    if has_reserved_stem_exec(v.as_slice()) {
        return Err(DeploymentError::InvalidDirectoryName(name.to_owned()));
    }
    Ok(())
}

/// Accepts a non-empty identifier of ASCII letters, digits and `-`.
pub fn validate_transaction_id(value: &str) -> (r: Result<(), DeploymentError>)
    ensures
        r is Ok <==> is_valid_transaction_id(value@),
        r matches Err(e) ==> e matches DeploymentError::InvalidTransactionId(v) && v@ == value@,
{
    let v = chars_of(value);
    if v.len() == 0 {
        return Err(DeploymentError::InvalidTransactionId(value.to_owned()));
    }
    let mut i: usize = 0;
    while i < v.len()
        invariant
            i <= v@.len(),
            v@ == value@,
            forall|k: int| 0 <= k < i ==> is_ascii_alphanumeric(#[trigger] v@[k]) || v@[k] == '-',
        decreases v@.len() - i,
    {
        let c = v[i];
        let ok = ('a' <= c && c <= 'z') || ('A' <= c && c <= 'Z') || ('0' <= c && c <= '9') || c
            == '-';
        if !ok {
            assert(!(is_ascii_alphanumeric(v@[i as int]) || v@[i as int] == '-'));
            return Err(DeploymentError::InvalidTransactionId(value.to_owned()));
        }
        i = i + 1;
    }
    Ok(())
}

/// Which required request field is blank, in the order they are checked.
pub open spec fn blank_field(request: DeploymentRequest) -> Option<Seq<char>> {
    if trim_seq(request.skill_id@).len() == 0 {
        Some("skill_id must not be empty"@)
    } else if trim_seq(request.agent_profile_id@).len() == 0 {
        Some("agent_profile_id must not be empty"@)
    } else if trim_seq(request.snapshot_hash@).len() == 0 {
        Some("snapshot_hash must not be empty"@)
    } else if trim_seq(request.directory_name@).len() == 0 {
        Some("directory_name must not be empty"@)
    } else {
        None
    }
}

/// The outcome of checking a request: the first blank field, then the
/// directory name, then the skill root.
pub open spec fn request_check(request: DeploymentRequest, r: Result<(), DeploymentError>) -> bool {
    match blank_field(request) {
        Some(m) => r matches Err(DeploymentError::InvalidRequest(msg)) && msg@ == m,
        None => if !is_valid_directory_name(request.directory_name@) {
            r matches Err(DeploymentError::InvalidDirectoryName(n)) && n@ == request.directory_name@
        } else if !is_absolute_path(request.skill_root@) {
            r matches Err(DeploymentError::InvalidRequest(msg)) && msg@
                == "skill_root must be an absolute UTF-8 path"@
        } else {
            r is Ok
        },
    }
}

/// A directory the engine works in (its journal root, or a skill root),
/// as found on disk after it was created if it was missing: it must be a
/// real directory, not a symbolic link or a file.
pub fn check_directory_root(path: &str, is_real_dir: bool) -> (r: Result<(), DeploymentError>)
    ensures
        r is Ok <==> is_real_dir,
        r matches Err(e) ==> e matches DeploymentError::InvalidSkillRoot(p) && p@ == path@,
{
    if !is_real_dir {
        return Err(DeploymentError::InvalidSkillRoot(path.to_owned()));
    }
    Ok(())
}

/// Checks a deployment request: no blank identifier (reported by field, in
/// order), a valid directory name, and an absolute skill root.
pub fn validate_request(request: &DeploymentRequest) -> (r: Result<(), DeploymentError>)
    ensures
        request_check(*request, r),
{
    if is_blank(request.skill_id.as_str()) {
        return Err(DeploymentError::InvalidRequest(String::from_str("skill_id must not be empty")));
    }
    if is_blank(request.agent_profile_id.as_str()) {
        return Err(
            DeploymentError::InvalidRequest(String::from_str("agent_profile_id must not be empty")),
        );
    }
    if is_blank(request.snapshot_hash.as_str()) {
        return Err(
            DeploymentError::InvalidRequest(String::from_str("snapshot_hash must not be empty")),
        );
    }
    if is_blank(request.directory_name.as_str()) {
        return Err(
            DeploymentError::InvalidRequest(String::from_str("directory_name must not be empty")),
        );
    }
    validate_directory_name(request.directory_name.as_str())?;
    if !is_absolute(request.skill_root.as_str()) {
        return Err(
            DeploymentError::InvalidRequest(
                String::from_str("skill_root must be an absolute UTF-8 path"),
            ),
        );
    }
    Ok(())
}

// ---------------------------------------------------------------------
// Journals.
/// The destination, staging and backup paths are entries directly inside
/// the journal's absolute skill root.
pub open spec fn journal_paths_valid(j: DeploymentJournal) -> bool {
    &&& is_absolute_path(j.skill_root@)
    &&& is_direct_child(j.destination@, j.skill_root@)
    &&& is_direct_child(j.staging@, j.skill_root@)
    &&& is_direct_child(j.backup@, j.skill_root@)
}

/// Refuses a journal whose paths could lead outside its skill root.
pub fn validate_journal_paths(journal: &DeploymentJournal) -> (r: Result<(), DeploymentError>)
    ensures
        r is Ok <==> journal_paths_valid(*journal),
        r is Err ==> r matches Err(DeploymentError::InvalidJournal(_)),
{
    if !is_absolute(journal.skill_root.as_str()) {
        let mut msg = String::from_str("transaction ");
        msg.append(journal.transaction_id.as_str());
        msg.append(" contains a relative skill root");
        return Err(DeploymentError::InvalidJournal(msg));
    }
    if !is_direct_child_of(journal.destination.as_str(), journal.skill_root.as_str())
        || !is_direct_child_of(journal.staging.as_str(), journal.skill_root.as_str())
        || !is_direct_child_of(journal.backup.as_str(), journal.skill_root.as_str()) {
        let mut msg = String::from_str("transaction ");
        msg.append(journal.transaction_id.as_str());
        msg.append(" contains a path outside its skill root");
        return Err(DeploymentError::InvalidJournal(msg));
    }
    Ok(())
}

/// The result a journal reports once its transaction is committed.
pub open spec fn journal_result(j: DeploymentJournal, r: DeploymentResult) -> bool {
    &&& r.transaction_id@ == j.transaction_id@
    &&& r.skill_id@ == j.skill_id@
    &&& r.agent_profile_id@ == j.agent_profile_id@
    &&& r.target_path@ == j.destination@
    &&& r.snapshot_hash@ == j.snapshot_hash@
    &&& r.replaced_existing == j.replaced_existing
}

/// The same journal at another phase.
pub open spec fn same_transaction(a: DeploymentJournal, b: DeploymentJournal) -> bool {
    &&& a.transaction_id@ == b.transaction_id@
    &&& a.skill_id@ == b.skill_id@
    &&& a.agent_profile_id@ == b.agent_profile_id@
    &&& a.snapshot_hash@ == b.snapshot_hash@
    &&& a.skill_root@ == b.skill_root@
    &&& a.destination@ == b.destination@
    &&& a.staging@ == b.staging@
    &&& a.backup@ == b.backup@
    &&& a.replaced_existing == b.replaced_existing
}

fn copy_string(s: &String) -> (r: String)
    ensures
        r@ == s@,
{
    s.clone()
}

impl DeploymentJournal {
    pub fn result(&self) -> (r: DeploymentResult)
        ensures
            journal_result(*self, r),
    {
        DeploymentResult {
            transaction_id: copy_string(&self.transaction_id),
            skill_id: copy_string(&self.skill_id),
            agent_profile_id: copy_string(&self.agent_profile_id),
            target_path: copy_string(&self.destination),
            snapshot_hash: copy_string(&self.snapshot_hash),
            replaced_existing: self.replaced_existing,
        }
    }

    /// This journal advanced to `phase`.
    pub fn with_phase(&self, phase: DeploymentPhase) -> (j: DeploymentJournal)
        ensures
            same_transaction(*self, j),
            j.phase == phase,
    {
        DeploymentJournal {
            transaction_id: copy_string(&self.transaction_id),
            skill_id: copy_string(&self.skill_id),
            agent_profile_id: copy_string(&self.agent_profile_id),
            snapshot_hash: copy_string(&self.snapshot_hash),
            skill_root: copy_string(&self.skill_root),
            destination: copy_string(&self.destination),
            staging: copy_string(&self.staging),
            backup: copy_string(&self.backup),
            replaced_existing: self.replaced_existing,
            phase,
        }
    }
}

impl DeploymentEngine {
    /// Opens the engine on its journal directory, as found on disk after it
    /// was created if it was missing (`is_real_dir`): a symbolic link or a
    /// file there is refused.
    pub fn open(journal_root: &str, is_real_dir: bool) -> (r: Result<DeploymentEngine, DeploymentError>)
        ensures
            r is Ok <==> is_real_dir,
            r matches Ok(e) ==> e.journal_root@ == journal_root@,
            r matches Err(e) ==> e matches DeploymentError::InvalidSkillRoot(p) && p@ == journal_root@,
    {
        check_directory_root(journal_root, is_real_dir)?;
        Ok(DeploymentEngine { journal_root: journal_root.to_owned() })
    }

    pub fn journal_root(&self) -> (r: &str)
        ensures
            r@ == self.journal_root@,
    {
        self.journal_root.as_str()
    }

    /// `<journal root>/<transaction id>.journal`.
    pub fn journal_path(&self, transaction_id: &str) -> (p: String)
        ensures
            p@ == join_path(self.journal_root@, transaction_id@ + journal_suffix()),
    {
        let mut name = transaction_id.to_owned();
        name.append(".journal");
        proof {
            reveal_strlit(".journal");
            assert(".journal"@ =~= journal_suffix());
        }
        join(self.journal_root.as_str(), name.as_str())
    }

    /// The path a request deploys to: its directory name inside its skill
    /// root.
    pub fn destination_for(request: &DeploymentRequest) -> (p: String)
        ensures
            p@ == join_path(request.skill_root@, request.directory_name@),
    {
        join(request.skill_root.as_str(), request.directory_name.as_str())
    }

    /// The intent journal of a new deployment under `transaction_id`:
    /// staging and backup are reserved names inside the skill root.
    pub fn deployment_journal(
        request: &DeploymentRequest,
        transaction_id: &str,
        replaced_existing: bool,
    ) -> (j: DeploymentJournal)
        ensures
            j.transaction_id@ == transaction_id@,
            j.skill_id@ == request.skill_id@,
            j.agent_profile_id@ == request.agent_profile_id@,
            j.snapshot_hash@ == request.snapshot_hash@,
            j.skill_root@ == request.skill_root@,
            j.destination@ == join_path(request.skill_root@, request.directory_name@),
            j.staging@ == join_path(request.skill_root@, stage_infix() + transaction_id@),
            j.backup@ == join_path(request.skill_root@, backup_infix() + transaction_id@),
            j.replaced_existing == replaced_existing,
            j.phase == DeploymentPhase::Intent,
    {
        let mut stage = String::from_str(".skillhive-stage-");
        stage.append(transaction_id);
        let mut backup = String::from_str(".skillhive-backup-");
        backup.append(transaction_id);
        proof {
            reveal_strlit(".skillhive-stage-");
            reveal_strlit(".skillhive-backup-");
            assert(".skillhive-stage-"@ =~= stage_infix());
            assert(".skillhive-backup-"@ =~= backup_infix());
        }
        DeploymentJournal {
            transaction_id: transaction_id.to_owned(),
            skill_id: copy_string(&request.skill_id),
            agent_profile_id: copy_string(&request.agent_profile_id),
            snapshot_hash: copy_string(&request.snapshot_hash),
            skill_root: copy_string(&request.skill_root),
            destination: Self::destination_for(request),
            staging: join(request.skill_root.as_str(), stage.as_str()),
            backup: join(request.skill_root.as_str(), backup.as_str()),
            replaced_existing,
            phase: DeploymentPhase::Intent,
        }
    }

    /// Starts a deployment: checks the request and opens an intent journal
    /// under a fresh transaction identifier. `replaced_existing` tells
    /// whether the destination already exists.
    pub fn begin_deploy(&self, request: &DeploymentRequest, replaced_existing: bool) -> (r: Result<
        DeploymentJournal,
        DeploymentError,
    >)
        ensures
            request_check(
                *request,
                match r {
                    Ok(_) => Ok(()),
                    Err(e) => Err(e),
                },
            ),
            r matches Ok(j) ==> is_valid_transaction_id(j.transaction_id@) && j.skill_id@
                == request.skill_id@ && j.agent_profile_id@ == request.agent_profile_id@
                && j.snapshot_hash@ == request.snapshot_hash@ && j.skill_root@
                == request.skill_root@ && j.destination@ == join_path(
                request.skill_root@,
                request.directory_name@,
            ) && j.staging@ == join_path(request.skill_root@, stage_infix() + j.transaction_id@)
                && j.backup@ == join_path(request.skill_root@, backup_infix() + j.transaction_id@)
                && j.replaced_existing == replaced_existing && j.phase == DeploymentPhase::Intent,
    {
        validate_request(request)?;
        let transaction_id = crate::ids::new_uuid_v4();
        Ok(Self::deployment_journal(request, transaction_id.as_str(), replaced_existing))
    }
}

// ---------------------------------------------------------------------
// Recovery.
/// What recovery does with one interrupted transaction.
#[derive(Debug, Clone, Copy, PartialEq, Eq, Structural)]
pub enum RecoveryPlan {
    /// Remove the staged copy when `remove_staging`, then drop the journal:
    /// rolled back, nothing was activated.
    Discard { remove_staging: bool },
    /// Verify the staged copy; activate it only if it verifies, otherwise
    /// restore the backup.
    ActivateVerifiedStaging,
    /// Verify the active target; keep it only if it verifies, otherwise
    /// restore the backup when there is one.
    VerifyActiveOrRestoreBackup,
    /// Verify the active target of a new install; keep it if it verifies,
    /// otherwise remove it.
    VerifyActiveWithoutBackup,
    /// Move the backup back into place and drop the journal: rolled back.
    RestoreBackup,
}

/// The recovery decision for a journal at `phase`, from which of
/// destination (`d`), staging (`s`) and backup (`b`) exist; `None` when the
/// combination cannot have been produced by a deployment and the
/// transaction is unrecoverable.
pub open spec fn recovery_plan(
    phase: DeploymentPhase,
    replaced_existing: bool,
    d: bool,
    s: bool,
    b: bool,
) -> Option<RecoveryPlan> {
    match phase {
        DeploymentPhase::Intent => if b {
            None
        } else {
            Some(RecoveryPlan::Discard { remove_staging: s })
        },
        DeploymentPhase::Prepared => if replaced_existing {
            if d && s && !b {
                Some(RecoveryPlan::Discard { remove_staging: true })
            } else if !d && s && b {
                Some(RecoveryPlan::ActivateVerifiedStaging)
            } else if d && !s && b {
                Some(RecoveryPlan::VerifyActiveOrRestoreBackup)
            } else if !d && !s && b {
                Some(RecoveryPlan::RestoreBackup)
            } else {
                None
            }
        } else {
            if !d && s && !b {
                Some(RecoveryPlan::Discard { remove_staging: true })
            } else if d && !s && !b {
                Some(RecoveryPlan::VerifyActiveWithoutBackup)
            } else {
                None
            }
        },
        DeploymentPhase::OldMoved => if !d && s && b {
            Some(RecoveryPlan::ActivateVerifiedStaging)
        } else if d && !s && b {
            Some(RecoveryPlan::VerifyActiveOrRestoreBackup)
        } else if !d && !s && b {
            Some(RecoveryPlan::RestoreBackup)
        } else {
            None
        },
        DeploymentPhase::Activated => if !d {
            if b {
                Some(RecoveryPlan::RestoreBackup)
            } else {
                None
            }
        } else if s {
            None
        } else {
            Some(RecoveryPlan::VerifyActiveOrRestoreBackup)
        },
    }
}

/// The plan keeps a known-good backup: it never discards one, and every
/// plan taken while a backup exists either restores it or verifies the
/// candidate before anything else.
pub open spec fn keeps_backup(p: RecoveryPlan) -> bool {
    p is ActivateVerifiedStaging || p is VerifyActiveOrRestoreBackup || p is RestoreBackup
}

/// Recovery never throws a backup away without a verified candidate: with
/// a backup present, every plan either restores it or goes through a
/// verification whose failure restores it.
pub proof fn lemma_recovery_keeps_backup(
    phase: DeploymentPhase,
    replaced_existing: bool,
    d: bool,
    s: bool,
)
    ensures
        recovery_plan(phase, replaced_existing, d, s, true) matches Some(p) ==> keeps_backup(p),
{
}

/// A transaction that never staged anything, or whose new install was
/// staged but not activated, is rolled back without any verification.
pub proof fn lemma_unactivated_new_install_rolls_back(s: bool)
    ensures
        recovery_plan(DeploymentPhase::Intent, false, false, s, false) == Some(
            RecoveryPlan::Discard { remove_staging: s },
        ),
        recovery_plan(DeploymentPhase::Prepared, false, false, true, false) == Some(
            RecoveryPlan::Discard { remove_staging: true },
        ),
{
}

/// An activated target that is still in place is never thrown away
/// unverified: with the destination present and the staging gone, recovery
/// verifies it (restoring the backup only if that verification fails),
/// whether or not a backup exists. The backup is restored directly only
/// when the destination is missing, and staging is only activated when it
/// exists and the destination does not.
pub proof fn lemma_activated_target_is_verified_before_rollback(
    journal: DeploymentJournal,
    d: bool,
    s: bool,
    b: bool,
    r: Result<RecoveryPlan, DeploymentError>,
)
    requires
        recovery_check(journal, d, s, b, r),
    ensures
        journal_paths_valid(journal) && journal.phase == DeploymentPhase::Activated && d && !s ==> r
            == Ok::<RecoveryPlan, DeploymentError>(RecoveryPlan::VerifyActiveOrRestoreBackup),
        r == Ok::<RecoveryPlan, DeploymentError>(RecoveryPlan::RestoreBackup) ==> !d && b,
        r == Ok::<RecoveryPlan, DeploymentError>(RecoveryPlan::ActivateVerifiedStaging) ==> s && !d,
{
}

fn unrecoverable(journal: &DeploymentJournal, reason: &str) -> (e: DeploymentError)
    ensures
        e matches DeploymentError::UnrecoverableTransaction { transaction_id, reason: r }
            && transaction_id@ == journal.transaction_id@ && r@ == reason@,
{
    DeploymentError::UnrecoverableTransaction {
        transaction_id: copy_string(&journal.transaction_id),
        reason: reason.to_owned(),
    }
}

/// How a recovery report names a boolean.
pub open spec fn bool_name(b: bool) -> Seq<char> {
    if b {
        "true"@
    } else {
        "false"@
    }
}

/// How a recovery report names a journal phase: the variant's name.
pub open spec fn phase_name(p: DeploymentPhase) -> Seq<char> {
    match p {
        DeploymentPhase::Intent => "Intent"@,
        DeploymentPhase::Prepared => "Prepared"@,
        DeploymentPhase::OldMoved => "OldMoved"@,
        DeploymentPhase::Activated => "Activated"@,
    }
}

fn bool_text(b: bool) -> (s: &'static str)
    ensures
        s@ == bool_name(b),
{
    if b {
        "true"
    } else {
        "false"
    }
}

fn phase_text(p: DeploymentPhase) -> (s: &'static str)
    ensures
        s@ == phase_name(p),
{
    match p {
        DeploymentPhase::Intent => "Intent",
        DeploymentPhase::Prepared => "Prepared",
        DeploymentPhase::OldMoved => "OldMoved",
        DeploymentPhase::Activated => "Activated",
    }
}

/// The decision for a journal whose transaction was interrupted, once the
/// existence of its destination, staging and backup paths is known.
pub open spec fn recovery_check(
    journal: DeploymentJournal,
    d: bool,
    s: bool,
    b: bool,
    r: Result<RecoveryPlan, DeploymentError>,
) -> bool {
    if !journal_paths_valid(journal) {
        r matches Err(DeploymentError::InvalidJournal(_))
    } else {
        match recovery_plan(journal.phase, journal.replaced_existing, d, s, b) {
            Some(p) => r == Ok::<RecoveryPlan, DeploymentError>(p),
            None => r matches Err(DeploymentError::UnrecoverableTransaction { transaction_id, .. })
                && transaction_id@ == journal.transaction_id@,
        }
    }
}

/// How a verification of the staged copy is acted on.
#[derive(Debug, Clone, Copy, PartialEq, Eq, Structural)]
pub enum StagingDecision {
    /// Move the staged copy into place, verify it there, then commit.
    Activate,
    /// Remove the staged copy and restore the backup: rolled back.
    RestoreBackup,
}

/// How a verification of the active target is acted on.
#[derive(Debug, Clone)]
pub enum ActiveDecision {
    /// Keep the target: remove any staging, persist this journal (now
    /// activated), remove any backup; the transaction is committed.
    Commit(DeploymentJournal),
    /// Replace the target by the backup: rolled back.
    RollbackToBackup,
    /// Remove the unverified target of a new install: rolled back.
    RemoveCandidate,
}

impl DeploymentEngine {
    /// Decides how to recover one interrupted transaction. Roll-forward is
    /// permitted only after the candidate snapshot is verified; when a
    /// known-good backup exists and the candidate cannot be proven valid,
    /// the backup is restored instead.
    pub fn recover_one(
        &self,
        journal: &DeploymentJournal,
        destination_exists: bool,
        staging_exists: bool,
        backup_exists: bool,
    ) -> (r: Result<RecoveryPlan, DeploymentError>)
        ensures
            recovery_check(*journal, destination_exists, staging_exists, backup_exists, r),
            journal_paths_valid(*journal) && journal.phase == DeploymentPhase::Activated
                && destination_exists && !staging_exists ==> r == Ok::<RecoveryPlan, DeploymentError>(
                RecoveryPlan::VerifyActiveOrRestoreBackup,
            ),
            r == Ok::<RecoveryPlan, DeploymentError>(RecoveryPlan::RestoreBackup) ==> !destination_exists
                && backup_exists,
            r == Ok::<RecoveryPlan, DeploymentError>(RecoveryPlan::ActivateVerifiedStaging) ==> staging_exists
                && !destination_exists,
    {
        validate_journal_paths(journal)?;
        let d = destination_exists;
        let s = staging_exists;
        let b = backup_exists;
        match journal.phase {
            DeploymentPhase::Intent => {
                if b {
                    return Err(unrecoverable(journal, "backup exists while phase is intent"));
                }
                return Ok(RecoveryPlan::Discard { remove_staging: s });
            },
            DeploymentPhase::Prepared => {
                if journal.replaced_existing {
                    if d && s && !b {
                        return Ok(RecoveryPlan::Discard { remove_staging: true });
                    }
                    if !d && s && b {
                        return Ok(RecoveryPlan::ActivateVerifiedStaging);
                    }
                    if d && !s && b {
                        return Ok(RecoveryPlan::VerifyActiveOrRestoreBackup);
                    }
                    if !d && !s && b {
                        return Ok(RecoveryPlan::RestoreBackup);
                    }
                } else {
                    if !d && s && !b {
                        return Ok(RecoveryPlan::Discard { remove_staging: true });
                    }
                    if d && !s && !b {
                        return Ok(RecoveryPlan::VerifyActiveWithoutBackup);
                    }
                }
            },
            DeploymentPhase::OldMoved => {
                if !d && s && b {
                    return Ok(RecoveryPlan::ActivateVerifiedStaging);
                }
                if d && !s && b {
                    return Ok(RecoveryPlan::VerifyActiveOrRestoreBackup);
                }
                if !d && !s && b {
                    return Ok(RecoveryPlan::RestoreBackup);
                }
            },
            DeploymentPhase::Activated => {
                if !d {
                    if b {
                        return Ok(RecoveryPlan::RestoreBackup);
                    }
                    return Err(
                        unrecoverable(journal, "activated target is missing and no backup remains"),
                    );
                }
                if s {
                    return Err(unrecoverable(journal, "staging still exists after activation"));
                }
                return Ok(RecoveryPlan::VerifyActiveOrRestoreBackup);
            },
        }
        let mut reason = String::from_str("destination=");
        reason.append(bool_text(d));
        reason.append(", staging=");
        reason.append(bool_text(s));
        reason.append(", backup=");
        reason.append(bool_text(b));
        reason.append(", phase=");
        reason.append(phase_text(journal.phase));
        Err(unrecoverable(journal, reason.as_str()))
    }

    /// Acts on the verification of the staged copy: activate it only when
    /// it verified; otherwise restore the backup if there is one, or fail
    /// with the verification error.
    pub fn activate_verified_staging(
        &self,
        verification: Result<SkillSnapshotRef, SnapshotVerificationError>,
        backup_exists: bool,
    ) -> (r: Result<StagingDecision, DeploymentError>)
        ensures
            r == Ok::<StagingDecision, DeploymentError>(StagingDecision::Activate) <==> verification is Ok,
            verification is Err && backup_exists ==> r == Ok::<StagingDecision, DeploymentError>(
                StagingDecision::RestoreBackup,
            ),
            verification is Err && !backup_exists ==> (r matches Err(DeploymentError::Verification(e))
                && verification == Err::<SkillSnapshotRef, SnapshotVerificationError>(e)),
    {
        match verification {
            Ok(_) => Ok(StagingDecision::Activate),
            Err(e) => {
                if backup_exists {
                    Ok(StagingDecision::RestoreBackup)
                } else {
                    Err(DeploymentError::Verification(e))
                }
            },
        }
    }

    /// Acts on the verification of the target just activated from staging:
    /// commit (the journal, now activated) only when it verified.
    pub fn commit_activated_staging(
        &self,
        journal: &DeploymentJournal,
        verification: Result<SkillSnapshotRef, SnapshotVerificationError>,
    ) -> (r: Result<DeploymentJournal, DeploymentError>)
        ensures
            r is Ok <==> verification is Ok,
            r matches Ok(j) ==> same_transaction(*journal, j) && j.phase
                == DeploymentPhase::Activated,
            r matches Err(e) ==> e matches DeploymentError::Verification(v)
                && verification == Err::<SkillSnapshotRef, SnapshotVerificationError>(v),
    {
        match verification {
            Ok(_) => Ok(journal.with_phase(DeploymentPhase::Activated)),
            Err(e) => Err(DeploymentError::Verification(e)),
        }
    }

    /// Acts on the verification of the active target when a backup may
    /// exist: commit only when it verified; otherwise roll back to the
    /// backup if there is one, or fail with the verification error.
    pub fn verify_active_or_restore_backup(
        &self,
        journal: &DeploymentJournal,
        verification: Result<SkillSnapshotRef, SnapshotVerificationError>,
        backup_exists: bool,
    ) -> (r: Result<ActiveDecision, DeploymentError>)
        ensures
            r matches Ok(ActiveDecision::Commit(_)) <==> verification is Ok,
            r matches Ok(ActiveDecision::Commit(j)) ==> same_transaction(*journal, j) && j.phase
                == DeploymentPhase::Activated,
            verification is Err && backup_exists ==> r matches Ok(ActiveDecision::RollbackToBackup),
            verification is Err && !backup_exists ==> (r matches Err(DeploymentError::Verification(e))
                && verification == Err::<SkillSnapshotRef, SnapshotVerificationError>(e)),
    {
        match verification {
            Ok(_) => Ok(ActiveDecision::Commit(journal.with_phase(DeploymentPhase::Activated))),
            Err(e) => {
                if backup_exists {
                    Ok(ActiveDecision::RollbackToBackup)
                } else {
                    Err(DeploymentError::Verification(e))
                }
            },
        }
    }

    /// Acts on the verification of a new install's active target: commit
    /// when it verified, otherwise remove the candidate (there is no earlier
    /// target to preserve).
    pub fn verify_active_without_backup(
        &self,
        journal: &DeploymentJournal,
        verification: Result<SkillSnapshotRef, SnapshotVerificationError>,
    ) -> (r: ActiveDecision)
        ensures
            r is Commit <==> verification is Ok,
            r matches ActiveDecision::Commit(j) ==> same_transaction(*journal, j) && j.phase
                == DeploymentPhase::Activated,
            verification is Err ==> r is RemoveCandidate,
    {
        match verification {
            Ok(_) => ActiveDecision::Commit(journal.with_phase(DeploymentPhase::Activated)),
            Err(_) => ActiveDecision::RemoveCandidate,
        }
    }

    /// The catalog commit of a deployment is acknowledged (and its journal
    /// may go) only for a valid identifier whose journal is intact, is the
    /// same transaction, reached the activated phase, and whose destination
    /// is a real directory with neither staging nor backup left behind. The
    /// target must then still be verified before the journal is removed.
    pub fn acknowledge_catalog_commit(
        &self,
        transaction_id: &str,
        journal: &DeploymentJournal,
        destination_is_directory: bool,
        staging_exists: bool,
        backup_exists: bool,
    ) -> (r: Result<(), DeploymentError>)
        ensures
            !is_valid_transaction_id(transaction_id@) ==> r matches Err(
                DeploymentError::InvalidTransactionId(_),
            ),
            is_valid_transaction_id(transaction_id@) && !journal_paths_valid(*journal) ==> r matches Err(
                DeploymentError::InvalidJournal(_),
            ),
            is_valid_transaction_id(transaction_id@) && journal_paths_valid(*journal) && (
            journal.transaction_id@ != transaction_id@ || journal.phase
                != DeploymentPhase::Activated || !destination_is_directory || staging_exists
                || backup_exists) ==> (r matches Err(DeploymentError::CatalogAckRejected(t)) && t@
                == transaction_id@),
            r is Ok <==> is_valid_transaction_id(transaction_id@) && journal_paths_valid(*journal)
                && journal.transaction_id@ == transaction_id@ && journal.phase
                == DeploymentPhase::Activated && destination_is_directory && !staging_exists
                && !backup_exists,
    {
        validate_transaction_id(transaction_id)?;
        validate_journal_paths(journal)?;
        if !crate::text::str_eq(journal.transaction_id.as_str(), transaction_id) || journal.phase
            != DeploymentPhase::Activated {
            return Err(DeploymentError::CatalogAckRejected(transaction_id.to_owned()));
        }
        if !destination_is_directory || staging_exists || backup_exists {
            return Err(DeploymentError::CatalogAckRejected(transaction_id.to_owned()));
        }
        Ok(())
    }
}

/// A backup can be moved back only into an absent destination.
pub fn restore_backup(
    journal: &DeploymentJournal,
    destination_exists: bool,
    backup_exists: bool,
) -> (r: Result<(), DeploymentError>)
    ensures
        r is Ok <==> !destination_exists && backup_exists,
        r matches Err(e) ==> e matches DeploymentError::UnrecoverableTransaction {
            transaction_id,
            ..
        } && transaction_id@ == journal.transaction_id@,
{
    if destination_exists {
        return Err(unrecoverable(journal, "cannot restore backup while destination exists"));
    }
    if !backup_exists {
        return Err(unrecoverable(journal, "backup is missing"));
    }
    Ok(())
}

/// What a deployment cleans up when the activated target fails its
/// verification.
#[derive(Debug, Clone, Copy, PartialEq, Eq, Structural)]
pub enum ActivationCleanup {
    /// Replace the target by the backup of the earlier target.
    RollbackToBackup,
    /// Remove the failed target.
    RemoveDestination,
    /// Nothing is left to remove.
    Nothing,
}

/// What is undone when staging a snapshot failed, before anything was
/// activated: the staged copy, when some of it exists, and the journal.
#[derive(Debug, Clone, Copy, PartialEq, Eq, Structural)]
pub struct StagingCleanup {
    pub remove_staging: bool,
    pub remove_journal: bool,
}

/// After staging failed: the staged copy goes if any of it was written,
/// and the journal goes in every case, since the live target was never
/// touched.
pub fn staging_failure_cleanup(staging_exists: bool) -> (c: StagingCleanup)
    ensures
        c.remove_staging == staging_exists,
        c.remove_journal,
{
    StagingCleanup { remove_staging: staging_exists, remove_journal: true }
}

/// After a failed verification of a freshly activated target, the earlier
/// target comes back when it was replaced and its backup exists; otherwise
/// the failed target is removed if present.
pub fn activation_failure_cleanup(
    journal: &DeploymentJournal,
    backup_exists: bool,
    destination_exists: bool,
) -> (c: ActivationCleanup)
    ensures
        journal.replaced_existing && backup_exists ==> c == ActivationCleanup::RollbackToBackup,
        !(journal.replaced_existing && backup_exists) && destination_exists ==> c
            == ActivationCleanup::RemoveDestination,
        !(journal.replaced_existing && backup_exists) && !destination_exists ==> c
            == ActivationCleanup::Nothing,
{
    if journal.replaced_existing && backup_exists {
        ActivationCleanup::RollbackToBackup
    } else if destination_exists {
        ActivationCleanup::RemoveDestination
    } else {
        ActivationCleanup::Nothing
    }
}

impl RecoveryReport {
    pub fn new() -> (r: RecoveryReport)
        ensures
            r.recovered == 0,
            r.rolled_back == 0,
            r.catalog_commits@.len() == 0,
            r.failed@.len() == 0,
    {
        RecoveryReport { recovered: 0, rolled_back: 0, catalog_commits: Vec::new(), failed: Vec::new() }
    }

    /// Counts the outcome of one transaction: a commit is counted and its
    /// result kept for the catalog, a rollback is counted, and a failure is
    /// kept as its message.
    pub fn record(&mut self, outcome: Result<RecoveryOutcome, String>)
        requires
            old(self).recovered < usize::MAX,
            old(self).rolled_back < usize::MAX,
        ensures
            match outcome {
                Ok(RecoveryOutcome::Committed(result)) => final(self).recovered == old(self).recovered
                    + 1 && final(self).rolled_back == old(self).rolled_back
                    && final(self).catalog_commits@ == old(self).catalog_commits@.push(result)
                    && final(self).failed@ == old(self).failed@,
                Ok(RecoveryOutcome::RolledBack) => final(self).recovered == old(self).recovered
                    && final(self).rolled_back == old(self).rolled_back + 1
                    && final(self).catalog_commits@ == old(self).catalog_commits@
                    && final(self).failed@ == old(self).failed@,
                Err(message) => final(self).recovered == old(self).recovered
                    && final(self).rolled_back == old(self).rolled_back
                    && final(self).catalog_commits@ == old(self).catalog_commits@
                    && final(self).failed@ == old(self).failed@.push(message),
            },
    {
        match outcome {
            Ok(RecoveryOutcome::Committed(result)) => {
                self.recovered = self.recovered + 1;
                self.catalog_commits.push(result);
            },
            Ok(RecoveryOutcome::RolledBack) => {
                self.rolled_back = self.rolled_back + 1;
            },
            Err(message) => {
                self.failed.push(message);
            },
        }
    }
}

/// Whether a directory entry is a deployment journal (`*.journal`).
pub fn is_journal_file_name(name: &str) -> (b: bool)
    ensures
        b == (name@.len() > journal_suffix().len() && name@.skip(
            name@.len() - journal_suffix().len(),
        ) == journal_suffix()),
{
    let v = chars_of(name);
    let n = v.len();
    let suffix = ['.', 'j', 'o', 'u', 'r', 'n', 'a', 'l'];
    if n <= 8 {
        return false;
    }
    let mut i: usize = 0;
    while i < 8
        invariant
            n == v@.len(),
            v@ == name@,
            n > 8,
            i <= 8,
            suffix@ == journal_suffix(),
            forall|k: int| 0 <= k < i ==> v@[n - 8 + k] == journal_suffix()[k],
        decreases 8 - i,
    {
        if v[n - 8 + i] != suffix[i] {
            assert(name@.skip(n - 8)[i as int] != journal_suffix()[i as int]);
            return false;
        }
        i = i + 1;
    }
    assert(name@.skip(n - 8) =~= journal_suffix());
    true
}

} // verus!
