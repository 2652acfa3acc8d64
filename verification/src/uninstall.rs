//! Transactional removal of a deployed skill directory.
//!
//! An uninstall first journals its intent, then renames the target to a
//! reserved quarantine name inside the same skill root, and journals the
//! move. The catalog row is deleted next; only then is the quarantine
//! removed for good. Rolling back renames the quarantine back. Recovery
//! reads each journal and, from which of target and quarantine exist,
//! cleans up an intent that never moved anything or reports the
//! transaction as pending, leaving the catalog to decide between rollback
//! and finalize.
use vstd::prelude::*;
use crate::deployment::is_valid_transaction_id;
use crate::paths::{
    is_absolute, is_absolute_path, is_direct_child, is_direct_child_of, is_lexically_normal,
    is_lexically_normal_path, join, join_path,
};
use crate::text::{chars_of, is_ascii_alphanumeric, is_blank, trim_seq};

verus! {

/// Names beginning with this prefix are quarantined uninstall targets.
pub open spec fn remove_infix() -> Seq<char> {
    seq!['.', 's', 'k', 'i', 'l', 'l', 'h', 'i', 'v', 'e', '-', 'r', 'e', 'm', 'o', 'v', 'e', '-']
}

pub open spec fn uninstall_suffix() -> Seq<char> {
    seq!['.', 'u', 'n', 'i', 'n', 's', 't', 'a', 'l', 'l']
}

#[derive(Debug, Clone)]
pub struct UninstallEngine {
    pub journal_root: String,
}

#[derive(Debug, Clone)]
pub struct UninstallRequest {
    pub skill_id: String,
    pub agent_profile_id: String,
    pub skill_root: String,
    pub target_path: String,
}

#[derive(Debug, Clone, PartialEq, Eq)]
pub struct UninstallResult {
    pub transaction_id: Option<String>,
    pub skill_id: String,
    pub agent_profile_id: String,
    pub target_path: String,
    pub quarantined_path: Option<String>,
    pub target_existed: bool,
}

/// How far an uninstall got before its journal was last written.
#[derive(Debug, Clone, Copy, PartialEq, Eq, Structural)]
pub enum UninstallPhase {
    /// The journal exists; the target has not been moved yet.
    Intent,
    /// The target was renamed to the quarantine path.
    Moved,
}

/// The durable record of one uninstall transaction.
#[derive(Debug, Clone)]
pub struct UninstallJournal {
    pub transaction_id: String,
    pub skill_id: String,
    pub agent_profile_id: String,
    pub skill_root: String,
    pub target_path: String,
    pub quarantined_path: String,
    pub phase: UninstallPhase,
}

#[derive(Debug, Clone, PartialEq, Eq)]
pub struct UninstallRecoveryReport {
    pub pending: Vec<UninstallResult>,
    pub cleaned_intents: usize,
    pub failed: Vec<String>,
}

#[derive(Debug)]
pub enum UninstallError {
    Io(String),
    JournalSerialization(String),
    InvalidRequest(String),
    InvalidTransactionId(String),
    InvalidJournal(String),
    UnsafeDirectory(String),
    AmbiguousFilesystemState(String),
    UnrecoverableTransaction(String),
    CatalogCommitNotReflected(String),
}

/// The text each error is reported with.
pub open spec fn uninstall_error_text(e: UninstallError) -> Seq<char> {
    match e {
        UninstallError::Io(m) => "uninstall filesystem error: "@ + m@,
        UninstallError::JournalSerialization(m) => "uninstall journal serialization error: "@ + m@,
        UninstallError::InvalidRequest(m) => "invalid uninstall request: "@ + m@,
        UninstallError::InvalidTransactionId(m) => "invalid uninstall transaction id: "@ + m@,
        UninstallError::InvalidJournal(m) => "invalid uninstall journal: "@ + m@,
        UninstallError::UnsafeDirectory(p) => "unsafe uninstall directory: \""@ + p@ + "\""@,
        UninstallError::AmbiguousFilesystemState(t) => "uninstall transaction "@ + t@
            + " has ambiguous filesystem state"@,
        UninstallError::UnrecoverableTransaction(t) => "uninstall transaction "@ + t@
            + " cannot be rolled back"@,
        UninstallError::CatalogCommitNotReflected(t) => "uninstall transaction "@ + t@
            + " still has an active target"@,
    }
}

impl UninstallError {
    /// The error's text.
    pub fn message(&self) -> (s: String)
        ensures
            s@ == uninstall_error_text(*self),
    {
        let (mut s, payload, tail) = match self {
            UninstallError::Io(m) => (String::from_str("uninstall filesystem error: "), m, ""),
            UninstallError::JournalSerialization(m) => (
                String::from_str("uninstall journal serialization error: "),
                m,
                "",
            ),
            UninstallError::InvalidRequest(m) => (
                String::from_str("invalid uninstall request: "),
                m,
                "",
            ),
            UninstallError::InvalidTransactionId(m) => (
                String::from_str("invalid uninstall transaction id: "),
                m,
                "",
            ),
            UninstallError::InvalidJournal(m) => (
                String::from_str("invalid uninstall journal: "),
                m,
                "",
            ),
            UninstallError::UnsafeDirectory(p) => (
                String::from_str("unsafe uninstall directory: \""),
                p,
                "\"",
            ),
            UninstallError::AmbiguousFilesystemState(t) => (
                String::from_str("uninstall transaction "),
                t,
                " has ambiguous filesystem state",
            ),
            UninstallError::UnrecoverableTransaction(t) => (
                String::from_str("uninstall transaction "),
                t,
                " cannot be rolled back",
            ),
            UninstallError::CatalogCommitNotReflected(t) => (
                String::from_str("uninstall transaction "),
                t,
                " still has an active target",
            ),
        };
        s.append(payload.as_str());
        s.append(tail);
        proof {
            reveal_strlit("");
            assert(s@ =~= uninstall_error_text(*self));
        }
        s
    }
}

// ---------------------------------------------------------------------
// Requests and journals.
/// An absolute path with no `.` or `..` component.
pub open spec fn is_stable_absolute(s: Seq<char>) -> bool {
    is_absolute_path(s) && is_lexically_normal(s)
}

/// The first rule a path breaks as a stable absolute path, as the message
/// it is refused with.
pub open spec fn stable_path_fault(s: Seq<char>, field: Seq<char>) -> Option<Seq<char>> {
    if !is_absolute_path(s) {
        Some(field + " must be an absolute UTF-8 path"@)
    } else if !is_lexically_normal(s) {
        Some(field + " must be lexically normalized"@)
    } else {
        None
    }
}

/// Refuses a path that is relative or holds a `.` or `..` component.
pub fn validate_stable_absolute_path(path: &str, field: &str) -> (r: Result<(), UninstallError>)
    ensures
        r is Ok <==> stable_path_fault(path@, field@) is None,
        r matches Err(e) ==> e matches UninstallError::InvalidRequest(m) && stable_path_fault(
            path@,
            field@,
        ) == Some(m@),
{
    if !is_absolute(path) {
        let mut m = field.to_owned();
        m.append(" must be an absolute UTF-8 path");
        return Err(UninstallError::InvalidRequest(m));
    }
    if !is_lexically_normal_path(path) {
        let mut m = field.to_owned();
        m.append(" must be lexically normalized");
        return Err(UninstallError::InvalidRequest(m));
    }
    Ok(())
}

/// The first rule an uninstall request breaks, as the message it is
/// refused with.
pub open spec fn request_fault(request: UninstallRequest) -> Option<Seq<char>> {
    if trim_seq(request.skill_id@).len() == 0 || trim_seq(request.agent_profile_id@).len() == 0 {
        Some("skill_id and agent_profile_id must not be empty"@)
    } else if stable_path_fault(request.skill_root@, "skill_root"@) is Some {
        stable_path_fault(request.skill_root@, "skill_root"@)
    } else if stable_path_fault(request.target_path@, "target_path"@) is Some {
        stable_path_fault(request.target_path@, "target_path"@)
    } else if !is_direct_child(request.target_path@, request.skill_root@) {
        Some("target_path must be a direct child of skill_root"@)
    } else {
        None
    }
}

/// A directory the engine works in (its journal root, or a skill root),
/// as found on disk after it was created if it was missing: it must be a
/// real directory, not a symbolic link or a file.
pub fn check_real_directory(path: &str, is_real_dir: bool) -> (r: Result<(), UninstallError>)
    ensures
        r is Ok <==> is_real_dir,
        r matches Err(e) ==> e matches UninstallError::UnsafeDirectory(p) && p@ == path@,
{
    if !is_real_dir {
        return Err(UninstallError::UnsafeDirectory(path.to_owned()));
    }
    Ok(())
}

/// Checks an uninstall request: identifiers present, stable absolute paths,
/// and a target directly inside the skill root.
pub fn validate_request(request: &UninstallRequest) -> (r: Result<(), UninstallError>)
    ensures
        r is Ok <==> request_fault(*request) is None,
        r matches Err(e) ==> e matches UninstallError::InvalidRequest(m) && request_fault(*request)
            == Some(m@),
{
    if is_blank(request.skill_id.as_str()) || is_blank(request.agent_profile_id.as_str()) {
        return Err(
            UninstallError::InvalidRequest(
                String::from_str("skill_id and agent_profile_id must not be empty"),
            ),
        );
    }
    validate_stable_absolute_path(request.skill_root.as_str(), "skill_root")?;
    validate_stable_absolute_path(request.target_path.as_str(), "target_path")?;
    if !is_direct_child_of(request.target_path.as_str(), request.skill_root.as_str()) {
        return Err(
            UninstallError::InvalidRequest(
                String::from_str("target_path must be a direct child of skill_root"),
            ),
        );
    }
    Ok(())
}

/// Accepts a non-empty identifier of ASCII letters, digits and `-`.
pub fn validate_transaction_id(value: &str) -> (r: Result<(), UninstallError>)
    ensures
        r is Ok <==> is_valid_transaction_id(value@),
        r matches Err(e) ==> e matches UninstallError::InvalidTransactionId(v) && v@ == value@,
{
    let v = chars_of(value);
    if v.len() == 0 {
        return Err(UninstallError::InvalidTransactionId(value.to_owned()));
    }
    let mut i: usize = 0;
    while i < v.len()
        invariant
            i <= v@.len(),
            v@ == value@,
            forall|k: int| 0 <= k < i ==> is_ascii_alphanumeric(#[trigger] v@[k]) || v@[k] == '-',
        decreases v@.len() - i,
    {
        let c = v[i];
        let ok = ('a' <= c && c <= 'z') || ('A' <= c && c <= 'Z') || ('0' <= c && c <= '9') || c
            == '-';
        if !ok {
            assert(!(is_ascii_alphanumeric(v@[i as int]) || v@[i as int] == '-'));
            return Err(UninstallError::InvalidTransactionId(value.to_owned()));
        }
        i = i + 1;
    }
    Ok(())
}

/// The journal's skill root is stable and absolute, and its target and
/// quarantine are entries directly inside it.
pub open spec fn journal_paths_valid(j: UninstallJournal) -> bool {
    &&& is_stable_absolute(j.skill_root@)
    &&& is_direct_child(j.target_path@, j.skill_root@)
    &&& is_direct_child(j.quarantined_path@, j.skill_root@)
}

/// Refuses a journal whose paths could lead outside its skill root.
pub fn validate_journal_paths(journal: &UninstallJournal) -> (r: Result<(), UninstallError>)
    ensures
        r is Ok <==> journal_paths_valid(*journal),
        r matches Err(e) ==> (e matches UninstallError::InvalidRequest(m) && stable_path_fault(
            journal.skill_root@,
            "journal skill_root"@,
        ) == Some(m@)) || (e matches UninstallError::InvalidJournal(m) && m@
            == "journal contains path outside skill root"@),
{
    validate_stable_absolute_path(journal.skill_root.as_str(), "journal skill_root")?;
    if !is_direct_child_of(journal.target_path.as_str(), journal.skill_root.as_str())
        || !is_direct_child_of(journal.quarantined_path.as_str(), journal.skill_root.as_str()) {
        return Err(
            UninstallError::InvalidJournal(
                String::from_str("journal contains path outside skill root"),
            ),
        );
    }
    Ok(())
}

fn copy_string(s: &String) -> (r: String)
    ensures
        r@ == s@,
{
    s.as_str().to_owned()
}

/// The result a journal reports: its transaction, with the target moved
/// to the quarantine.
pub open spec fn journal_result(j: UninstallJournal, r: UninstallResult) -> bool {
    &&& r.transaction_id matches Some(t) && t@ == j.transaction_id@
    &&& r.skill_id@ == j.skill_id@
    &&& r.agent_profile_id@ == j.agent_profile_id@
    &&& r.target_path@ == j.target_path@
    &&& r.quarantined_path matches Some(q) && q@ == j.quarantined_path@
    &&& r.target_existed
}

impl UninstallJournal {
    pub fn result(&self) -> (r: UninstallResult)
        ensures
            journal_result(*self, r),
    {
        UninstallResult {
            transaction_id: Some(copy_string(&self.transaction_id)),
            skill_id: copy_string(&self.skill_id),
            agent_profile_id: copy_string(&self.agent_profile_id),
            target_path: copy_string(&self.target_path),
            quarantined_path: Some(copy_string(&self.quarantined_path)),
            target_existed: true,
        }
    }

    /// The same journal, recording that the target has been moved.
    pub fn moved(&self) -> (j: UninstallJournal)
        ensures
            j.transaction_id@ == self.transaction_id@,
            j.skill_id@ == self.skill_id@,
            j.agent_profile_id@ == self.agent_profile_id@,
            j.skill_root@ == self.skill_root@,
            j.target_path@ == self.target_path@,
            j.quarantined_path@ == self.quarantined_path@,
            j.phase == UninstallPhase::Moved,
    {
        UninstallJournal {
            transaction_id: copy_string(&self.transaction_id),
            skill_id: copy_string(&self.skill_id),
            agent_profile_id: copy_string(&self.agent_profile_id),
            skill_root: copy_string(&self.skill_root),
            target_path: copy_string(&self.target_path),
            quarantined_path: copy_string(&self.quarantined_path),
            phase: UninstallPhase::Moved,
        }
    }
}

/// How an uninstall starts.
#[derive(Debug, Clone)]
pub enum UninstallStart {
    /// The target does not exist: nothing to move, no transaction.
    Absent(UninstallResult),
    /// Persist this intent journal, move the target to its quarantine,
    /// then persist the journal again as moved.
    Quarantine(UninstallJournal),
}

impl UninstallEngine {
    /// Opens the engine on its journal directory, as found on disk after it
    /// was created if it was missing (`is_real_dir`): a symbolic link or a
    /// file there is refused.
    pub fn open(journal_root: &str, is_real_dir: bool) -> (r: Result<UninstallEngine, UninstallError>)
        ensures
            r is Ok <==> is_real_dir,
            r matches Ok(e) ==> e.journal_root@ == journal_root@,
            r matches Err(e) ==> e matches UninstallError::UnsafeDirectory(p) && p@ == journal_root@,
    {
        check_real_directory(journal_root, is_real_dir)?;
        Ok(UninstallEngine { journal_root: journal_root.to_owned() })
    }

    /// `<journal root>/<transaction id>.uninstall`.
    pub fn journal_path(&self, transaction_id: &str) -> (p: String)
        ensures
            p@ == join_path(self.journal_root@, transaction_id@ + uninstall_suffix()),
    {
        let mut name = transaction_id.to_owned();
        name.append(".uninstall");
        proof {
            reveal_strlit(".uninstall");
            assert(".uninstall"@ =~= uninstall_suffix());
        }
        join(self.journal_root.as_str(), name.as_str())
    }

    /// Starts an uninstall: checks the request and, when the target exists
    /// (`target_exists`), opens an intent journal under a fresh transaction
    /// identifier whose quarantine is a reserved name inside the skill root.
    pub fn begin(&self, request: &UninstallRequest, target_exists: bool) -> (r: Result<
        UninstallStart,
        UninstallError,
    >)
        ensures
            r is Err <==> request_fault(*request) is Some,
            r matches Err(e) ==> e matches UninstallError::InvalidRequest(m) && request_fault(
                *request,
            ) == Some(m@),
            r matches Ok(UninstallStart::Absent(res)) ==> !target_exists && res.transaction_id is None
                && res.skill_id@ == request.skill_id@ && res.agent_profile_id@
                == request.agent_profile_id@ && res.target_path@ == request.target_path@
                && res.quarantined_path is None && !res.target_existed,
            r matches Ok(UninstallStart::Quarantine(j)) ==> target_exists && is_valid_transaction_id(
                j.transaction_id@,
            ) && j.skill_id@ == request.skill_id@ && j.agent_profile_id@
                == request.agent_profile_id@ && j.skill_root@ == request.skill_root@
                && j.target_path@ == request.target_path@ && j.quarantined_path@ == join_path(
                request.skill_root@,
                remove_infix() + j.transaction_id@,
            ) && j.phase == UninstallPhase::Intent,
    {
        validate_request(request)?;
        if !target_exists {
            return Ok(
                UninstallStart::Absent(
                    UninstallResult {
                        transaction_id: None,
                        skill_id: copy_string(&request.skill_id),
                        agent_profile_id: copy_string(&request.agent_profile_id),
                        target_path: copy_string(&request.target_path),
                        quarantined_path: None,
                        target_existed: false,
                    },
                ),
            );
        }
        let transaction_id = crate::ids::new_uuid_v4();
        let mut name = String::from_str(".skillhive-remove-");
        name.append(transaction_id.as_str());
        proof {
            reveal_strlit(".skillhive-remove-");
            assert(".skillhive-remove-"@ =~= remove_infix());
        }
        let quarantined_path = join(request.skill_root.as_str(), name.as_str());
        Ok(
            UninstallStart::Quarantine(
                UninstallJournal {
                    transaction_id,
                    skill_id: copy_string(&request.skill_id),
                    agent_profile_id: copy_string(&request.agent_profile_id),
                    skill_root: copy_string(&request.skill_root),
                    target_path: copy_string(&request.target_path),
                    quarantined_path,
                    phase: UninstallPhase::Intent,
                },
            ),
        )
    }
}

/// Refuses to start a transaction whose quarantine name is already taken.
pub fn check_quarantine_free(journal: &UninstallJournal, quarantine_exists: bool) -> (r: Result<
    (),
    UninstallError,
>)
    ensures
        r is Ok <==> !quarantine_exists,
        r matches Err(e) ==> e matches UninstallError::AmbiguousFilesystemState(t) && t@
            == journal.transaction_id@,
{
    if quarantine_exists {
        return Err(UninstallError::AmbiguousFilesystemState(copy_string(&journal.transaction_id)));
    }
    Ok(())
}

// ---------------------------------------------------------------------
// Finishing a transaction.
/// The decision to finalize `transaction_id`, once the journal is read and
/// the existence of target (`t`) and quarantine (`q`) is known: `Ok(true)`
/// removes the quarantine, then the journal; `Ok(false)` only removes the
/// journal.
pub open spec fn finalize_check(
    transaction_id: Seq<char>,
    j: UninstallJournal,
    t: bool,
    q: bool,
    r: Result<bool, UninstallError>,
) -> bool {
    if !journal_paths_valid(j) {
        r is Err
    } else if j.transaction_id@ != transaction_id {
        r matches Err(UninstallError::InvalidJournal(m)) && m@
            == "transaction id does not match journal filename"@
    } else if t && q {
        r matches Err(UninstallError::AmbiguousFilesystemState(x)) && x@ == transaction_id
    } else if t {
        r matches Err(UninstallError::CatalogCommitNotReflected(x)) && x@ == transaction_id
    } else {
        r == Ok::<bool, UninstallError>(q)
    }
}

impl UninstallEngine {
/// Decides how to finalize a transaction whose catalog row is gone: the
/// target must be gone too; an existing quarantine is then removed.
pub fn finalize(
    &self,
    transaction_id: &str,
    journal: &UninstallJournal,
    target_exists: bool,
    quarantine_exists: bool,
) -> (r: Result<bool, UninstallError>)
    ensures
        finalize_check(transaction_id@, *journal, target_exists, quarantine_exists, r),
{
    validate_journal_paths(journal)?;
    if !crate::text::str_eq(journal.transaction_id.as_str(), transaction_id) {
        return Err(
            UninstallError::InvalidJournal(
                String::from_str("transaction id does not match journal filename"),
            ),
        );
    }
    if target_exists && quarantine_exists {
        return Err(UninstallError::AmbiguousFilesystemState(transaction_id.to_owned()));
    }
    if target_exists {
        return Err(UninstallError::CatalogCommitNotReflected(transaction_id.to_owned()));
    }
    Ok(quarantine_exists)
}
}

/// The decision to roll back `transaction_id`: `Ok(true)` renames the
/// quarantine back to the target, then removes the journal; `Ok(false)`
/// only removes the journal, the target being in place already.
pub open spec fn rollback_check(
    transaction_id: Seq<char>,
    j: UninstallJournal,
    t: bool,
    q: bool,
    r: Result<bool, UninstallError>,
) -> bool {
    if !journal_paths_valid(j) {
        r is Err
    } else if !t && q {
        r == Ok::<bool, UninstallError>(true)
    } else if t && !q {
        r == Ok::<bool, UninstallError>(false)
    } else if t && q {
        r matches Err(UninstallError::AmbiguousFilesystemState(x)) && x@ == transaction_id
    } else {
        r matches Err(UninstallError::UnrecoverableTransaction(x)) && x@ == transaction_id
    }
}

impl UninstallEngine {
/// Decides how to roll back a transaction whose catalog row still exists.
pub fn rollback(
    &self,
    transaction_id: &str,
    journal: &UninstallJournal,
    target_exists: bool,
    quarantine_exists: bool,
) -> (r: Result<bool, UninstallError>)
    ensures
        rollback_check(transaction_id@, *journal, target_exists, quarantine_exists, r),
{
    validate_journal_paths(journal)?;
    if !target_exists && quarantine_exists {
        Ok(true)
    } else if target_exists && !quarantine_exists {
        Ok(false)
    } else if target_exists {
        Err(UninstallError::AmbiguousFilesystemState(transaction_id.to_owned()))
    } else {
        Err(UninstallError::UnrecoverableTransaction(transaction_id.to_owned()))
    }
}
}

/// What recovery does with one journal.
#[derive(Debug, Clone)]
pub enum RecoveryDisposition {
    /// The target never moved: remove the journal and count it as cleaned.
    CleanIntent,
    /// Report the transaction as pending; the catalog decides.
    Pending(UninstallResult),
}

/// The recovery decision for a journal, from which of target (`t`) and
/// quarantine (`q`) exist.
pub open spec fn recovery_check(
    j: UninstallJournal,
    t: bool,
    q: bool,
    r: Result<RecoveryDisposition, UninstallError>,
) -> bool {
    if !journal_paths_valid(j) {
        r is Err
    } else if t && !q && j.phase == UninstallPhase::Intent {
        r matches Ok(RecoveryDisposition::CleanIntent)
    } else if (!t && q) || (!t && !q && j.phase == UninstallPhase::Moved) {
        r matches Ok(RecoveryDisposition::Pending(res)) && journal_result(j, res)
    } else {
        r matches Err(UninstallError::AmbiguousFilesystemState(x)) && x@ == j.transaction_id@
    }
}

/// Decides what recovery does with a journal found at startup. A moved
/// transaction whose quarantine is already gone is still pending: the
/// permanent removal may have completed just before a crash, and only the
/// catalog can tell whether to finalize it.
pub fn recovery_disposition(journal: &UninstallJournal, target_exists: bool, quarantine_exists: bool) -> (r:
    Result<RecoveryDisposition, UninstallError>)
    ensures
        recovery_check(*journal, target_exists, quarantine_exists, r),
{
    validate_journal_paths(journal)?;
    if target_exists && !quarantine_exists && journal.phase == UninstallPhase::Intent {
        Ok(RecoveryDisposition::CleanIntent)
    } else if (!target_exists && quarantine_exists) || (!target_exists && !quarantine_exists
        && journal.phase == UninstallPhase::Moved) {
        Ok(RecoveryDisposition::Pending(journal.result()))
    } else {
        Err(UninstallError::AmbiguousFilesystemState(copy_string(&journal.transaction_id)))
    }
}

impl UninstallEngine {
/// Drops a journal whose target and quarantine are both gone; refuses when
/// either still exists.
pub fn acknowledge_missing_quarantine(
    &self,
    transaction_id: &str,
    journal: &UninstallJournal,
    target_exists: bool,
    quarantine_exists: bool,
) -> (r: Result<(), UninstallError>)
    ensures
        !journal_paths_valid(*journal) ==> r is Err,
        journal_paths_valid(*journal) ==> (r is Ok <==> !target_exists && !quarantine_exists),
        journal_paths_valid(*journal) && r is Err ==> (r matches Err(
            UninstallError::AmbiguousFilesystemState(x),
        ) && x@ == transaction_id@),
{
    validate_journal_paths(journal)?;
    if target_exists || quarantine_exists {
        return Err(UninstallError::AmbiguousFilesystemState(transaction_id.to_owned()));
    }
    Ok(())
}
}

/// The report after the recovery of the journal at `path` is counted.
pub open spec fn recovery_recorded(
    before: UninstallRecoveryReport,
    after: UninstallRecoveryReport,
    path: Seq<char>,
    outcome: Result<RecoveryDisposition, UninstallError>,
) -> bool {
    match outcome {
        Ok(RecoveryDisposition::CleanIntent) => {
            &&& after.cleaned_intents == before.cleaned_intents + 1
            &&& after.pending@ == before.pending@
            &&& after.failed@ == before.failed@
        },
        Ok(RecoveryDisposition::Pending(res)) => {
            &&& after.cleaned_intents == before.cleaned_intents
            &&& after.pending@ == before.pending@.push(res)
            &&& after.failed@ == before.failed@
        },
        Err(e) => {
            &&& after.cleaned_intents == before.cleaned_intents
            &&& after.pending@ == before.pending@
            &&& after.failed@.len() == before.failed@.len() + 1
            &&& after.failed@.take(before.failed@.len() as int) == before.failed@
            &&& after.failed@.last()@ == path + ": "@ + uninstall_error_text(e)
        },
    }
}

impl UninstallRecoveryReport {
    pub fn new() -> (r: UninstallRecoveryReport)
        ensures
            r.pending@.len() == 0,
            r.cleaned_intents == 0,
            r.failed@.len() == 0,
    {
        UninstallRecoveryReport { pending: Vec::new(), cleaned_intents: 0, failed: Vec::new() }
    }

    /// Counts the recovery of the journal at `path`: a cleaned intent is
    /// counted, a pending transaction kept, and a failure kept as
    /// `<path>: <error text>`.
    pub fn record(&mut self, path: &str, outcome: Result<RecoveryDisposition, UninstallError>)
        requires
            old(self).cleaned_intents < usize::MAX,
        ensures
            recovery_recorded(*old(self), *final(self), path@, outcome),
    {
        match outcome {
            Ok(RecoveryDisposition::CleanIntent) => {
                self.cleaned_intents = self.cleaned_intents + 1;
            },
            Ok(RecoveryDisposition::Pending(res)) => {
                self.pending.push(res);
            },
            Err(e) => {
                let mut m = path.to_owned();
                m.append(": ");
                let text = e.message();
                m.append(text.as_str());
                let ghost before = self.failed@;
                self.failed.push(m);
                assert(self.failed@.take(before.len() as int) =~= before);
            },
        }
    }
}

/// Whether a directory entry is an uninstall journal (`*.uninstall`).
pub fn is_uninstall_journal_name(name: &str) -> (b: bool)
    ensures
        b == (name@.len() > uninstall_suffix().len() && name@.skip(
            name@.len() - uninstall_suffix().len(),
        ) == uninstall_suffix()),
{
    let v = chars_of(name);
    let n = v.len();
    let suffix = ['.', 'u', 'n', 'i', 'n', 's', 't', 'a', 'l', 'l'];
    if n <= 10 {
        return false;
    }
    let mut i: usize = 0;
    while i < 10
        invariant
            n == v@.len(),
            v@ == name@,
            n > 10,
            i <= 10,
            suffix@ == uninstall_suffix(),
            forall|k: int| 0 <= k < i ==> v@[n - 10 + k] == uninstall_suffix()[k],
        decreases 10 - i,
    {
        if v[n - 10 + i] != suffix[i] {
            assert(name@.skip(n - 10)[i as int] != uninstall_suffix()[i as int]);
            return false;
        }
        i = i + 1;
    }
    assert(name@.skip(n - 10) =~= uninstall_suffix());
    true
}

/// Finalizing only ever happens once the target is gone, and never while
/// both target and quarantine exist: a finalize that succeeds has removed
/// nothing that a rollback could still need.
pub proof fn lemma_finalize_requires_target_gone(
    transaction_id: Seq<char>,
    j: UninstallJournal,
    t: bool,
    q: bool,
    r: Result<bool, UninstallError>,
)
    requires
        finalize_check(transaction_id, j, t, q, r),
        r is Ok,
    ensures
        !t,
        r == Ok::<bool, UninstallError>(q),
{
}

/// Rolling back and finalizing agree on which states are consistent: with
/// the target in place and no quarantine, a rollback succeeds without
/// moving anything, while a finalize refuses.
pub proof fn lemma_rollback_and_finalize_are_exclusive(
    transaction_id: Seq<char>,
    j: UninstallJournal,
    rf: Result<bool, UninstallError>,
    rr: Result<bool, UninstallError>,
)
    requires
        journal_paths_valid(j),
        j.transaction_id@ == transaction_id,
        finalize_check(transaction_id, j, true, false, rf),
        rollback_check(transaction_id, j, true, false, rr),
    ensures
        rf is Err,
        rr == Ok::<bool, UninstallError>(false),
{
}

} // verus!
