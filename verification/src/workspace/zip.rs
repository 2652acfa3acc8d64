//! Zip packaging at the client boundary. An archive is unpacked into a
//! staging directory under bounds checked before any byte is written
//! (entry count, per-entry and total declared size), every entry name must
//! be a plain relative path, and link entries are refused; the snapshot
//! rules then re-validate everything when the staging directory is
//! captured.
use vstd::prelude::*;
use crate::paths::{is_absolute_path, is_lexically_normal, is_lexically_normal_path, join, join_path, is_absolute};
use crate::skill_snapshot::SnapshotError;
use crate::text::{chars_of, contains_char, has_char};
use crate::workspace::{WorkspaceError, WorkspaceRef};

verus! {

/// The largest archive file accepted, in bytes.
pub const MAX_ARCHIVE_BYTES: u64 = 536870912;

/// The most entries an archive may hold.
pub const MAX_ENTRIES: usize = 10000;

/// The largest declared size of one entry, in bytes.
pub const MAX_ENTRY_BYTES: u64 = 67108864;

/// The largest total declared size of all entries, in bytes.
pub const MAX_TOTAL_BYTES: u64 = 536870912;

#[derive(Debug)]
pub enum ZipError {
    ArchiveTooLarge { limit: u64 },
    TooManyEntries { limit: usize },
    UnsafeEntry(String),
    EntryTooLarge { path: String, limit: u64 },
    TotalTooLarge,
    EntrySizeMismatch { path: String },
    Malformed(String),
    Io(String),
    Snapshot(SnapshotError),
    Workspace(WorkspaceError),
}

#[derive(Debug, Clone, PartialEq, Eq)]
pub struct ZipImportOutcome {
    pub workspace: WorkspaceRef,
    pub manifest_hash: String,
    pub source_file_name: String,
    pub file_count: usize,
}

/// A name an archive entry may have: not empty, no backslash, not
/// absolute (rooted or with a drive prefix), and neither a leading `.` nor
/// any `..` component.
pub open spec fn is_safe_entry_name(name: Seq<char>) -> bool {
    &&& name.len() > 0
    &&& !has_char(name, '\\')
    &&& !is_absolute_path(name)
    &&& is_lexically_normal(name)
}

/// Refuses entry names that could escape the staging directory.
pub fn validate_entry_name(name: &str) -> (r: Result<(), ZipError>)
    ensures
        r is Ok <==> is_safe_entry_name(name@),
        r matches Err(e) ==> e matches ZipError::UnsafeEntry(n) && n@ == name@,
{
    let v = chars_of(name);
    if v.len() == 0 || contains_char(v.as_slice(), '\\') {
        return Err(ZipError::UnsafeEntry(name.to_owned()));
    }
    if is_absolute(name) {
        return Err(ZipError::UnsafeEntry(name.to_owned()));
    }
    if !is_lexically_normal_path(name) {
        return Err(ZipError::UnsafeEntry(name.to_owned()));
    }
    Ok(())
}

/// An archive file must not be a link and must fit the package limit.
pub fn check_archive_file(display: &str, is_symlink: bool, len: u64) -> (r: Result<(), ZipError>)
    ensures
        is_symlink ==> (r matches Err(ZipError::UnsafeEntry(n)) && n@ == display@),
        !is_symlink && len > MAX_ARCHIVE_BYTES ==> (r matches Err(
            ZipError::ArchiveTooLarge { limit },
        ) && limit == MAX_TOTAL_BYTES),
        !is_symlink && len <= MAX_ARCHIVE_BYTES ==> r is Ok,
{
    if is_symlink {
        return Err(ZipError::UnsafeEntry(display.to_owned()));
    }
    if len > MAX_ARCHIVE_BYTES {
        return Err(ZipError::ArchiveTooLarge { limit: MAX_TOTAL_BYTES });
    }
    Ok(())
}

/// An archive holds at most `MAX_ENTRIES` entries.
pub fn check_entry_count(count: usize) -> (r: Result<(), ZipError>)
    ensures
        r is Ok <==> count <= MAX_ENTRIES,
        r is Err ==> (r matches Err(ZipError::TooManyEntries { limit }) && limit == MAX_ENTRIES),
{
    if count > MAX_ENTRIES {
        return Err(ZipError::TooManyEntries { limit: MAX_ENTRIES });
    }
    Ok(())
}

/// What extraction does with one entry.
#[derive(Debug, Clone, PartialEq, Eq)]
pub enum EntryAction {
    /// Create this directory (and its parents).
    CreateDir(String),
    /// Read the entry, at most `MAX_ENTRY_BYTES` bytes, and write it to
    /// this path; it must yield exactly its declared size.
    WriteFile(String),
}

/// Whether a unix mode describes a symbolic link.
pub open spec fn is_link_mode(mode: u32) -> bool {
    mode & 0o170000u32 == 0o120000u32
}

/// The decision for one entry of an archive being extracted into
/// `staging`, when `total` declared bytes were accepted before it.
pub open spec fn entry_check(
    staging: Seq<char>,
    name: Seq<char>,
    is_dir: bool,
    unix_mode: Option<u32>,
    declared: u64,
    total: u64,
    r: Result<(EntryAction, u64), ZipError>,
) -> bool {
    if !is_safe_entry_name(name) {
        r matches Err(ZipError::UnsafeEntry(n)) && n@ == name
    } else if is_dir {
        r matches Ok((EntryAction::CreateDir(p), t)) && p@ == join_path(staging, name) && t
            == total
    } else if unix_mode matches Some(m) && is_link_mode(m) {
        r matches Err(ZipError::UnsafeEntry(n)) && n@ == name
    } else if declared > MAX_ENTRY_BYTES {
        r matches Err(ZipError::EntryTooLarge { path, limit }) && path@ == name && limit
            == MAX_ENTRY_BYTES
    } else if total + declared > MAX_TOTAL_BYTES {
        r matches Err(ZipError::TotalTooLarge)
    } else {
        r matches Ok((EntryAction::WriteFile(p), t)) && p@ == join_path(staging, name) && t
            == total + declared
    }
}

/// Decides what to do with one archive entry: its name must be safe,
/// directories are created, link entries are refused, and a file's
/// declared size must fit both the per-entry and the total limits.
/// Returns the action and the new running total.
pub fn check_entry(
    staging: &str,
    name: &str,
    is_dir: bool,
    unix_mode: Option<u32>,
    declared: u64,
    total: u64,
) -> (r: Result<(EntryAction, u64), ZipError>)
    requires
        total <= MAX_TOTAL_BYTES,
    ensures
        entry_check(staging@, name@, is_dir, unix_mode, declared, total, r),
{
    validate_entry_name(name)?;
    if is_dir {
        return Ok((EntryAction::CreateDir(join(staging, name)), total));
    }
    match unix_mode {
        Some(mode) => {
            if mode & 0o170000u32 == 0o120000u32 {
                return Err(ZipError::UnsafeEntry(name.to_owned()));
            }
        },
        None => {},
    }
    if declared > MAX_ENTRY_BYTES {
        return Err(ZipError::EntryTooLarge { path: name.to_owned(), limit: MAX_ENTRY_BYTES });
    }
    let new_total = total + declared;
    if new_total > MAX_TOTAL_BYTES {
        return Err(ZipError::TotalTooLarge);
    }
    Ok((EntryAction::WriteFile(join(staging, name)), new_total))
}

/// The bytes read from a file entry must be exactly its declared size.
pub fn check_entry_read(name: &str, declared: u64, read: usize) -> (r: Result<(), ZipError>)
    ensures
        r is Ok <==> read == declared,
        r matches Err(e) ==> e matches ZipError::EntrySizeMismatch { path } && path@ == name@,
{
    if read as u64 != declared {
        return Err(ZipError::EntrySizeMismatch { path: name.to_owned() });
    }
    Ok(())
}

/// Extraction never accepts more than the total limit: whatever sequence of
/// entries is accepted, the running total stays within `MAX_TOTAL_BYTES`,
/// and each file entry within `MAX_ENTRY_BYTES`.
pub proof fn lemma_extraction_is_bounded(
    staging: Seq<char>,
    name: Seq<char>,
    is_dir: bool,
    unix_mode: Option<u32>,
    declared: u64,
    total: u64,
    r: Result<(EntryAction, u64), ZipError>,
)
    requires
        total <= MAX_TOTAL_BYTES,
        entry_check(staging, name, is_dir, unix_mode, declared, total, r),
    ensures
        r matches Ok((_, t)) ==> total <= t <= MAX_TOTAL_BYTES,
        r matches Ok((EntryAction::WriteFile(_), _)) ==> declared <= MAX_ENTRY_BYTES,
        r is Ok ==> is_safe_entry_name(name),
{
}

} // verus!
