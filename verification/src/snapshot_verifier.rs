//! Checks that a directory holds exactly the files of a snapshot.
//!
//! The files found under the root are sorted by portable path and paired
//! with the manifest entries, which are strictly sorted: both lists must
//! have the same length, and at each position the path, the kind (a
//! regular file), the size and the content hash must agree, in that order.
//! A file is hashed only while its metadata stays as expected before and
//! after it is read.
use vstd::prelude::*;
use crate::digest::{hash_bytes, spec_hash_bytes};
use crate::skill_snapshot::{SkillSnapshotFile, SkillSnapshotManifest, SkillSnapshotRef, SnapshotError};
use crate::text::{seq_lt, str_eq, str_lt, lemma_seq_lt_asymmetric, lemma_seq_lt_total, lemma_seq_lt_transitive};

verus! {

broadcast use vstd::seq_lib::group_to_multiset_ensures, vstd::multiset::group_multiset_axioms;

#[derive(Debug)]
pub enum SnapshotVerificationError {
    Io(String),
    Blob(String),
    Snapshot(SnapshotError),
    InvalidRoot(String),
    SymlinkNotAllowed(String),
    UnsupportedFileType(String),
    PathEscapedRoot(String),
    NonUtf8Path(String),
    SourceChangedDuringVerification(String),
    InvalidPath(String),
    FileSetMismatch { expected: usize, actual: usize },
    PathMismatch { expected: String, actual: String },
    SizeMismatch { path: String, expected: u64, actual: u64 },
    HashMismatch { path: String, expected: String, actual: String },
    SizeOverflow,
}

/// A regular file found under the deployed root: its portable path
/// relative to the root, and where it lives.
#[derive(Debug, Clone)]
pub struct CollectedFile {
    pub path: String,
    pub location: String,
}

/// What the filesystem reports of an entry, without following links.
#[derive(Debug, Clone, Copy, PartialEq, Eq, Structural)]
pub struct FileStat {
    pub is_symlink: bool,
    pub is_file: bool,
    pub len: u64,
}

fn copy_string(s: &String) -> (r: String)
    ensures
        r@ == s@,
{
    s.as_str().to_owned()
}

// ---------------------------------------------------------------------
// Ordering the files found.
/// Non-decreasing by path.
pub open spec fn sorted_by_path(s: Seq<CollectedFile>) -> bool {
    forall|a: int, b: int| 0 <= a < b < s.len() ==> !seq_lt(s[b].path@, s[a].path@)
}

proof fn lemma_insert_sorted(out: Seq<CollectedFile>, p: int, x: CollectedFile)
    requires
        sorted_by_path(out),
        0 <= p <= out.len(),
        forall|q: int| 0 <= q < p ==> !seq_lt(x.path@, #[trigger] out[q].path@),
        p < out.len() ==> seq_lt(x.path@, out[p].path@),
    ensures
        sorted_by_path(out.insert(p, x)),
{
    let n = out.insert(p, x);
    assert forall|a: int, b: int| 0 <= a < b < n.len() implies !seq_lt(n[b].path@, n[a].path@) by {
        if b < p {
        } else if a < p && b == p {
        } else if a < p && b > p {
            assert(n[b] == out[b - 1]);
            assert(!seq_lt(out[b - 1].path@, out[a].path@));
        } else if a == p {
            assert(n[b] == out[b - 1]);
            let m = out[b - 1].path@;
            if b - 1 > p {
                assert(!seq_lt(m, out[p].path@));
                lemma_seq_lt_total(m, out[p].path@);
                lemma_seq_lt_transitive(x.path@, out[p].path@, m);
            }
            lemma_seq_lt_asymmetric(x.path@, m);
        } else {
            assert(n[a] == out[a - 1]);
            assert(n[b] == out[b - 1]);
        }
    }
}

/// The files, reordered by path (`sort_by` on the path; files with equal
/// paths may come in any order).
pub fn sort_by_path(files: Vec<CollectedFile>) -> (out: Vec<CollectedFile>)
    ensures
        sorted_by_path(out@),
        out@.to_multiset() == files@.to_multiset(),
{
    let mut rest = files;
    let mut out: Vec<CollectedFile> = Vec::new();
    let ghost all = rest@.to_multiset();
    while rest.len() > 0
        invariant
            sorted_by_path(out@),
            out@.to_multiset().add(rest@.to_multiset()) == all,
        decreases rest@.len(),
    {
        let ghost before = rest@;
        let x = rest.pop().unwrap();
        assert(before =~= rest@.push(x));
        let mut p: usize = 0;
        while p < out.len() && !str_lt(x.path.as_str(), out[p].path.as_str())
            invariant
                p <= out@.len(),
                forall|q: int| 0 <= q < p ==> !seq_lt(x.path@, #[trigger] out@[q].path@),
            decreases out@.len() - p,
        {
            p = p + 1;
        }
        proof {
            lemma_insert_sorted(out@, p as int, x);
        }
        let ghost prev = out@;
        out.insert(p, x);
        assert(out@.to_multiset() == prev.to_multiset().insert(x));
        assert(before.to_multiset() == rest@.to_multiset().insert(x));
    }
    assert(rest@.to_multiset() =~= vstd::multiset::Multiset::empty());
    out
}

// ---------------------------------------------------------------------
// Checks at each position.
/// Both lists have the same number of files.
pub fn check_file_count(manifest: &SkillSnapshotManifest, actual: usize) -> (r: Result<
    (),
    SnapshotVerificationError,
>)
    ensures
        r is Ok <==> actual == manifest.files@.len(),
        r matches Err(e) ==> e matches SnapshotVerificationError::FileSetMismatch {
            expected,
            actual: a,
        } && expected == manifest.files@.len() && a == actual,
{
    if actual != manifest.files.len() {
        return Err(
            SnapshotVerificationError::FileSetMismatch {
                expected: manifest.files.len(),
                actual,
            },
        );
    }
    Ok(())
}

/// The first disagreement between a manifest entry and the file found at
/// its position, before the content is read: path, kind, then size.
pub open spec fn file_fault(
    expected: SkillSnapshotFile,
    found: CollectedFile,
    stat: FileStat,
    r: Result<(), SnapshotVerificationError>,
) -> bool {
    if expected.path@ != found.path@ {
        r matches Err(SnapshotVerificationError::PathMismatch { expected: e, actual: a }) && e@
            == expected.path@ && a@ == found.path@
    } else if stat.is_symlink || !stat.is_file {
        r matches Err(SnapshotVerificationError::UnsupportedFileType(l)) && l@ == found.location@
    } else if stat.len != expected.size_bytes {
        r matches Err(SnapshotVerificationError::SizeMismatch { path, expected: e, actual: a })
            && path@ == expected.path@ && e == expected.size_bytes && a == stat.len
    } else {
        r is Ok
    }
}

/// Compares a manifest entry with the file found at its position: same
/// path, a regular file (not a link), and the recorded size.
pub fn check_file(expected: &SkillSnapshotFile, found: &CollectedFile, stat: FileStat) -> (r: Result<
    (),
    SnapshotVerificationError,
>)
    ensures
        file_fault(*expected, *found, stat, r),
{
    if !str_eq(expected.path.as_str(), found.path.as_str()) {
        return Err(
            SnapshotVerificationError::PathMismatch {
                expected: copy_string(&expected.path),
                actual: copy_string(&found.path),
            },
        );
    }
    if stat.is_symlink || !stat.is_file {
        return Err(SnapshotVerificationError::UnsupportedFileType(copy_string(&found.location)));
    }
    if stat.len != expected.size_bytes {
        return Err(
            SnapshotVerificationError::SizeMismatch {
                path: copy_string(&expected.path),
                expected: expected.size_bytes,
                actual: stat.len,
            },
        );
    }
    Ok(())
}

/// The metadata of a file that has not changed from what is expected.
pub open spec fn stat_is_stable(stat: FileStat, expected_size: u64) -> bool {
    !stat.is_symlink && stat.is_file && stat.len == expected_size
}

/// Hashes the content of the file at `location`, read between two looks at
/// its metadata (`before` and `after`). The file must stay a regular file
/// of `expected_size` bytes throughout, and exactly that many bytes must
/// have been read; otherwise it changed during verification.
pub fn stable_file_hash(
    location: &str,
    expected_size: u64,
    before: FileStat,
    contents: &[u8],
    after: FileStat,
) -> (r: Result<String, SnapshotVerificationError>)
    ensures
        r is Ok <==> stat_is_stable(before, expected_size) && contents@.len() == expected_size
            && stat_is_stable(after, expected_size),
        r matches Ok(h) ==> h@ == spec_hash_bytes(contents@),
        r matches Err(e) ==> e matches SnapshotVerificationError::SourceChangedDuringVerification(l)
            && l@ == location@,
{
    if before.is_symlink || !before.is_file || before.len != expected_size {
        return Err(SnapshotVerificationError::SourceChangedDuringVerification(location.to_owned()));
    }
    if contents.len() as u64 != expected_size {
        return Err(SnapshotVerificationError::SourceChangedDuringVerification(location.to_owned()));
    }
    if after.is_symlink || !after.is_file || after.len != expected_size {
        return Err(SnapshotVerificationError::SourceChangedDuringVerification(location.to_owned()));
    }
    Ok(hash_bytes(contents))
}

/// The content hash found must be the one the manifest records.
pub fn check_hash(expected: &SkillSnapshotFile, actual_hash: String) -> (r: Result<
    (),
    SnapshotVerificationError,
>)
    ensures
        r is Ok <==> actual_hash@ == expected.blob_hash@,
        r matches Err(e) ==> e matches SnapshotVerificationError::HashMismatch {
            path,
            expected: h,
            actual: a,
        } && path@ == expected.path@ && h@ == expected.blob_hash@ && a@ == actual_hash@,
{
    if !str_eq(actual_hash.as_str(), expected.blob_hash.as_str()) {
        return Err(
            SnapshotVerificationError::HashMismatch {
                path: copy_string(&expected.path),
                expected: copy_string(&expected.blob_hash),
                actual: actual_hash,
            },
        );
    }
    Ok(())
}

/// Adds a verified file's size to the running total.
pub fn add_verified_size(total: u64, size: u64) -> (r: Result<u64, SnapshotVerificationError>)
    ensures
        match r {
            Ok(t) => t == total + size,
            Err(e) => total + size > u64::MAX && e is SizeOverflow,
        },
{
    match total.checked_add(size) {
        Some(t) => Ok(t),
        None => Err(SnapshotVerificationError::SizeOverflow),
    }
}

/// The reference reported once every file has been verified.
pub fn verified_ref(manifest_hash: &str, manifest: &SkillSnapshotManifest, total_bytes: u64) -> (r:
    SkillSnapshotRef)
    ensures
        r.manifest_hash@ == manifest_hash@,
        r.file_count == manifest.files@.len(),
        r.total_bytes == total_bytes,
{
    SkillSnapshotRef {
        manifest_hash: manifest_hash.to_owned(),
        file_count: manifest.files.len(),
        total_bytes,
    }
}

/// Once every position has passed `check_file` and `check_hash`, the
/// directory holds exactly the manifest's files: same paths in the same
/// order, each a regular file with the recorded size and content hash.
pub proof fn lemma_all_checks_mean_exact_match(
    files: Seq<SkillSnapshotFile>,
    found: Seq<CollectedFile>,
    stats: Seq<FileStat>,
    hashes: Seq<Seq<char>>,
)
    requires
        found.len() == files.len(),
        stats.len() == files.len(),
        hashes.len() == files.len(),
        forall|i: int|
            0 <= i < files.len() ==> file_fault(
                #[trigger] files[i],
                found[i],
                stats[i],
                Ok::<(), SnapshotVerificationError>(()),
            ),
        forall|i: int| 0 <= i < files.len() ==> #[trigger] hashes[i] == files[i].blob_hash@,
    ensures
        forall|i: int|
            0 <= i < files.len() ==> (#[trigger] found[i]).path@ == files[i].path@
                && stat_is_stable(stats[i], files[i].size_bytes) && hashes[i]
                == files[i].blob_hash@,
{
    assert forall|i: int| 0 <= i < files.len() implies (#[trigger] found[i]).path@
        == files[i].path@ && stat_is_stable(stats[i], files[i].size_bytes) && hashes[i]
        == files[i].blob_hash@ by {
        assert(file_fault(files[i], found[i], stats[i], Ok::<(), SnapshotVerificationError>(())));
        assert(hashes[i] == files[i].blob_hash@);
    }
}

} // verus!
