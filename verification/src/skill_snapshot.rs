//! Immutable skill snapshots: manifest model and the rules a manifest must
//! satisfy before any of its files is materialized.
//!
//! A manifest lists the files of a skill package by portable relative path
//! (`/`-separated portable components), strictly sorted and unique, each
//! with a canonical blob identifier and a size. It must contain the
//! `SKILL.md` entrypoint and respect the snapshot policy's limits.
use vstd::prelude::*;
use crate::digest::{is_canonical_sha256, is_canonical_sha256_seq};
use crate::portable::{is_portable_segment, is_portable_segment_chars};
use crate::paths::{is_absolute, is_absolute_path, join, join_path};
use crate::text::{
    chars_of, has_char, lemma_seg_len_bound, lemma_seg_len_is, lemma_split_append, push_char, seq_lt,
    split_slash, str_eq, str_lt, string_from_chars,
};

verus! {

pub const SNAPSHOT_FORMAT_VERSION: u32 = 1;

pub const SKILL_ENTRYPOINT: &'static str = "SKILL.md";

#[derive(Debug, Clone, Copy)]
pub struct SnapshotPolicy {
    pub max_files: usize,
    pub max_file_bytes: u64,
    pub max_total_bytes: u64,
}

impl SnapshotPolicy {
    /// 10 000 files, 64 MiB per file, 512 MiB in total.
    pub open spec fn spec_standard() -> SnapshotPolicy {
        SnapshotPolicy {
            max_files: 10_000,
            max_file_bytes: 67_108_864,
            max_total_bytes: 536_870_912,
        }
    }

    /// The standard policy.
    pub fn standard() -> (p: SnapshotPolicy)
        ensures
            p == SnapshotPolicy::spec_standard(),
    {
        SnapshotPolicy {
            max_files: 10_000,
            max_file_bytes: 64 * 1024 * 1024,
            max_total_bytes: 512 * 1024 * 1024,
        }
    }
}

impl Default for SnapshotPolicy {
    fn default() -> (p: SnapshotPolicy)
        ensures
            p == SnapshotPolicy::spec_standard(),
    {
        SnapshotPolicy::standard()
    }
}

#[derive(Debug, Clone, PartialEq, Eq)]
pub struct SkillSnapshotManifest {
    pub format_version: u32,
    pub files: Vec<SkillSnapshotFile>,
}

#[derive(Debug, Clone, PartialEq, Eq)]
pub struct SkillSnapshotFile {
    pub path: String,
    pub blob_hash: String,
    pub size_bytes: u64,
}

#[derive(Debug, Clone, PartialEq, Eq)]
pub struct SkillSnapshotRef {
    pub manifest_hash: String,
    pub file_count: usize,
    pub total_bytes: u64,
}

#[derive(Debug)]
pub enum SnapshotError {
    Io(String),
    Blob(String),
    Serialization(String),
    InvalidWorkspace(String),
    MissingEntrypoint(String),
    SymlinkNotAllowed(String),
    UnsupportedFileType(String),
    PathEscapedRoot(String),
    NonUtf8Path(String),
    SourceChangedDuringCapture(String),
    TooManyFiles { limit: usize },
    FileTooLarge { path: String, size: u64, limit: u64 },
    SnapshotTooLarge { size: u64, limit: u64 },
    SizeOverflow,
    UnsupportedFormat(u32),
    InvalidManifestPath(String),
    ManifestNotStrictlySorted,
    InvalidBlobHash(String),
    DestinationExists(String),
    InvalidDestination(String),
    UnsafeMaterializationPath(String),
    BlobSizeMismatch { path: String, expected: u64, actual: u64 },
}

pub open spec fn entrypoint_seq() -> Seq<char> {
    seq!['S', 'K', 'I', 'L', 'L', '.', 'm', 'd']
}

// ---------------------------------------------------------------------
// Portable relative paths.

/// The components of a portable relative path, or `None` when the path is
/// empty, rooted, contains `\`, or has a non-portable component.
pub open spec fn spec_portable_path(s: Seq<char>) -> Option<Seq<Seq<char>>> {
    if s.len() == 0 || s[0] == '/' || has_char(s, '\\') {
        None
    } else if forall|i: int|
        0 <= i < split_slash(s).len() ==> is_portable_segment(#[trigger] split_slash(s)[i]) {
        Some(split_slash(s))
    } else {
        None
    }
}

pub open spec fn views_of(v: Seq<String>) -> Seq<Seq<char>> {
    v.map_values(|s: String| s@)
}

/// Splits a manifest path into its components, rejecting anything that is
/// not a portable relative path.
pub fn portable_path_to_relative(value: &str) -> (r: Result<Vec<String>, SnapshotError>)
    ensures
        match r {
            Ok(parts) => spec_portable_path(value@) == Some(views_of(parts@)),
            Err(SnapshotError::InvalidManifestPath(_)) => spec_portable_path(value@) is None,
            Err(_) => false,
        },
{
    let v = chars_of(value);
    let n = v.len();
    if n == 0 || v[0] == '/' || crate::text::contains_char(v.as_slice(), '\\') {
        return Err(SnapshotError::InvalidManifestPath(value.to_owned()));
    }
    let ghost s = v@;
    let mut parts: Vec<String> = Vec::new();
    let mut p: usize = 0;
    assert(s.skip(0) =~= s);
    assert(views_of(parts@) + split_slash(s) =~= split_slash(s));
    loop
        invariant
            p <= n,
            n == s.len(),
            s == v@,
            s == value@,
            n > 0,
            s[0] != '/',
            !has_char(s, '\\'),
            split_slash(s) == views_of(parts@) + split_slash(s.skip(p as int)),
            forall|i: int| 0 <= i < parts@.len() ==> is_portable_segment(#[trigger] parts@[i]@),
        decreases n - p,
    {
        let mut k: usize = p;
        while k < n && v[k] != '/'
            invariant
                p <= k <= n,
                n == v@.len(),
                forall|j: int| p <= j < k ==> v@[j] != '/',
            decreases n - k,
        {
            k = k + 1;
        }
        let ghost t = s.skip(p as int);
        proof {
            lemma_seg_len_is(t, (k - p) as int);
        }
        let mut seg: Vec<char> = Vec::new();
        let mut q: usize = p;
        while q < k
            invariant
                p <= q <= k <= n,
                n == v@.len(),
                seg@ == v@.subrange(p as int, q as int),
            decreases k - q,
        {
            seg.push(v[q]);
            q = q + 1;
            assert(seg@ =~= v@.subrange(p as int, q as int));
        }
        assert(seg@ =~= t.take((k - p) as int));
        if !is_portable_segment_chars(seg.as_slice()) {
            proof {
                if k >= n {
                    assert(t.take((k - p) as int) =~= t);
                    assert(split_slash(t) == seq![t]);
                } else {
                    assert(split_slash(t) == seq![t.take((k - p) as int)] + split_slash(
                        t.skip((k - p) as int + 1),
                    ));
                }
                let idx = parts@.len() as int;
                assert(split_slash(s)[idx] == seg@);
            }
            return Err(SnapshotError::InvalidManifestPath(value.to_owned()));
        }
        let part = string_from_chars(seg.as_slice());
        let ghost old_parts = parts@;
        parts.push(part);
        assert(views_of(parts@) =~= views_of(old_parts) + seq![seg@]);
        if k >= n {
            proof {
                assert(t.take((k - p) as int) =~= t);
                assert(split_slash(t) == seq![t]);
                assert(split_slash(s) =~= views_of(parts@));
                assert forall|i: int|
                    0 <= i < split_slash(s).len() implies is_portable_segment(
                    #[trigger] split_slash(s)[i],
                ) by {
                    assert(split_slash(s)[i] == parts@[i]@);
                }
            }
            return Ok(parts);
        }
        proof {
            assert(split_slash(t) == seq![t.take((k - p) as int)] + split_slash(
                t.skip((k - p) as int + 1),
            ));
            assert(t.skip((k - p) as int + 1) =~= s.skip(k as int + 1));
            assert(split_slash(s) =~= views_of(parts@) + split_slash(s.skip(k as int + 1)));
        }
        p = k + 1;
    }
}

/// One component of a relative path: portable, and free of the `/`
/// separator (a path component never holds its own separator).
pub open spec fn is_path_component(s: Seq<char>) -> bool {
    is_portable_segment(s) && !has_char(s, '/')
}

/// Joins path components with `/`; an empty list, or a component that is
/// not portable, is rejected.
pub fn relative_to_portable_path(parts: &[String]) -> (r: Result<String, SnapshotError>)
    ensures
        match r {
            Ok(s) => parts@.len() > 0 && (forall|i: int|
                0 <= i < parts@.len() ==> is_path_component(#[trigger] parts@[i]@))
                && spec_portable_path(s@) == Some(views_of(parts@)),
            Err(SnapshotError::InvalidManifestPath(_)) => parts@.len() == 0 || exists|i: int|
                0 <= i < parts@.len() && !is_path_component(#[trigger] parts@[i]@),
            Err(_) => false,
        },
{
    if parts.len() == 0 {
        return Err(SnapshotError::InvalidManifestPath(String::new()));
    }
    let mut i: usize = 0;
    while i < parts.len()
        invariant
            i <= parts@.len(),
            forall|k: int| 0 <= k < i ==> is_path_component(#[trigger] parts@[k]@),
        decreases parts@.len() - i,
    {
        let seg = chars_of(parts[i].as_str());
        if !is_portable_segment_chars(seg.as_slice()) || crate::text::contains_char(
            seg.as_slice(),
            '/',
        ) {
            assert(!is_path_component(parts@[i as int]@));
            return Err(SnapshotError::InvalidManifestPath(parts[i].clone()));
        }
        i = i + 1;
    }
    let mut out = String::new();
    let mut j: usize = 0;
    while j < parts.len()
        invariant
            0 < parts@.len(),
            j <= parts@.len(),
            forall|k: int| 0 <= k < parts@.len() ==> is_path_component(#[trigger] parts@[k]@),
            j == 0 ==> out@.len() == 0,
            j > 0 ==> split_slash(out@) == views_of(parts@.take(j as int)),
            j > 0 ==> out@.len() > 0 && out@[0] != '/' && !has_char(out@, '\\'),
        decreases parts@.len() - j,
    {
        let seg = chars_of(parts[j].as_str());
        let ghost before = out@;
        if j > 0 {
            push_char(&mut out, '/');
        }
        let mut q: usize = 0;
        let ghost mid = out@;
        while q < seg.len()
            invariant
                q <= seg@.len(),
                out@ == mid + seg@.take(q as int),
            decreases seg@.len() - q,
        {
            push_char(&mut out, seg[q]);
            q = q + 1;
            assert(out@ =~= mid + seg@.take(q as int));
        }
        assert(seg@.take(seg@.len() as int) =~= seg@);
        proof {
            let sg = parts@[j as int]@;
            assert(is_path_component(sg));
            assert forall|c: int| 0 <= c < sg.len() implies sg[c] != '/' && sg[c] != '\\' by {
                if sg[c] == '\\' {
                    assert(crate::portable::is_forbidden_name_char(sg[c]));
                }
            }
            lemma_split_append(before, sg, j > 0);
            if j > 0 {
                assert(out@ =~= before + seq!['/'] + sg);
            } else {
                assert(out@ =~= before + sg);
            }
            assert(parts@.take(j as int + 1) =~= parts@.take(j as int).push(parts@[j as int]));
            assert(views_of(parts@.take(j as int + 1)) =~= views_of(parts@.take(j as int)).push(
                sg,
            ));
            if j == 0 {
                assert(out@ =~= sg);
                assert(sg.len() > 0);
            }
            assert(out@.len() > 0);
            assert(out@[0] != '/') by {
                if j > 0 {
                    assert(out@[0] == before[0]);
                }
            }
            assert(!has_char(out@, '\\')) by {
                assert forall|c: int| 0 <= c < out@.len() implies out@[c] != '\\' by {
                    if c < before.len() {
                        assert(out@[c] == before[c]);
                    } else if j > 0 && c == before.len() {
                    } else {
                        let off = if j > 0 {
                            before.len() + 1
                        } else {
                            0
                        };
                        assert(out@[c] == sg[c - off]);
                    }
                }
            }
        }
        j = j + 1;
    }
    assert(parts@.take(parts@.len() as int) =~= parts@);
    proof {
        assert forall|i: int|
            0 <= i < split_slash(out@).len() implies is_portable_segment(
            #[trigger] split_slash(out@)[i],
        ) by {
            assert(split_slash(out@)[i] == parts@[i]@);
        }
    }
    Ok(out)
}

// ---------------------------------------------------------------------
// Manifest validation.
/// Why a manifest was refused, with the values the refusal reports.
pub enum ManifestFault {
    TooManyFiles { limit: usize },
    InvalidPath,
    NotStrictlySorted,
    InvalidBlobHash(Seq<char>),
    FileTooLarge { path: Seq<char>, size: u64, limit: u64 },
    SizeOverflow,
    SnapshotTooLarge { size: int, limit: u64 },
    MissingEntrypoint,
}

/// The refusal that an error value reports, if it is one of the manifest
/// refusals.
pub open spec fn fault_of(e: SnapshotError) -> Option<ManifestFault> {
    match e {
        SnapshotError::TooManyFiles { limit } => Some(ManifestFault::TooManyFiles { limit }),
        SnapshotError::InvalidManifestPath(_) => Some(ManifestFault::InvalidPath),
        SnapshotError::ManifestNotStrictlySorted => Some(ManifestFault::NotStrictlySorted),
        SnapshotError::InvalidBlobHash(h) => Some(ManifestFault::InvalidBlobHash(h@)),
        SnapshotError::FileTooLarge { path, size, limit } => Some(
            ManifestFault::FileTooLarge { path: path@, size, limit },
        ),
        SnapshotError::SizeOverflow => Some(ManifestFault::SizeOverflow),
        SnapshotError::SnapshotTooLarge { size, limit } => Some(
            ManifestFault::SnapshotTooLarge { size: size as int, limit },
        ),
        SnapshotError::MissingEntrypoint(_) => Some(ManifestFault::MissingEntrypoint),
        _ => None,
    }
}

/// The size check of one file.
pub open spec fn file_size_fault(path: Seq<char>, size: u64, policy: SnapshotPolicy) -> Option<
    ManifestFault,
> {
    if size > policy.max_file_bytes {
        Some(ManifestFault::FileTooLarge { path, size, limit: policy.max_file_bytes })
    } else {
        None
    }
}

/// The running-total check: the sum must fit in a `u64` and stay within
/// the policy's total.
pub open spec fn total_fault(current: int, additional: int, policy: SnapshotPolicy) -> Option<
    ManifestFault,
> {
    if current + additional > u64::MAX {
        Some(ManifestFault::SizeOverflow)
    } else if current + additional > policy.max_total_bytes {
        Some(ManifestFault::SnapshotTooLarge { size: current + additional, limit: policy.max_total_bytes })
    } else {
        None
    }
}

/// The checks on the `i`-th entry of a manifest, in the order they run,
/// given the total of the entries before it.
pub open spec fn entry_fault(
    files: Seq<SkillSnapshotFile>,
    i: int,
    total: int,
    policy: SnapshotPolicy,
) -> Option<ManifestFault> {
    let f = files[i];
    if spec_portable_path(f.path@) is None {
        Some(ManifestFault::InvalidPath)
    } else if i > 0 && !seq_lt(files[i - 1].path@, f.path@) {
        Some(ManifestFault::NotStrictlySorted)
    } else if !is_canonical_sha256_seq(f.blob_hash@) {
        Some(ManifestFault::InvalidBlobHash(f.blob_hash@))
    } else if file_size_fault(f.path@, f.size_bytes, policy) is Some {
        file_size_fault(f.path@, f.size_bytes, policy)
    } else {
        total_fault(total, f.size_bytes as int, policy)
    }
}

/// The first refusal among the entries from `i` on.
pub open spec fn entries_fault_from(
    files: Seq<SkillSnapshotFile>,
    i: int,
    total: int,
    policy: SnapshotPolicy,
) -> Option<ManifestFault>
    decreases files.len() - i,
{
    if i < 0 || i >= files.len() {
        None
    } else if entry_fault(files, i, total, policy) is Some {
        entry_fault(files, i, total, policy)
    } else {
        entries_fault_from(files, i + 1, total + files[i].size_bytes, policy)
    }
}

/// The manifest lists the `SKILL.md` entrypoint.
pub open spec fn has_entrypoint(files: Seq<SkillSnapshotFile>) -> bool {
    exists|i: int| 0 <= i < files.len() && #[trigger] files[i].path@ == entrypoint_seq()
}

/// The refusal of a manifest under a policy, or `None` when it is valid.
pub open spec fn manifest_fault(files: Seq<SkillSnapshotFile>, policy: SnapshotPolicy) -> Option<
    ManifestFault,
> {
    if files.len() > policy.max_files {
        Some(ManifestFault::TooManyFiles { limit: policy.max_files })
    } else if entries_fault_from(files, 0, 0, policy) is Some {
        entries_fault_from(files, 0, 0, policy)
    } else if !has_entrypoint(files) {
        Some(ManifestFault::MissingEntrypoint)
    } else {
        None
    }
}

/// Sum of the sizes of a list of files.
pub open spec fn sum_sizes(files: Seq<SkillSnapshotFile>) -> int
    decreases files.len(),
{
    if files.len() == 0 {
        0
    } else {
        sum_sizes(files.drop_last()) + files.last().size_bytes
    }
}

/// Sum of the sizes of the files from index `i` on.
pub open spec fn sizes_from(files: Seq<SkillSnapshotFile>, i: int) -> nat
    decreases files.len() - i,
{
    if i < 0 || i >= files.len() {
        0
    } else {
        (files[i].size_bytes + sizes_from(files, i + 1)) as nat
    }
}

/// The `k`-th entry on its own is acceptable: a portable path that sorts
/// strictly after the previous entry's, a canonical blob identifier, and
/// a size within the per-file limit.
pub open spec fn entry_acceptable(files: Seq<SkillSnapshotFile>, k: int, policy: SnapshotPolicy) -> bool {
    &&& spec_portable_path(files[k].path@) is Some
    &&& k > 0 ==> seq_lt(files[k - 1].path@, files[k].path@)
    &&& is_canonical_sha256_seq(files[k].blob_hash@)
    &&& files[k].size_bytes <= policy.max_file_bytes
}

/// A manifest a policy accepts, stated directly: not too many entries,
/// every entry acceptable (so paths strictly increase), a `SKILL.md`
/// entry, and a total size within the policy's limit.
pub open spec fn manifest_acceptable(files: Seq<SkillSnapshotFile>, policy: SnapshotPolicy) -> bool {
    &&& files.len() <= policy.max_files
    &&& forall|k: int| 0 <= k < files.len() ==> #[trigger] entry_acceptable(files, k, policy)
    &&& has_entrypoint(files)
    &&& sum_sizes(files) <= policy.max_total_bytes
}

proof fn lemma_entries_fault_from(files: Seq<SkillSnapshotFile>, i: int, total: int, policy: SnapshotPolicy)
    requires
        0 <= i <= files.len(),
        0 <= total <= policy.max_total_bytes,
    ensures
        entries_fault_from(files, i, total, policy) is None <==> (forall|k: int|
            i <= k < files.len() ==> #[trigger] entry_acceptable(files, k, policy)) && total
            + sizes_from(files, i) <= policy.max_total_bytes,
    decreases files.len() - i,
{
    if i < files.len() {
        if total + files[i].size_bytes <= policy.max_total_bytes {
            lemma_entries_fault_from(files, i + 1, total + files[i].size_bytes, policy);
        }
        if entries_fault_from(files, i, total, policy) is None {
            assert forall|k: int| i <= k < files.len() implies #[trigger] entry_acceptable(files, k, policy) by {
                if k == i {
                    assert(entry_fault(files, i, total, policy) is None);
                }
            }
        }
        if (forall|k: int| i <= k < files.len() ==> #[trigger] entry_acceptable(files, k, policy)) && total
            + sizes_from(files, i) <= policy.max_total_bytes {
            assert(entry_acceptable(files, i, policy));
            assert(entry_fault(files, i, total, policy) is None);
        }
    }
}

proof fn lemma_sizes_from_drop_last(files: Seq<SkillSnapshotFile>, i: int)
    requires
        0 <= i < files.len(),
    ensures
        sizes_from(files, i) == sizes_from(files.drop_last(), i) + files.last().size_bytes,
    decreases files.len() - i,
{
    if i + 1 < files.len() {
        lemma_sizes_from_drop_last(files, i + 1);
        assert(files.drop_last()[i] == files[i]);
    } else {
        assert(sizes_from(files, i + 1) == 0);
        assert(sizes_from(files.drop_last(), i) == 0);
    }
}

proof fn lemma_sizes_from_is_sum(files: Seq<SkillSnapshotFile>)
    ensures
        sizes_from(files, 0) == sum_sizes(files),
    decreases files.len(),
{
    if files.len() > 0 {
        lemma_sizes_from_drop_last(files, 0);
        lemma_sizes_from_is_sum(files.drop_last());
    }
}

/// A manifest passes `validate_manifest` under a policy exactly when it
/// is acceptable in the direct sense of `manifest_acceptable`: the ordered
/// checks with a running total accept the same manifests as the plain
/// conditions with the total of all sizes.
pub proof fn lemma_manifest_acceptance(files: Seq<SkillSnapshotFile>, policy: SnapshotPolicy)
    ensures
        manifest_fault(files, policy) is None <==> manifest_acceptable(files, policy),
{
    lemma_entries_fault_from(files, 0, 0, policy);
    lemma_sizes_from_is_sum(files);
}

/// Refuses a file larger than the policy's per-file limit.
pub fn enforce_file_size(path: &str, size: u64, policy: SnapshotPolicy) -> (r: Result<
    (),
    SnapshotError,
>)
    ensures
        match r {
            Ok(()) => file_size_fault(path@, size, policy) is None,
            Err(e) => fault_of(e) == file_size_fault(path@, size, policy) && fault_of(e) is Some,
        },
{
    if size > policy.max_file_bytes {
        return Err(
            SnapshotError::FileTooLarge {
                path: path.to_owned(),
                size,
                limit: policy.max_file_bytes,
            },
        );
    }
    Ok(())
}

/// Adds a file's size to a running total, refusing overflow and a total
/// above the policy's limit.
pub fn add_and_enforce_total(current: u64, additional: u64, policy: SnapshotPolicy) -> (r: Result<
    u64,
    SnapshotError,
>)
    ensures
        match r {
            Ok(t) => total_fault(current as int, additional as int, policy) is None && t
                == current + additional,
            Err(e) => fault_of(e) == total_fault(current as int, additional as int, policy)
                && fault_of(e) is Some,
        },
{
    let total = match current.checked_add(additional) {
        Some(t) => t,
        None => {
            return Err(SnapshotError::SizeOverflow);
        },
    };
    if total > policy.max_total_bytes {
        return Err(SnapshotError::SnapshotTooLarge { size: total, limit: policy.max_total_bytes });
    }
    Ok(total)
}

proof fn lemma_entrypoint_literal()
    ensures
        "SKILL.md"@ == entrypoint_seq(),
{
    reveal_strlit("SKILL.md");
    assert("SKILL.md"@ =~= entrypoint_seq());
}

/// Checks a manifest against a policy: at most `max_files` entries; every
/// path portable; paths strictly increasing; canonical blob identifiers;
/// per-file and total size limits; and a `SKILL.md` entry. The first
/// failing check, in that order, is reported.
pub fn validate_manifest(manifest: &SkillSnapshotManifest, policy: SnapshotPolicy) -> (r: Result<
    (),
    SnapshotError,
>)
    ensures
        match r {
            Ok(()) => manifest_fault(manifest.files@, policy) is None,
            Err(e) => fault_of(e) == manifest_fault(manifest.files@, policy) && fault_of(e) is Some,
        },
{
    let files = &manifest.files;
    let n = files.len();
    if n > policy.max_files {
        return Err(SnapshotError::TooManyFiles { limit: policy.max_files });
    }
    let ghost fs = files@;
    let mut total: u64 = 0;
    let mut found = false;
    let mut i: usize = 0;
    proof {
        lemma_entrypoint_literal();
    }
    while i < n
        invariant
            n == fs.len(),
            fs == files@,
            fs == manifest.files@,
            n <= policy.max_files,
            i <= n,
            entries_fault_from(fs, 0, 0, policy) == entries_fault_from(
                fs,
                i as int,
                total as int,
                policy,
            ),
            found <==> exists|j: int| 0 <= j < i && #[trigger] fs[j].path@ == entrypoint_seq(),
            "SKILL.md"@ == entrypoint_seq(),
        decreases n - i,
    {
        let f = &files[i];
        let ghost ef = entry_fault(fs, i as int, total as int, policy);
        proof {
            assert(entries_fault_from(fs, i as int, total as int, policy) == if ef is Some {
                ef
            } else {
                entries_fault_from(fs, i as int + 1, total + fs[i as int].size_bytes, policy)
            });
        }
        let step = check_entry(files.as_slice(), i, total, policy);
        match step {
            Ok(t) => {
                if str_eq(f.path.as_str(), "SKILL.md") {
                    found = true;
                }
                total = t;
            },
            Err(e) => {
                assert(fault_of(e) == manifest_fault(fs, policy));
                return Err(e);
            },
        }
        i = i + 1;
    }
    if !found {
        let e = SnapshotError::MissingEntrypoint(String::from_str("SKILL.md"));
        assert(fault_of(e) == manifest_fault(fs, policy));
        return Err(e);
    }
    Ok(())
}

/// The checks on one manifest entry, in order; on success, the new
/// running total.
fn check_entry(files: &[SkillSnapshotFile], i: usize, total: u64, policy: SnapshotPolicy) -> (r:
    Result<u64, SnapshotError>)
    requires
        i < files@.len(),
    ensures
        match r {
            Ok(t) => entry_fault(files@, i as int, total as int, policy) is None && t == total
                + files@[i as int].size_bytes,
            Err(e) => fault_of(e) == entry_fault(files@, i as int, total as int, policy)
                && fault_of(e) is Some,
        },
{
    let f = &files[i];
    match portable_path_to_relative(f.path.as_str()) {
        Ok(_) => {},
        Err(e) => {
            return Err(e);
        },
    }
    if i > 0 && !str_lt(files[i - 1].path.as_str(), f.path.as_str()) {
        let e = SnapshotError::ManifestNotStrictlySorted;
        assert(fault_of(e) == Some(ManifestFault::NotStrictlySorted));
        return Err(e);
    }
    if !is_canonical_sha256(f.blob_hash.as_str()) {
        let e = SnapshotError::InvalidBlobHash(f.blob_hash.clone());
        assert(fault_of(e) == Some(ManifestFault::InvalidBlobHash(f.blob_hash@)));
        return Err(e);
    }
    enforce_file_size(f.path.as_str(), f.size_bytes, policy)?;
    add_and_enforce_total(total, f.size_bytes, policy)
}

// ---------------------------------------------------------------------
// Reading and materializing a stored manifest.
/// Accepts a decoded manifest under `policy`: its format version must be the
/// supported one, and it must pass `validate_manifest`.
pub fn read_manifest_with_policy(decoded: SkillSnapshotManifest, policy: SnapshotPolicy) -> (r:
    Result<SkillSnapshotManifest, SnapshotError>)
    ensures
        match r {
            Ok(m) => m == decoded && decoded.format_version == SNAPSHOT_FORMAT_VERSION
                && manifest_fault(decoded.files@, policy) is None,
            Err(SnapshotError::UnsupportedFormat(v)) => v == decoded.format_version && v
                != SNAPSHOT_FORMAT_VERSION,
            Err(e) => decoded.format_version == SNAPSHOT_FORMAT_VERSION && fault_of(e)
                == manifest_fault(decoded.files@, policy) && fault_of(e) is Some,
        },
{
    if decoded.format_version != SNAPSHOT_FORMAT_VERSION {
        return Err(SnapshotError::UnsupportedFormat(decoded.format_version));
    }
    validate_manifest(&decoded, policy)?;
    Ok(decoded)
}

/// `read_manifest_with_policy` under the standard policy.
pub fn read_manifest(decoded: SkillSnapshotManifest) -> (r: Result<
    SkillSnapshotManifest,
    SnapshotError,
>)
    ensures
        match r {
            Ok(m) => m == decoded && decoded.format_version == SNAPSHOT_FORMAT_VERSION
                && manifest_fault(decoded.files@, SnapshotPolicy::spec_standard()) is None,
            Err(SnapshotError::UnsupportedFormat(v)) => v == decoded.format_version && v
                != SNAPSHOT_FORMAT_VERSION,
            Err(e) => decoded.format_version == SNAPSHOT_FORMAT_VERSION && fault_of(e)
                == manifest_fault(decoded.files@, SnapshotPolicy::spec_standard()) && fault_of(
                e,
            ) is Some,
        },
{
    read_manifest_with_policy(decoded, SnapshotPolicy::standard())
}

// ---------------------------------------------------------------------
// Capturing a workspace.
/// One file of a workspace being captured: its portable path, where it was
/// read, how many bytes were read, and the blob its bytes were stored as.
#[derive(Debug, Clone, PartialEq, Eq)]
pub struct CapturedFile {
    pub path: String,
    pub location: String,
    pub size: u64,
    pub blob_hash: String,
}

/// The size checks of the captured files from `i` on, given the total of
/// those before: each file's own size, then the running total.
pub open spec fn capture_fault_from(
    files: Seq<CapturedFile>,
    i: int,
    total: int,
    policy: SnapshotPolicy,
) -> Option<ManifestFault>
    decreases files.len() - i,
{
    if i < 0 || i >= files.len() {
        None
    } else if file_size_fault(files[i].location@, files[i].size, policy) is Some {
        file_size_fault(files[i].location@, files[i].size, policy)
    } else if total_fault(total, files[i].size as int, policy) is Some {
        total_fault(total, files[i].size as int, policy)
    } else {
        capture_fault_from(files, i + 1, total + files[i].size, policy)
    }
}

/// The manifest entry of a captured file.
pub open spec fn captured_entry(f: CapturedFile) -> SkillSnapshotFile {
    SkillSnapshotFile { path: f.path, blob_hash: f.blob_hash, size_bytes: f.size }
}

/// The manifest entries of captured files, in order.
pub open spec fn captured_entries(files: Seq<CapturedFile>) -> Seq<SkillSnapshotFile> {
    files.map_values(|f: CapturedFile| captured_entry(f))
}

/// The workspace holds a `SKILL.md` at its top level (`files` are the
/// files found, by portable path).
pub fn require_entrypoint(
    workspace: &str,
    files: &Vec<crate::snapshot_verifier::CollectedFile>,
) -> (r: Result<(), SnapshotError>)
    ensures
        r is Ok <==> exists|i: int| 0 <= i < files@.len() && #[trigger] files@[i].path@ == entrypoint_seq(),
        r matches Err(e) ==> e matches SnapshotError::MissingEntrypoint(p) && p@ == join_path(
            workspace@,
            entrypoint_seq(),
        ),
{
    proof {
        lemma_entrypoint_literal();
    }
    let mut i: usize = 0;
    while i < files.len()
        invariant
            i <= files@.len(),
            forall|k: int| 0 <= k < i ==> files@[k].path@ != entrypoint_seq(),
            "SKILL.md"@ == entrypoint_seq(),
        decreases files@.len() - i,
    {
        if str_eq(files[i].path.as_str(), "SKILL.md") {
            assert(files@[i as int].path@ == entrypoint_seq());
            return Ok(());
        }
        i = i + 1;
    }
    Err(SnapshotError::MissingEntrypoint(join(workspace, "SKILL.md")))
}

/// Builds the manifest of a captured workspace, from its files sorted by
/// path. Each file's size is checked against the per-file limit and then
/// added to the running total, which must stay within the policy, in file
/// order; the manifest then passes `validate_manifest`. Returns the
/// manifest and the total size.
pub fn capture_manifest(files: Vec<CapturedFile>, policy: SnapshotPolicy) -> (r: Result<
    (SkillSnapshotManifest, u64),
    SnapshotError,
>)
    ensures
        match capture_fault_from(files@, 0, 0, policy) {
            Some(f) => r matches Err(e) && fault_of(e) == Some(f),
            None => match manifest_fault(captured_entries(files@), policy) {
                Some(f) => r matches Err(e) && fault_of(e) == Some(f),
                None => r matches Ok((m, total)) && m.format_version == SNAPSHOT_FORMAT_VERSION
                    && m.files@ == captured_entries(files@) && total == sum_sizes(m.files@),
            },
        },
{
    let ghost all = files@;
    let mut total: u64 = 0;
    let mut entries: Vec<SkillSnapshotFile> = Vec::new();
    let mut i: usize = 0;
    while i < files.len()
        invariant
            i <= files@.len(),
            all == files@,
            entries@ == captured_entries(all.take(i as int)),
            total == sum_sizes(entries@),
            capture_fault_from(all, 0, 0, policy) == capture_fault_from(all, i as int, total as int, policy),
        decreases files@.len() - i,
    {
        let f = &files[i];
        enforce_file_size(f.location.as_str(), f.size, policy)?;
        let next = add_and_enforce_total(total, f.size, policy)?;
        let ghost before = entries@;
        entries.push(SkillSnapshotFile { path: f.path.clone(), blob_hash: f.blob_hash.clone(), size_bytes: f.size });
        assert(entries@ =~= captured_entries(all.take(i + 1))) by {
            assert(all.take(i + 1) =~= all.take(i as int).push(all[i as int]));
        }
        assert(entries@.drop_last() =~= before);
        total = next;
        i = i + 1;
    }
    assert(all.take(all.len() as int) =~= all);
    let manifest = SkillSnapshotManifest { format_version: SNAPSHOT_FORMAT_VERSION, files: entries };
    validate_manifest(&manifest, policy)?;
    Ok((manifest, total))
}

/// One file to write when materializing a snapshot.
#[derive(Debug, Clone, PartialEq, Eq)]
pub struct MaterializedFile {
    /// The manifest path.
    pub path: String,
    /// Where the file goes: the destination joined with the manifest path.
    pub target: String,
    pub blob_hash: String,
    pub size_bytes: u64,
}

/// Everything a materialization writes, and the reference it reports.
#[derive(Debug, Clone, PartialEq, Eq)]
pub struct MaterializationPlan {
    pub files: Vec<MaterializedFile>,
    pub snapshot: SkillSnapshotRef,
}

/// The plan entry for manifest entry `f` under `destination`.
pub open spec fn planned_file(f: SkillSnapshotFile, destination: Seq<char>, m: MaterializedFile) -> bool {
    &&& m.path@ == f.path@
    &&& m.target@ == join_path(destination, f.path@)
    &&& m.blob_hash@ == f.blob_hash@
    &&& m.size_bytes == f.size_bytes
}

/// What planning a materialization gives: the destination must not exist
/// and must be absolute (checked first, in that order); a manifest that
/// could not be read or decoded reports that error; then the manifest is
/// accepted as `read_manifest_with_policy` does; the plan writes each entry
/// to the destination joined with its path, and reports the manifest hash,
/// the entry count and the sum of the sizes.
pub open spec fn materialize_outcome(
    manifest_hash: Seq<char>,
    decoded: Result<SkillSnapshotManifest, SnapshotError>,
    destination: Seq<char>,
    destination_exists: bool,
    policy: SnapshotPolicy,
    r: Result<MaterializationPlan, SnapshotError>,
) -> bool {
    if destination_exists {
        r matches Err(SnapshotError::DestinationExists(d)) && d@ == destination
    } else if !is_absolute_path(destination) {
        r matches Err(SnapshotError::InvalidDestination(d)) && d@ == destination
    } else {
        match decoded {
            Err(e) => r == Err::<MaterializationPlan, SnapshotError>(e),
            Ok(m) => if m.format_version != SNAPSHOT_FORMAT_VERSION {
                r == Err::<MaterializationPlan, SnapshotError>(
                    SnapshotError::UnsupportedFormat(m.format_version),
                )
            } else if manifest_fault(m.files@, policy) is Some {
                r matches Err(e) && fault_of(e) == manifest_fault(m.files@, policy)
            } else {
                r matches Ok(plan) && plan.snapshot.manifest_hash@ == manifest_hash
                    && plan.snapshot.file_count == m.files@.len()
                    && plan.snapshot.total_bytes == sum_sizes(m.files@)
                    && plan.files@.len() == m.files@.len()
                    && forall|i: int|
                    0 <= i < m.files@.len() ==> planned_file(
                        #[trigger] m.files@[i],
                        destination,
                        plan.files@[i],
                    )
            },
        }
    }
}

/// Plans the materialization of a stored snapshot into `destination`.
///
/// `decoded` is what reading and decoding the manifest blob gave.
pub fn materialize_snapshot_with_policy(
    manifest_hash: &str,
    decoded: Result<SkillSnapshotManifest, SnapshotError>,
    destination: &str,
    destination_exists: bool,
    policy: SnapshotPolicy,
) -> (r: Result<MaterializationPlan, SnapshotError>)
    ensures
        materialize_outcome(
            manifest_hash@,
            decoded,
            destination@,
            destination_exists,
            policy,
            r,
        ),
{
    if destination_exists {
        return Err(SnapshotError::DestinationExists(destination.to_owned()));
    }
    if !is_absolute(destination) {
        return Err(SnapshotError::InvalidDestination(destination.to_owned()));
    }
    let decoded = match decoded {
        Ok(m) => m,
        Err(e) => {
            return Err(e);
        },
    };
    let manifest = read_manifest_with_policy(decoded, policy)?;
    let ghost fs = manifest.files@;
    let n = manifest.files.len();
    let mut planned: Vec<MaterializedFile> = Vec::new();
    let mut total: u64 = 0;
    let mut i: usize = 0;
    while i < n
        invariant
            fs == manifest.files@,
            n == fs.len(),
            i <= n,
            entries_fault_from(fs, i as int, total as int, policy) is None,
            total == sum_sizes(fs.take(i as int)),
            planned@.len() == i,
            forall|k: int| 0 <= k < i ==> planned_file(#[trigger] fs[k], destination@, planned@[k]),
        decreases n - i,
    {
        let f = &manifest.files[i];
        proof {
            assert(entry_fault(fs, i as int, total as int, policy) is None);
            assert(fs.take(i as int + 1).drop_last() =~= fs.take(i as int));
        }
        let target = join(destination, f.path.as_str());
        planned.push(
            MaterializedFile {
                path: f.path.clone(),
                target,
                blob_hash: f.blob_hash.clone(),
                size_bytes: f.size_bytes,
            },
        );
        total = total + f.size_bytes;
        i = i + 1;
    }
    assert(fs.take(n as int) =~= fs);
    Ok(
        MaterializationPlan {
            files: planned,
            snapshot: SkillSnapshotRef {
                manifest_hash: manifest_hash.to_owned(),
                file_count: n,
                total_bytes: total,
            },
        },
    )
}

/// `materialize_snapshot_with_policy` under the standard policy.
pub fn materialize_snapshot(
    manifest_hash: &str,
    decoded: Result<SkillSnapshotManifest, SnapshotError>,
    destination: &str,
    destination_exists: bool,
) -> (r: Result<MaterializationPlan, SnapshotError>)
    ensures
        materialize_outcome(
            manifest_hash@,
            decoded,
            destination@,
            destination_exists,
            SnapshotPolicy::spec_standard(),
            r,
        ),
{
    materialize_snapshot_with_policy(
        manifest_hash,
        decoded,
        destination,
        destination_exists,
        SnapshotPolicy::standard(),
    )
}

/// Checks the length of a blob read for a planned file against the size
/// the manifest recorded.
pub fn check_blob_size(file: &MaterializedFile, actual: u64) -> (r: Result<(), SnapshotError>)
    ensures
        r is Ok <==> actual == file.size_bytes,
        r matches Err(SnapshotError::BlobSizeMismatch { path, expected, actual: a }) ==> path@
            == file.path@ && expected == file.size_bytes && a == actual,
        r is Err ==> r matches Err(SnapshotError::BlobSizeMismatch { .. }),
{
    if actual != file.size_bytes {
        return Err(
            SnapshotError::BlobSizeMismatch {
                path: file.path.clone(),
                expected: file.size_bytes,
                actual,
            },
        );
    }
    Ok(())
}

} // verus!
