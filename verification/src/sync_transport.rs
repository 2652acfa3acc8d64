//! Negotiating which blobs of a snapshot the server still needs.
use vstd::prelude::*;
use crate::skill_snapshot::{SkillSnapshotFile, SkillSnapshotManifest, SnapshotError};
use crate::sync_client::SyncClientError;
use crate::text::{
    lemma_seq_lt_irreflexive, lemma_seq_lt_total, lemma_seq_lt_transitive, seq_lt, str_eq, str_lt,
};

verus! {

/// Upper bound on objects in one negotiation request.
pub const MAX_NEGOTIATION_ITEMS: usize = 1024;

#[derive(Debug)]
pub enum NegotiationError {
    ManifestMissing(String),
    BlobMissing(String),
    BlobStore(String),
    Http(SyncClientError),
    TooManyObjects,
}

#[derive(Debug, Clone, PartialEq, Eq)]
pub struct BlobDescriptor {
    pub hash: String,
    pub size_bytes: u64,
}

#[derive(Debug, Clone, PartialEq, Eq)]
pub struct ClosureSynced {
    pub manifest_hash: String,
    pub uploaded: usize,
}

impl BlobDescriptor {
    pub fn from_snapshot_file(file: &SkillSnapshotFile) -> (d: BlobDescriptor)
        ensures
            d.hash@ == file.blob_hash@,
            d.size_bytes == file.size_bytes,
    {
        BlobDescriptor { hash: file.blob_hash.clone(), size_bytes: file.size_bytes }
    }
}

/// Descriptor `k` is the first one with its hash.
pub open spec fn is_first_of_hash(input: Seq<BlobDescriptor>, k: int) -> bool {
    forall|j: int| 0 <= j < k ==> (#[trigger] input[j]).hash@ != input[k].hash@
}

/// Some descriptor of `s` has hash `h`.
#[verifier::opaque]
pub open spec fn has_hash(s: Seq<BlobDescriptor>, h: Seq<char>) -> bool {
    exists|k: int| 0 <= k < s.len() && s[k].hash@ == h
}

/// Strictly increasing by hash.
pub open spec fn sorted_by_hash(v: Seq<BlobDescriptor>) -> bool {
    forall|a: int, b: int| 0 <= a < b < v.len() ==> seq_lt(v[a].hash@, v[b].hash@)
}

/// `out` holds, sorted by hash, the first descriptor of each hash of
/// `input`, and nothing else.
pub open spec fn sorted_first_of_each(input: Seq<BlobDescriptor>, out: Seq<BlobDescriptor>) -> bool {
    &&& sorted_by_hash(out)
    &&& forall|q: int, k: int|
        #![trigger out[q], input[k]]
        0 <= q < out.len() && 0 <= k < input.len() && input[k].hash@ == out[q].hash@
            && is_first_of_hash(input, k) ==> input[k] == out[q]
    &&& forall|q: int| 0 <= q < out.len() ==> has_hash(input, #[trigger] out[q].hash@)
    &&& forall|k: int| 0 <= k < input.len() ==> has_hash(out, #[trigger] input[k].hash@)
}

proof fn lemma_has_hash_push(s: Seq<BlobDescriptor>, d: BlobDescriptor, h: Seq<char>)
    ensures
        has_hash(s.push(d), h) == (has_hash(s, h) || d.hash@ == h),
{
    reveal(has_hash);
    if has_hash(s, h) {
        let k = choose|k: int| 0 <= k < s.len() && s[k].hash@ == h;
        assert(s.push(d)[k] == s[k]);
    }
    if d.hash@ == h {
        assert(s.push(d)[s.len() as int] == d);
    }
    if has_hash(s.push(d), h) {
        let k = choose|k: int| 0 <= k < s.push(d).len() && s.push(d)[k].hash@ == h;
        if k < s.len() {
            assert(s.push(d)[k] == s[k]);
        }
    }
}

proof fn lemma_has_hash_insert(s: Seq<BlobDescriptor>, p: int, d: BlobDescriptor, h: Seq<char>)
    requires
        0 <= p <= s.len(),
    ensures
        has_hash(s.insert(p, d), h) == (has_hash(s, h) || d.hash@ == h),
{
    reveal(has_hash);
    let t = s.insert(p, d);
    if has_hash(s, h) {
        let k = choose|k: int| 0 <= k < s.len() && s[k].hash@ == h;
        if k < p {
            assert(t[k] == s[k]);
        } else {
            assert(t[k + 1] == s[k]);
        }
    }
    if d.hash@ == h {
        assert(t[p] == d);
    }
    if has_hash(t, h) {
        let k = choose|k: int| 0 <= k < t.len() && t[k].hash@ == h;
        if k < p {
            assert(t[k] == s[k]);
        } else if k > p {
            assert(t[k] == s[k - 1]);
        }
    }
}

impl BlobDescriptor {
    fn copy(&self) -> (c: BlobDescriptor)
        ensures
            c == *self,
    {
        BlobDescriptor { hash: self.hash.clone(), size_bytes: self.size_bytes }
    }
}

proof fn lemma_first_present(pre: Seq<BlobDescriptor>, d: BlobDescriptor, out: Seq<BlobDescriptor>, p: int)
    requires
        sorted_first_of_each(pre, out),
        0 <= p < out.len(),
        out[p].hash@ == d.hash@,
    ensures
        sorted_first_of_each(pre.push(d), out),
{
    let post = pre.push(d);
    assert forall|q: int, k: int|
        #![trigger out[q], post[k]]
        0 <= q < out.len() && 0 <= k < post.len() && post[k].hash@ == out[q].hash@
            && is_first_of_hash(post, k) implies post[k] == out[q] by {
        if k < pre.len() {
            assert(post[k] == pre[k]);
            assert forall|j: int| 0 <= j < k implies (#[trigger] pre[j]).hash@ != pre[k].hash@ by {
                assert(post[j] == pre[j]);
            }
        } else {
            reveal(has_hash);
            let w = choose|w: int| 0 <= w < pre.len() && pre[w].hash@ == out[p].hash@;
            assert(post[w] == pre[w]);
        }
    }
    assert forall|q: int| 0 <= q < out.len() implies has_hash(post, #[trigger] out[q].hash@) by {
        lemma_has_hash_push(pre, d, out[q].hash@);
    }
    assert forall|k: int| 0 <= k < post.len() implies has_hash(out, #[trigger] post[k].hash@) by {
        if k < pre.len() {
            assert(post[k] == pre[k]);
        } else {
            reveal(has_hash);
            assert(out[p].hash@ == post[k].hash@);
        }
    }
}

proof fn lemma_first_inserted(pre: Seq<BlobDescriptor>, d: BlobDescriptor, out: Seq<BlobDescriptor>, p: int)
    requires
        sorted_first_of_each(pre, out),
        0 <= p <= out.len(),
        forall|q: int| 0 <= q < p ==> seq_lt(#[trigger] out[q].hash@, d.hash@),
        p < out.len() ==> !seq_lt(out[p].hash@, d.hash@) && out[p].hash@ != d.hash@,
    ensures
        sorted_first_of_each(pre.push(d), out.insert(p, d)),
{
    let post = pre.push(d);
    let nout = out.insert(p, d);
    if p < out.len() {
        lemma_seq_lt_total(out[p].hash@, d.hash@);
    }
    assert(!has_hash(out, d.hash@)) by {
        reveal(has_hash);
        if has_hash(out, d.hash@) {
            let q = choose|q: int| 0 <= q < out.len() && out[q].hash@ == d.hash@;
            if q < p {
                lemma_seq_lt_irreflexive(d.hash@);
            } else if q > p {
                lemma_seq_lt_transitive(d.hash@, out[p].hash@, out[q].hash@);
                lemma_seq_lt_irreflexive(d.hash@);
            }
        }
    }
    assert forall|k: int| 0 <= k < pre.len() implies (#[trigger] pre[k]).hash@ != d.hash@ by {
        if pre[k].hash@ == d.hash@ {
            assert(has_hash(out, pre[k].hash@));
        }
    }
    assert forall|a: int, b: int| 0 <= a < b < nout.len() implies seq_lt(nout[a].hash@, nout[b].hash@) by {
        if b < p {
        } else if a < p && b == p {
        } else if a < p && b > p {
            lemma_seq_lt_transitive(out[a].hash@, d.hash@, out[b - 1].hash@);
        } else if a == p {
            if b - 1 > p {
                lemma_seq_lt_transitive(d.hash@, out[p].hash@, out[b - 1].hash@);
            }
        }
    }
    assert forall|q: int, k: int|
        #![trigger nout[q], post[k]]
        0 <= q < nout.len() && 0 <= k < post.len() && post[k].hash@ == nout[q].hash@
            && is_first_of_hash(post, k) implies post[k] == nout[q] by {
        if k < pre.len() {
            assert(post[k] == pre[k]);
            assert forall|j: int| 0 <= j < k implies (#[trigger] pre[j]).hash@ != pre[k].hash@ by {
                assert(post[j] == pre[j]);
            }
            if q == p {
                assert(pre[k].hash@ != d.hash@);
            } else {
                let qq = if q < p { q } else { q - 1 };
                assert(nout[q] == out[qq]);
            }
        } else {
            if q != p {
                let qq = if q < p { q } else { q - 1 };
                assert(nout[q] == out[qq]);
                assert(has_hash(out, out[qq].hash@)) by {
                    reveal(has_hash);
                }
            }
        }
    }
    assert forall|q: int| 0 <= q < nout.len() implies has_hash(post, #[trigger] nout[q].hash@) by {
        if q == p {
            lemma_has_hash_push(pre, d, d.hash@);
        } else {
            let qq = if q < p { q } else { q - 1 };
            assert(nout[q] == out[qq]);
            lemma_has_hash_push(pre, d, out[qq].hash@);
        }
    }
    assert forall|k: int| 0 <= k < post.len() implies has_hash(nout, #[trigger] post[k].hash@) by {
        lemma_has_hash_insert(out, p, d, post[k].hash@);
        if k < pre.len() {
            assert(post[k] == pre[k]);
        }
    }
}

/// Sorts descriptors by hash and keeps the first of each hash (a stable
/// sort followed by removal of later duplicates).
pub fn sort_dedup_by_hash(input: &Vec<BlobDescriptor>) -> (out: Vec<BlobDescriptor>)
    ensures
        sorted_first_of_each(input@, out@),
{
    let mut out: Vec<BlobDescriptor> = Vec::new();
    let mut i: usize = 0;
    while i < input.len()
        invariant
            i <= input@.len(),
            sorted_first_of_each(input@.take(i as int), out@),
        decreases input@.len() - i,
    {
        let d = &input[i];
        assert(input@.take(i as int + 1) =~= input@.take(i as int).push(*d));
        let mut p: usize = 0;
        while p < out.len() && str_lt(out[p].hash.as_str(), d.hash.as_str())
            invariant
                p <= out@.len(),
                forall|q: int| 0 <= q < p ==> seq_lt(#[trigger] out@[q].hash@, d.hash@),
            decreases out@.len() - p,
        {
            p = p + 1;
        }
        if p < out.len() && str_eq(out[p].hash.as_str(), d.hash.as_str()) {
            proof {
                lemma_first_present(input@.take(i as int), *d, out@, p as int);
            }
        } else {
            proof {
                lemma_first_inserted(input@.take(i as int), *d, out@, p as int);
            }
            out.insert(p, d.copy());
        }
        i = i + 1;
    }
    assert(input@.take(input@.len() as int) =~= input@);
    out
}

/// The blobs of a snapshot as negotiated with the server: every file's
/// blob and the manifest itself, sorted by hash, each hash once (its first
/// descriptor, files before the manifest). A manifest that cannot be read
/// is reported missing; a failure to read its bytes is reported as is.
pub fn snapshot_closure(
    manifest_hash: &str,
    manifest: Result<SkillSnapshotManifest, SnapshotError>,
    manifest_size: Result<u64, NegotiationError>,
) -> (r: Result<Vec<BlobDescriptor>, NegotiationError>)
    ensures
        manifest is Err ==> (r matches Err(NegotiationError::ManifestMissing(h)) && h@
            == manifest_hash@),
        manifest is Ok && manifest_size is Err ==> r == match manifest_size {
            Err(e) => Err::<Vec<BlobDescriptor>, NegotiationError>(e),
            Ok(_) => r,
        },
        match (manifest, manifest_size) {
            (Ok(m), Ok(size)) => r matches Ok(out) && out@.len() > 0 && exists|input: Seq<
                BlobDescriptor,
            >| is_closure_input(input, m, manifest_hash@, size) && sorted_first_of_each(input, out@),
            _ => r is Err,
        },
{
    let m = match manifest {
        Ok(m) => m,
        Err(_) => {
            return Err(NegotiationError::ManifestMissing(manifest_hash.to_owned()));
        },
    };
    let size = match manifest_size {
        Ok(s) => s,
        Err(e) => {
            return Err(e);
        },
    };
    let mut descriptors: Vec<BlobDescriptor> = Vec::new();
    let mut k: usize = 0;
    while k < m.files.len()
        invariant
            k <= m.files@.len(),
            descriptors@.len() == k,
            forall|q: int| 0 <= q < k ==> #[trigger] descriptors@[q] == file_descriptor(m.files@[q]),
        decreases m.files@.len() - k,
    {
        let d = BlobDescriptor::from_snapshot_file(&m.files[k]);
        proof {
            assert(d.hash@ == m.files@[k as int].blob_hash@);
        }
        descriptors.push(BlobDescriptor { hash: m.files[k].blob_hash.clone(), size_bytes: m.files[k].size_bytes });
        k = k + 1;
    }
    descriptors.push(BlobDescriptor { hash: manifest_hash.to_owned(), size_bytes: size });
    let out = sort_dedup_by_hash(&descriptors);
    proof {
        assert(is_closure_input(descriptors@, m, manifest_hash@, size));
        assert(has_hash(out@, descriptors@[0].hash@));
        reveal(has_hash);
    }
    Ok(out)
}

/// The descriptor of one manifest file.
pub open spec fn file_descriptor(f: SkillSnapshotFile) -> BlobDescriptor {
    BlobDescriptor { hash: f.blob_hash, size_bytes: f.size_bytes }
}

/// The descriptors negotiated for a snapshot, before sorting: every
/// file's, in manifest order, then the manifest's own.
pub open spec fn is_closure_input(
    input: Seq<BlobDescriptor>,
    m: SkillSnapshotManifest,
    manifest_hash: Seq<char>,
    size: u64,
) -> bool {
    &&& input.len() == m.files@.len() + 1
    &&& forall|q: int| 0 <= q < m.files@.len() ==> #[trigger] input[q] == file_descriptor(m.files@[q])
    &&& input.last().hash@ == manifest_hash
    &&& input.last().size_bytes == size
}

} // verus!
