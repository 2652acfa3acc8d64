//! Content-addressed blob layout.
//!
//! A blob with identifier `sha256:<digest>` lives at
//! `<root>/sha256/<first two digest digits>/<digest>`. Only canonical
//! identifiers (lower-case, 64 hex digits) map to a path, so an identifier
//! can never name a location outside the store.
use vstd::prelude::*;
use crate::digest::{hash_bytes, is_canonical_sha256_chars, is_canonical_sha256_seq, spec_hash_bytes};
use crate::paths::{join, join_path};
use crate::text::{chars_of, str_eq, string_from_range};

verus! {

#[derive(Debug, Clone)]
pub struct BlobStore {
    pub root: String,
}

#[derive(Debug, Clone, PartialEq, Eq)]
pub struct BlobRef {
    pub hash: String,
    pub size_bytes: u64,
}

#[derive(Debug)]
pub enum BlobStoreError {
    Io(String),
    InvalidHash(String),
    NotFound(String),
    CorruptedExistingBlob(String),
    HashMismatch { expected: String, actual: String },
}

/// The directory below the store root that holds every blob.
pub open spec fn sha256_dir() -> Seq<char> {
    seq!['s', 'h', 'a', '2', '5', '6']
}

/// Where the blob with canonical identifier `hash` is stored.
pub open spec fn spec_blob_path(root: Seq<char>, hash: Seq<char>) -> Seq<char> {
    let digest = hash.skip(7);
    join_path(join_path(join_path(root, sha256_dir()), digest.take(2)), digest)
}

impl BlobStore {
    /// A store rooted at `root`; the caller creates the directory.
    pub fn open(root: &str) -> (store: BlobStore)
        ensures
            store.root@ == root@,
    {
        BlobStore { root: root.to_owned() }
    }

    pub fn root(&self) -> (r: &str)
        ensures
            r@ == self.root@,
    {
        self.root.as_str()
    }

    /// Maps a canonical identifier to its location; anything else is
    /// rejected as `InvalidHash`.
    pub fn path_for_hash(&self, hash: &str) -> (r: Result<String, BlobStoreError>)
        ensures
            is_canonical_sha256_seq(hash@) ==> (r matches Ok(p) && p@ == spec_blob_path(
                self.root@,
                hash@,
            )),
            !is_canonical_sha256_seq(hash@) ==> (r matches Err(BlobStoreError::InvalidHash(h))
                && h@ == hash@),
    {
        let v = chars_of(hash);
        if !is_canonical_sha256_chars(v.as_slice()) {
            return Err(BlobStoreError::InvalidHash(hash.to_owned()));
        }
        Ok(self.canonical_path(hash))
    }

    /// The location of a blob whose identifier is canonical.
    fn canonical_path(&self, hash: &str) -> (p: String)
        requires
            is_canonical_sha256_seq(hash@),
        ensures
            p@ == spec_blob_path(self.root@, hash@),
    {
        let v = chars_of(hash);
        let digest = string_from_range(v.as_slice(), 7, 71);
        let prefix = string_from_range(v.as_slice(), 7, 9);
        assert(digest@ =~= hash@.skip(7));
        assert(prefix@ =~= hash@.skip(7).take(2));
        let dir = join(self.root.as_str(), "sha256");
        proof {
            reveal_strlit("sha256");
            assert("sha256"@ =~= sha256_dir());
        }
        let dir = join(dir.as_str(), prefix.as_str());
        join(dir.as_str(), digest.as_str())
    }
    /// Where `bytes` are stored and the reference they are stored under:
    /// their SHA-256 identifier and length.
    pub fn prepare_put(&self, bytes: &[u8]) -> (r: (BlobRef, String))
        ensures
            r.0.hash@ == spec_hash_bytes(bytes@),
            r.0.size_bytes == bytes@.len(),
            r.1@ == spec_blob_path(self.root@, spec_hash_bytes(bytes@)),
    {
        let hash = hash_bytes(bytes);
        let path = self.canonical_path(hash.as_str());
        (BlobRef { hash, size_bytes: bytes.len() as u64 }, path)
    }

    /// The bytes read for `hash`, accepted only when they hash to it.
    pub fn read_checked(&self, hash: &str, bytes: Vec<u8>) -> (r: Result<Vec<u8>, BlobStoreError>)
        ensures
            r is Ok <==> spec_hash_bytes(bytes@) == hash@,
            r matches Ok(b) ==> b@ == bytes@,
            r matches Err(e) ==> e matches BlobStoreError::HashMismatch { expected, actual }
                && expected@ == hash@ && actual@ == spec_hash_bytes(bytes@),
    {
        let actual = hash_bytes(bytes.as_slice());
        if !str_eq(actual.as_str(), hash) {
            return Err(BlobStoreError::HashMismatch { expected: hash.to_owned(), actual });
        }
        Ok(bytes)
    }

    /// Whether the blob `hash` is present and intact: `contents` are the
    /// stored bytes, `None` when no file exists.
    pub fn verify_contents(&self, hash: &str, contents: Option<&[u8]>) -> (b: bool)
        ensures
            b == match contents {
                Some(c) => spec_hash_bytes(c@) == hash@,
                None => false,
            },
    {
        match contents {
            Some(c) => {
                let actual = hash_bytes(c);
                str_eq(actual.as_str(), hash)
            },
            None => false,
        }
    }
}

/// An existing blob is reused only after its content verifies; a blob
/// whose file exists with other content is corrupt and never replaced.
pub fn reuse_existing_blob(hash: &str, verified: bool) -> (r: Result<(), BlobStoreError>)
    ensures
        r is Ok <==> verified,
        r matches Err(e) ==> e matches BlobStoreError::CorruptedExistingBlob(h) && h@ == hash@,
{
    if !verified {
        return Err(BlobStoreError::CorruptedExistingBlob(hash.to_owned()));
    }
    Ok(())
}

/// The name of the temporary file a blob is written through before it is
/// renamed into place: `.skillhive-blob-<fresh id>.tmp`.
pub fn temporary_blob_name() -> (n: String)
    ensures
        n@.len() > 0,
        exists|id: Seq<char>|
            crate::ids::is_token_text(id) && n@ == ".skillhive-blob-"@ + id + ".tmp"@,
{
    let mut n = String::from_str(".skillhive-blob-");
    let id = crate::ids::new_uuid_v4();
    n.append(id.as_str());
    n.append(".tmp");
    proof {
        reveal_strlit(".skillhive-blob-");
        assert(n@ == ".skillhive-blob-"@ + id@ + ".tmp"@);
    }
    n
}

} // verus!
