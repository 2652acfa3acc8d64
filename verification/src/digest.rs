//! SHA-256 digests and their canonical textual form `sha256:<64 lower hex>`.
use vstd::prelude::*;
use crate::text::{all_lower_hex, chars_of, is_lower_hex, is_lower_hex_char, push_char};

verus! {

/// The SHA-256 digest of a byte sequence, as computed by the `sha2` crate.
pub uninterp spec fn spec_sha256(data: Seq<u8>) -> Seq<u8>;

/// Calls `sha2::Sha256::digest`. The contract claims that the result is the
/// digest named `spec_sha256` of the input bytes and that it is 32 bytes long
/// (the crate's fixed output size for SHA-256).
#[verifier::external_body]
pub(crate) fn sha256_digest(data: &[u8]) -> (out: Vec<u8>)
    ensures
        out@ == spec_sha256(data@),
        out@.len() == 32,
{
    <sha2::Sha256 as sha2::Digest>::digest(data).to_vec()
}

/// The lower-case hexadecimal digit for a value below 16.
pub open spec fn hex_digit(n: int) -> char {
    if n < 10 {
        (('0' as u32) + n) as char
    } else {
        (('a' as u32) + (n - 10)) as char
    }
}

/// Two lower-case hex digits per byte, most significant nibble first
/// (the `{:02x}` format).
pub open spec fn hex_seq(bytes: Seq<u8>) -> Seq<char> {
    Seq::new(
        2 * bytes.len(),
        |i: int|
            if i % 2 == 0 {
                hex_digit(bytes[i / 2] as int / 16)
            } else {
                hex_digit(bytes[i / 2] as int % 16)
            },
    )
}

/// The textual prefix of a digest identifier.
pub open spec fn sha256_prefix() -> Seq<char> {
    seq!['s', 'h', 'a', '2', '5', '6', ':']
}

/// The canonical identifier of a digest: `sha256:` followed by its hex form.
pub open spec fn digest_text(digest: Seq<u8>) -> Seq<char> {
    sha256_prefix() + hex_seq(digest)
}

/// The identifier of the SHA-256 digest of `data`.
pub open spec fn spec_hash_bytes(data: Seq<u8>) -> Seq<char> {
    digest_text(spec_sha256(data))
}

/// A canonical blob identifier: `sha256:` and 64 lower-case hex digits.
pub open spec fn is_canonical_sha256_seq(s: Seq<char>) -> bool {
    &&& s.len() == 71
    &&& s.take(7) == sha256_prefix()
    &&& all_lower_hex(s.skip(7))
}

pub fn hex_digit_char(n: u8) -> (c: char)
    requires
        n < 16,
    ensures
        c == hex_digit(n as int),
{
    if n < 10 {
        let v: u32 = ('0' as u32) + (n as u32);
        assert(v < 256);
        char_from_u32(v)
    } else {
        let v: u32 = ('a' as u32) + (n as u32) - 10;
        assert(v < 256);
        char_from_u32(v)
    }
}

/// Converts a scalar value below the surrogate range to a character.
fn char_from_u32(v: u32) -> (c: char)
    requires
        v < 256,
    ensures
        c == v as char,
{
    v as u8 as char
}

/// Appends the hex form of `bytes` to `out`.
pub fn push_hex(out: &mut String, bytes: &[u8])
    ensures
        final(out)@ == old(out)@ + hex_seq(bytes@),
{
    let ghost start = out@;
    let mut i: usize = 0;
    while i < bytes.len()
        invariant
            i <= bytes@.len(),
            out@ == start + hex_seq(bytes@.subrange(0, i as int)),
        decreases bytes@.len() - i,
    {
        let b = bytes[i];
        let hi = hex_digit_char(b / 16);
        let lo = hex_digit_char(b % 16);
        push_char(out, hi);
        push_char(out, lo);
        i = i + 1;
        assert(out@ =~= start + hex_seq(bytes@.subrange(0, i as int)));
    }
    assert(bytes@.subrange(0, bytes@.len() as int) =~= bytes@);
}

/// Appends `sha256:` to `out`.
pub fn push_sha256_prefix(out: &mut String)
    ensures
        final(out)@ == old(out)@ + sha256_prefix(),
{
    let ghost start = out@;
    push_char(out, 's');
    push_char(out, 'h');
    push_char(out, 'a');
    push_char(out, '2');
    push_char(out, '5');
    push_char(out, '6');
    push_char(out, ':');
    assert(out@ =~= start + sha256_prefix());
}

/// Formats a digest as `sha256:<hex>`.
pub fn format_digest(digest: &[u8]) -> (s: String)
    ensures
        s@ == digest_text(digest@),
{
    let mut s = String::new();
    push_sha256_prefix(&mut s);
    push_hex(&mut s, digest);
    assert(s@ =~= digest_text(digest@));
    s
}

/// The hex form of bytes is lower-case hex, two digits per byte.
pub proof fn lemma_hex_seq_is_lower_hex(bytes: Seq<u8>)
    ensures
        hex_seq(bytes).len() == 2 * bytes.len(),
        all_lower_hex(hex_seq(bytes)),
{
    let h = hex_seq(bytes);
    assert forall|i: int| 0 <= i < h.len() implies is_lower_hex_char(#[trigger] h[i]) by {
        let v = if i % 2 == 0 {
            bytes[i / 2] as int / 16
        } else {
            bytes[i / 2] as int % 16
        };
        assert(0 <= v < 16);
        assert(h[i] == hex_digit(v));
    }
}

/// The canonical identifier of the SHA-256 digest of `bytes`.
pub fn hash_bytes(bytes: &[u8]) -> (s: String)
    ensures
        s@ == spec_hash_bytes(bytes@),
        is_canonical_sha256_seq(s@),
{
    let digest = sha256_digest(bytes);
    let s = format_digest(digest.as_slice());
    proof {
        lemma_hex_seq_is_lower_hex(digest@);
        assert(s@.take(7) =~= sha256_prefix());
        assert(s@.skip(7) =~= hex_seq(digest@));
    }
    s
}

/// Whether `v` is a canonical blob identifier.
pub fn is_canonical_sha256_chars(v: &[char]) -> (b: bool)
    ensures
        b == is_canonical_sha256_seq(v@),
{
    if v.len() != 71 {
        return false;
    }
    let prefix = ['s', 'h', 'a', '2', '5', '6', ':'];
    let mut i: usize = 0;
    while i < 7
        invariant
            v@.len() == 71,
            i <= 7,
            prefix@ == sha256_prefix(),
            forall|k: int| 0 <= k < i ==> v@[k] == sha256_prefix()[k],
        decreases 7 - i,
    {
        if v[i] != prefix[i] {
            assert(v@.take(7)[i as int] != sha256_prefix()[i as int]);
            return false;
        }
        i = i + 1;
    }
    assert(v@.take(7) =~= sha256_prefix());
    let mut j: usize = 7;
    while j < 71
        invariant
            v@.len() == 71,
            7 <= j <= 71,
            forall|k: int| 7 <= k < j ==> is_lower_hex_char(v@[k]),
        decreases 71 - j,
    {
        if !is_lower_hex(v[j]) {
            assert(!is_lower_hex_char(v@.skip(7)[j - 7]));
            return false;
        }
        j = j + 1;
    }
    assert forall|k: int| 0 <= k < v@.skip(7).len() implies is_lower_hex_char(
        #[trigger] v@.skip(7)[k],
    ) by {
        assert(v@.skip(7)[k] == v@[k + 7]);
    }
    true
}

/// Whether `s` is a canonical blob identifier.
pub fn is_canonical_sha256(s: &str) -> (b: bool)
    ensures
        b == is_canonical_sha256_seq(s@),
{
    let v = chars_of(s);
    is_canonical_sha256_chars(v.as_slice())
}

} // verus!
