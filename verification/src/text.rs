//! Character-level text utilities shared by the validators.
//!
//! Every helper works on the `Seq<char>` view of a string, so contracts
//! elsewhere in the crate can talk about trimming, prefixes and character
//! classes without reference to byte offsets.
use vstd::prelude::*;
use vstd::std_specs::iter::IteratorSpec;

verus! {

/// The Unicode `White_Space` property, which `char::is_whitespace` and
/// `str::trim` are documented to follow.
pub open spec fn is_white_space(c: char) -> bool {
    let v = c as u32;
    ||| 0x09 <= v <= 0x0D
    ||| v == 0x20
    ||| v == 0x85
    ||| v == 0xA0
    ||| v == 0x1680
    ||| 0x2000 <= v <= 0x200A
    ||| v == 0x2028
    ||| v == 0x2029
    ||| v == 0x202F
    ||| v == 0x205F
    ||| v == 0x3000
}

/// The Unicode general category `Cc` (control codes), which
/// `char::is_control` is documented to follow.
pub open spec fn is_control_char(c: char) -> bool {
    let v = c as u32;
    v <= 0x1F || (0x7F <= v <= 0x9F)
}

pub open spec fn is_ascii_upper(c: char) -> bool {
    'A' <= c <= 'Z'
}

pub open spec fn is_ascii_lower_alpha(c: char) -> bool {
    'a' <= c <= 'z'
}

pub open spec fn is_ascii_digit(c: char) -> bool {
    '0' <= c <= '9'
}

pub open spec fn is_ascii_alphanumeric(c: char) -> bool {
    is_ascii_upper(c) || is_ascii_lower_alpha(c) || is_ascii_digit(c)
}

/// A lower-case hexadecimal digit (`0-9a-f`).
pub open spec fn is_lower_hex_char(c: char) -> bool {
    is_ascii_digit(c) || ('a' <= c <= 'f')
}

/// Every character of `s` is a lower-case hexadecimal digit.
pub open spec fn all_lower_hex(s: Seq<char>) -> bool {
    forall|i: int| 0 <= i < s.len() ==> is_lower_hex_char(#[trigger] s[i])
}

/// `s` contains the character `c`.
pub open spec fn has_char(s: Seq<char>, c: char) -> bool {
    exists|i: int| 0 <= i < s.len() && s[i] == c
}

/// ASCII upper-casing of one character; other characters are unchanged.
pub open spec fn ascii_upper(c: char) -> char {
    if is_ascii_lower_alpha(c) {
        ((c as u32) - 32) as char
    } else {
        c
    }
}

/// `str::to_ascii_uppercase` on a character sequence.
pub open spec fn ascii_upper_seq(s: Seq<char>) -> Seq<char> {
    s.map_values(|c: char| ascii_upper(c))
}

/// Removes leading `White_Space` characters.
pub open spec fn trim_start_seq(s: Seq<char>) -> Seq<char>
    decreases s.len(),
{
    if s.len() > 0 && is_white_space(s[0]) {
        trim_start_seq(s.drop_first())
    } else {
        s
    }
}

/// Removes trailing `White_Space` characters.
pub open spec fn trim_end_seq(s: Seq<char>) -> Seq<char>
    decreases s.len(),
{
    if s.len() > 0 && is_white_space(s.last()) {
        trim_end_seq(s.drop_last())
    } else {
        s
    }
}

/// `str::trim`: leading and trailing `White_Space` removed.
pub open spec fn trim_seq(s: Seq<char>) -> Seq<char> {
    trim_end_seq(trim_start_seq(s))
}

/// Removes every trailing occurrence of `c` (`str::trim_end_matches`).
pub open spec fn trim_end_char_seq(s: Seq<char>, c: char) -> Seq<char>
    decreases s.len(),
{
    if s.len() > 0 && s.last() == c {
        trim_end_char_seq(s.drop_last(), c)
    } else {
        s
    }
}

/// Number of bytes of the UTF-8 encoding of one character.
pub open spec fn utf8_width(c: char) -> nat {
    let v = c as u32;
    if v < 0x80 {
        1
    } else if v < 0x800 {
        2
    } else if v < 0x10000 {
        3
    } else {
        4
    }
}

/// Number of bytes of the UTF-8 encoding of a character sequence
/// (`str::len`).
pub open spec fn utf8_len(s: Seq<char>) -> nat
    decreases s.len(),
{
    if s.len() == 0 {
        0
    } else {
        utf8_len(s.drop_last()) + utf8_width(s.last())
    }
}

/// Appends one character to a string.
#[verifier::external_body]
pub(crate) fn push_char(s: &mut String, c: char)
    ensures
        final(s)@ == old(s)@.push(c),
{
    s.push(c);
}

/// Copies the characters of a string slice into a vector.
pub fn chars_of(s: &str) -> (v: Vec<char>)
    ensures
        v@ == s@,
{
    broadcast use vstd::string::group_string_axioms;

    let mut v: Vec<char> = Vec::new();
    let mut it = s.chars();
    loop
        invariant_except_break
            v@ + it.remaining() == s@,
            it.decrease() is Some,
        ensures
            v@ == s@,
        decreases it.decrease()->0,
    {
        let ghost before = it.remaining();
        match it.next() {
            Some(c) => {
                assert(v@.push(c) + it.remaining() =~= v@ + before);
                v.push(c);
            },
            None => {
                assert(v@ =~= v@ + before);
                break;
            },
        }
    }
    v
}

/// Builds a string from a slice of characters.
pub fn string_from_chars(v: &[char]) -> (s: String)
    ensures
        s@ == v@,
{
    let mut s = String::new();
    let mut i: usize = 0;
    while i < v.len()
        invariant
            i <= v@.len(),
            s@ == v@.subrange(0, i as int),
        decreases v@.len() - i,
    {
        push_char(&mut s, v[i]);
        i = i + 1;
        assert(s@ =~= v@.subrange(0, i as int));
    }
    assert(s@ =~= v@);
    s
}

/// Builds a string from a sub-range of a character slice.
pub fn string_from_range(v: &[char], start: usize, end: usize) -> (s: String)
    requires
        start <= end <= v@.len(),
    ensures
        s@ == v@.subrange(start as int, end as int),
{
    let mut s = String::new();
    let mut i: usize = start;
    while i < end
        invariant
            start <= i <= end,
            end <= v@.len(),
            s@ == v@.subrange(start as int, i as int),
        decreases end - i,
    {
        push_char(&mut s, v[i]);
        i = i + 1;
        assert(s@ =~= v@.subrange(start as int, i as int));
    }
    s
}

pub fn is_white_space_char(c: char) -> (b: bool)
    ensures
        b == is_white_space(c),
{
    let v = c as u32;
    (0x09 <= v && v <= 0x0D) || v == 0x20 || v == 0x85 || v == 0xA0 || v == 0x1680 || (0x2000
        <= v && v <= 0x200A) || v == 0x2028 || v == 0x2029 || v == 0x202F || v == 0x205F || v
        == 0x3000
}

pub fn is_control(c: char) -> (b: bool)
    ensures
        b == is_control_char(c),
{
    let v = c as u32;
    v <= 0x1F || (0x7F <= v && v <= 0x9F)
}

pub fn is_lower_hex(c: char) -> (b: bool)
    ensures
        b == is_lower_hex_char(c),
{
    ('0' <= c && c <= '9') || ('a' <= c && c <= 'f')
}

proof fn lemma_trim_start_skip(s: Seq<char>, i: int)
    requires
        0 <= i < s.len(),
        is_white_space(s[i]),
    ensures
        trim_start_seq(s.skip(i)) == trim_start_seq(s.skip(i + 1)),
{
    assert(s.skip(i).drop_first() =~= s.skip(i + 1));
}

proof fn lemma_trim_end_take(s: Seq<char>, j: int)
    requires
        0 < j <= s.len(),
        is_white_space(s[j - 1]),
    ensures
        trim_end_seq(s.take(j)) == trim_end_seq(s.take(j - 1)),
{
    assert(s.take(j).drop_last() =~= s.take(j - 1));
}

/// Index bounds `[start, end)` of `trim_seq(v)` inside `v`.
pub fn trim_bounds(v: &[char]) -> (r: (usize, usize))
    ensures
        r.0 <= r.1 <= v@.len(),
        v@.subrange(r.0 as int, r.1 as int) == trim_seq(v@),
        trim_start_seq(v@) == v@.skip(r.0 as int),
{
    let n = v.len();
    let mut i: usize = 0;
    assert(v@.skip(0) =~= v@);
    while i < n && is_white_space_char(v[i])
        invariant
            i <= n,
            n == v@.len(),
            trim_start_seq(v@) == trim_start_seq(v@.skip(i as int)),
        decreases n - i,
    {
        proof {
            lemma_trim_start_skip(v@, i as int);
        }
        i = i + 1;
    }
    let ghost t = v@.skip(i as int);
    assert(trim_start_seq(t) == t);
    let mut j: usize = n;
    assert(t.take(n - i) =~= t);
    while j > i && is_white_space_char(v[j - 1])
        invariant
            i <= j <= n,
            n == v@.len(),
            t == v@.skip(i as int),
            trim_end_seq(t) == trim_end_seq(t.take(j - i)),
        decreases j,
    {
        proof {
            lemma_trim_end_take(t, (j - i) as int);
        }
        j = j - 1;
    }
    assert(t.take(j - i) =~= v@.subrange(i as int, j as int));
    (i, j)
}

/// `str::trim` on a character vector, returned as characters.
pub fn trim_chars(v: &[char]) -> (r: Vec<char>)
    ensures
        r@ == trim_seq(v@),
{
    let (i, j) = trim_bounds(v);
    let mut r: Vec<char> = Vec::new();
    let mut k: usize = i;
    while k < j
        invariant
            i <= k <= j,
            j <= v@.len(),
            r@ == v@.subrange(i as int, k as int),
        decreases j - k,
    {
        r.push(v[k]);
        k = k + 1;
        assert(r@ =~= v@.subrange(i as int, k as int));
    }
    r
}

/// Whether the trimmed form of `s` is empty.
pub fn is_blank(s: &str) -> (b: bool)
    ensures
        b == (trim_seq(s@).len() == 0),
{
    let v = chars_of(s);
    let (i, j) = trim_bounds(v.as_slice());
    i == j
}

/// `str::trim`, as an owned string.
pub fn trim_string(s: &str) -> (r: String)
    ensures
        r@ == trim_seq(s@),
{
    let v = chars_of(s);
    let (i, j) = trim_bounds(v.as_slice());
    string_from_range(v.as_slice(), i, j)
}

/// Whether two character slices are equal.
pub fn chars_eq(a: &[char], b: &[char]) -> (r: bool)
    ensures
        r == (a@ == b@),
{
    if a.len() != b.len() {
        return false;
    }
    let mut i: usize = 0;
    while i < a.len()
        invariant
            a@.len() == b@.len(),
            i <= a@.len(),
            forall|k: int| 0 <= k < i ==> a@[k] == b@[k],
        decreases a@.len() - i,
    {
        if a[i] != b[i] {
            return false;
        }
        i = i + 1;
    }
    assert(a@ =~= b@);
    true
}

/// Whether two strings are equal as character sequences.
pub fn str_eq(a: &str, b: &str) -> (r: bool)
    ensures
        r == (a@ == b@),
{
    let va = chars_of(a);
    let vb = chars_of(b);
    chars_eq(va.as_slice(), vb.as_slice())
}

/// Whether `v` contains the character `c`.
pub fn contains_char(v: &[char], c: char) -> (r: bool)
    ensures
        r == has_char(v@, c),
{
    let mut i: usize = 0;
    while i < v.len()
        invariant
            i <= v@.len(),
            forall|k: int| 0 <= k < i ==> v@[k] != c,
        decreases v@.len() - i,
    {
        if v[i] == c {
            return true;
        }
        i = i + 1;
    }
    false
}

/// Whether `v` starts with `prefix`.
pub fn starts_with_chars(v: &[char], prefix: &[char]) -> (r: bool)
    ensures
        r == (prefix@.len() <= v@.len() && v@.subrange(0, prefix@.len() as int) == prefix@),
{
    if prefix.len() > v.len() {
        return false;
    }
    let mut i: usize = 0;
    while i < prefix.len()
        invariant
            prefix@.len() <= v@.len(),
            i <= prefix@.len(),
            forall|k: int| 0 <= k < i ==> v@[k] == prefix@[k],
        decreases prefix@.len() - i,
    {
        if v[i] != prefix[i] {
            assert(v@.subrange(0, prefix@.len() as int)[i as int] != prefix@[i as int]);
            return false;
        }
        i = i + 1;
    }
    assert(v@.subrange(0, prefix@.len() as int) =~= prefix@);
    true
}

/// Number of UTF-8 bytes that encode the characters of `v`.
pub fn utf8_len_of(v: &[char]) -> (n: u64)
    requires
        v@.len() <= 0x1000_0000_0000,
    ensures
        n == utf8_len(v@),
{
    let mut n: u64 = 0;
    let mut i: usize = 0;
    while i < v.len()
        invariant
            i <= v@.len(),
            v@.len() <= 0x1000_0000_0000,
            n == utf8_len(v@.subrange(0, i as int)),
            n <= 4 * i,
        decreases v@.len() - i,
    {
        let c = v[i];
        let cv = c as u32;
        let w: u64 = if cv < 0x80 {
            1
        } else if cv < 0x800 {
            2
        } else if cv < 0x10000 {
            3
        } else {
            4
        };
        assert(v@.subrange(0, i + 1).drop_last() =~= v@.subrange(0, i as int));
        n = n + w;
        i = i + 1;
    }
    assert(v@.subrange(0, v@.len() as int) =~= v@);
    n
}

proof fn lemma_utf8_len_prefix(s: Seq<char>, i: int)
    requires
        0 <= i <= s.len(),
    ensures
        utf8_len(s.take(i)) <= utf8_len(s),
    decreases s.len() - i,
{
    if i < s.len() {
        lemma_utf8_len_prefix(s, i + 1);
        assert(s.take(i + 1).drop_last() =~= s.take(i));
    } else {
        assert(s.take(i) =~= s);
    }
}

proof fn lemma_utf8_len_front(s: Seq<char>)
    requires
        s.len() > 0,
    ensures
        utf8_len(s) == utf8_width(s[0]) + utf8_len(s.drop_first()),
    decreases s.len(),
{
    if s.len() > 1 {
        lemma_utf8_len_front(s.drop_last());
        assert(s.drop_last().drop_first() =~= s.drop_first().drop_last());
        assert(s.drop_first().last() == s.last());
        assert(s.drop_last()[0] == s[0]);
        assert(utf8_len(s.drop_first()) == utf8_len(s.drop_first().drop_last()) + utf8_width(
            s.drop_first().last(),
        ));
    } else {
        assert(s.drop_last().len() == 0);
        assert(s.drop_first().len() == 0);
        assert(s.last() == s[0]);
        assert(utf8_len(s.drop_last()) == 0);
        assert(utf8_len(s.drop_first()) == 0);
    }
}

/// The UTF-8 encoding of `s` has `utf8_len(s)` bytes.
pub proof fn lemma_encode_utf8_len(s: Seq<char>)
    ensures
        vstd::utf8::encode_utf8(s).len() == utf8_len(s),
    decreases s.len(),
{
    if s.len() > 0 {
        lemma_encode_utf8_len(s.drop_first());
        lemma_utf8_len_front(s);
        let c = s[0];
        vstd::utf8::char_is_scalar(c);
        assert(vstd::utf8::encode_scalar(c as u32).len() == utf8_width(c));
    }
}

proof fn lemma_trim_start_shape(s: Seq<char>)
    ensures
        trim_start_seq(s).len() <= s.len(),
        trim_start_seq(s) == s.skip(s.len() - trim_start_seq(s).len()),
        trim_start_seq(s).len() == 0 || !is_white_space(trim_start_seq(s)[0]),
        utf8_len(trim_start_seq(s)) <= utf8_len(s),
    decreases s.len(),
{
    if s.len() > 0 && is_white_space(s[0]) {
        lemma_trim_start_shape(s.drop_first());
        lemma_utf8_len_front(s);
        let t = trim_start_seq(s.drop_first());
        assert(s.drop_first().skip(s.drop_first().len() - t.len()) =~= s.skip(s.len() - t.len()));
    } else {
        assert(s.skip(0) =~= s);
    }
}

proof fn lemma_trim_end_shape(s: Seq<char>)
    ensures
        trim_end_seq(s).len() <= s.len(),
        trim_end_seq(s) == s.take(trim_end_seq(s).len() as int),
        trim_end_seq(s).len() == 0 || !is_white_space(trim_end_seq(s).last()),
        utf8_len(trim_end_seq(s)) <= utf8_len(s),
    decreases s.len(),
{
    if s.len() > 0 && is_white_space(s.last()) {
        lemma_trim_end_shape(s.drop_last());
        let t = trim_end_seq(s.drop_last());
        assert(s.drop_last().take(t.len() as int) =~= s.take(t.len() as int));
    } else {
        assert(s.take(s.len() as int) =~= s);
    }
}

/// Trimming twice is trimming once, and never lengthens the encoding.
pub proof fn lemma_trim_idempotent(s: Seq<char>)
    ensures
        trim_seq(trim_seq(s)) == trim_seq(s),
        utf8_len(trim_seq(s)) <= utf8_len(s),
{
    let a = trim_start_seq(s);
    let b = trim_end_seq(a);
    lemma_trim_start_shape(s);
    lemma_trim_end_shape(a);
    if b.len() > 0 {
        assert(b[0] == a[0]);
        assert(!is_white_space(b[0]));
    }
    assert(trim_start_seq(b) == b);
    assert(trim_end_seq(b) == b);
}

/// Whether the UTF-8 encoding of `v` is longer than `limit` bytes.
pub fn utf8_len_exceeds(v: &[char], limit: u64) -> (b: bool)
    ensures
        b == (utf8_len(v@) > limit),
{
    let mut n: u64 = 0;
    let mut i: usize = 0;
    while i < v.len()
        invariant
            i <= v@.len(),
            n == utf8_len(v@.take(i as int)),
            n <= limit,
        decreases v@.len() - i,
    {
        let cv = v[i] as u32;
        let w: u64 = if cv < 0x80 {
            1
        } else if cv < 0x800 {
            2
        } else if cv < 0x10000 {
            3
        } else {
            4
        };
        assert(v@.take(i + 1).drop_last() =~= v@.take(i as int));
        if w > limit - n {
            proof {
                lemma_utf8_len_prefix(v@, i + 1);
            }
            return true;
        }
        n = n + w;
        i = i + 1;
    }
    assert(v@.take(v@.len() as int) =~= v@);
    false
}

/// Whether the UTF-8 encoding of `s` is longer than `limit` bytes.
pub fn str_utf8_len_exceeds(s: &str, limit: u64) -> (b: bool)
    ensures
        b == (utf8_len(s@) > limit),
{
    let v = chars_of(s);
    utf8_len_exceeds(v.as_slice(), limit)
}

/// Lexicographic order on character sequences, by code point: the order
/// in which `str` values compare (byte order of UTF-8 agrees with it).
pub open spec fn seq_lt(a: Seq<char>, b: Seq<char>) -> bool
    decreases a.len(),
{
    if a.len() == 0 {
        b.len() > 0
    } else if b.len() == 0 {
        false
    } else if a[0] != b[0] {
        a[0] < b[0]
    } else {
        seq_lt(a.drop_first(), b.drop_first())
    }
}

proof fn lemma_seq_lt_common_prefix(a: Seq<char>, b: Seq<char>, i: int)
    requires
        0 <= i <= a.len(),
        i <= b.len(),
        a.take(i) == b.take(i),
    ensures
        seq_lt(a, b) == seq_lt(a.skip(i), b.skip(i)),
    decreases i,
{
    if i > 0 {
        assert(a[0] == a.take(i)[0]);
        assert(b[0] == b.take(i)[0]);
        assert(a.drop_first().take(i - 1) =~= a.take(i).drop_first());
        assert(b.drop_first().take(i - 1) =~= b.take(i).drop_first());
        lemma_seq_lt_common_prefix(a.drop_first(), b.drop_first(), i - 1);
        assert(a.drop_first().skip(i - 1) =~= a.skip(i));
        assert(b.drop_first().skip(i - 1) =~= b.skip(i));
    } else {
        assert(a.skip(0) =~= a);
        assert(b.skip(0) =~= b);
    }
}

/// Whether `a` sorts strictly before `b`.
pub fn chars_lt(a: &[char], b: &[char]) -> (r: bool)
    ensures
        r == seq_lt(a@, b@),
{
    let mut i: usize = 0;
    while i < a.len() && i < b.len() && a[i] == b[i]
        invariant
            i <= a@.len(),
            i <= b@.len(),
            a@.take(i as int) == b@.take(i as int),
        decreases a@.len() - i,
    {
        proof {
            assert(a@.take(i as int + 1) =~= a@.take(i as int).push(a@[i as int]));
            assert(b@.take(i as int + 1) =~= b@.take(i as int).push(b@[i as int]));
        }
        i = i + 1;
    }
    proof {
        lemma_seq_lt_common_prefix(a@, b@, i as int);
    }
    if i == a.len() {
        i < b.len()
    } else if i == b.len() {
        false
    } else {
        a[i] < b[i]
    }
}

/// Whether string `a` sorts strictly before string `b`.
pub fn str_lt(a: &str, b: &str) -> (r: bool)
    ensures
        r == seq_lt(a@, b@),
{
    let va = chars_of(a);
    let vb = chars_of(b);
    chars_lt(va.as_slice(), vb.as_slice())
}

// ---------------------------------------------------------------------
// Splitting at `/`.
/// Length of the first `/`-separated part of `s`.
pub open spec fn seg_len(s: Seq<char>) -> nat
    decreases s.len(),
{
    if s.len() == 0 || s[0] == '/' {
        0
    } else {
        1 + seg_len(s.drop_first())
    }
}

pub proof fn lemma_seg_len_bound(s: Seq<char>)
    ensures
        seg_len(s) <= s.len(),
        seg_len(s) < s.len() ==> s[seg_len(s) as int] == '/',
        forall|j: int| 0 <= j < seg_len(s) ==> s[j] != '/',
    decreases s.len(),
{
    if s.len() > 0 && s[0] != '/' {
        lemma_seg_len_bound(s.drop_first());
        assert forall|j: int| 0 <= j < seg_len(s) implies s[j] != '/' by {
            if j > 0 {
                assert(s[j] == s.drop_first()[j - 1]);
            }
        }
    }
}

pub proof fn lemma_seg_len_is(s: Seq<char>, k: int)
    requires
        0 <= k <= s.len(),
        forall|j: int| 0 <= j < k ==> s[j] != '/',
        k == s.len() || s[k] == '/',
    ensures
        seg_len(s) == k,
    decreases k,
{
    if k > 0 {
        lemma_seg_len_is(s.drop_first(), k - 1);
    }
}

/// `s` split at every `/` (like `str::split('/')`).
pub open spec fn split_slash(s: Seq<char>) -> Seq<Seq<char>>
    decreases s.len(),
{
    let k = seg_len(s);
    if k >= s.len() {
        seq![s]
    } else {
        proof {
            lemma_seg_len_bound(s);
        }
        seq![s.take(k as int)] + split_slash(s.skip(k as int + 1))
    }
}

pub proof fn lemma_split_append(before: Seq<char>, sg: Seq<char>, nonempty: bool)
    requires
        forall|c: int| 0 <= c < sg.len() ==> sg[c] != '/',
    ensures
        nonempty ==> split_slash(before + seq!['/'] + sg) == split_slash(before).push(sg),
        !nonempty && before.len() == 0 ==> split_slash(before + sg) == seq![sg],
    decreases before.len(),
{
    if !nonempty {
        if before.len() == 0 {
            assert(before + sg =~= sg);
            lemma_seg_len_is(sg, sg.len() as int);
        }
        return;
    }
    let whole = before + seq!['/'] + sg;
    let k = seg_len(before);
    lemma_seg_len_bound(before);
    if k >= before.len() {
        lemma_seg_len_is(whole, before.len() as int);
        assert(whole.take(before.len() as int) =~= before);
        assert(whole.skip(before.len() as int + 1) =~= sg);
        lemma_seg_len_is(sg, sg.len() as int);
        assert(split_slash(sg) == seq![sg]);
        assert(split_slash(before) == seq![before]);
        assert(split_slash(whole) =~= split_slash(before).push(sg));
    } else {
        lemma_seg_len_is(whole, k as int);
        let tail = before.skip(k as int + 1);
        lemma_split_append(tail, sg, true);
        assert(whole.take(k as int) =~= before.take(k as int));
        assert(whole.skip(k as int + 1) =~= tail + seq!['/'] + sg);
        assert(split_slash(whole) =~= split_slash(before).push(sg));
    }
}

/// A split has at least one part, and its first part ends at the first `/`.
pub proof fn lemma_split_slash_nonempty(s: Seq<char>)
    ensures
        split_slash(s).len() >= 1,
        split_slash(s)[0] == s.take(seg_len(s) as int),
{
    lemma_seg_len_bound(s);
    if seg_len(s) >= s.len() {
        assert(s.take(seg_len(s) as int) =~= s);
    }
}

/// Splits `v` at every `/`, as `str::split('/')` does.
pub fn split_slash_chars(v: &[char]) -> (r: Vec<Vec<char>>)
    ensures
        r@.len() == split_slash(v@).len(),
        forall|i: int| 0 <= i < r@.len() ==> #[trigger] r@[i]@ == split_slash(v@)[i],
{
    let n = v.len();
    let ghost s = v@;
    let mut parts: Vec<Vec<char>> = Vec::new();
    let mut p: usize = 0;
    assert(s.skip(0) =~= s);
    loop
        invariant
            p <= n,
            n == s.len(),
            s == v@,
            split_slash(s) == parts@.map_values(|x: Vec<char>| x@) + split_slash(s.skip(p as int)),
        decreases n - p,
    {
        let mut k: usize = p;
        while k < n && v[k] != '/'
            invariant
                p <= k <= n,
                n == v@.len(),
                forall|j: int| p <= j < k ==> v@[j] != '/',
            decreases n - k,
        {
            k = k + 1;
        }
        let ghost t = s.skip(p as int);
        proof {
            lemma_seg_len_is(t, (k - p) as int);
        }
        let mut seg: Vec<char> = Vec::new();
        let mut q: usize = p;
        while q < k
            invariant
                p <= q <= k <= n,
                n == v@.len(),
                seg@ == v@.subrange(p as int, q as int),
            decreases k - q,
        {
            seg.push(v[q]);
            q = q + 1;
            assert(seg@ =~= v@.subrange(p as int, q as int));
        }
        assert(seg@ =~= t.take((k - p) as int));
        let ghost old_parts = parts@;
        parts.push(seg);
        assert(parts@.map_values(|x: Vec<char>| x@) =~= old_parts.map_values(|x: Vec<char>| x@).push(
            t.take((k - p) as int),
        ));
        if k >= n {
            proof {
                assert(t.take((k - p) as int) =~= t);
                assert(split_slash(t) == seq![t]);
                assert(split_slash(s) =~= parts@.map_values(|x: Vec<char>| x@));
            }
            assert forall|i: int| 0 <= i < parts@.len() implies #[trigger] parts@[i]@ == split_slash(
                v@,
            )[i] by {
                assert(parts@.map_values(|x: Vec<char>| x@)[i] == parts@[i]@);
            }
            return parts;
        }
        proof {
            assert(split_slash(t) == seq![t.take((k - p) as int)] + split_slash(
                t.skip((k - p) as int + 1),
            ));
            assert(t.skip((k - p) as int + 1) =~= s.skip(k as int + 1));
            assert(split_slash(s) =~= parts@.map_values(|x: Vec<char>| x@) + split_slash(
                s.skip(k as int + 1),
            ));
        }
        p = k + 1;
    }
}

// ---------------------------------------------------------------------
// Decimal text of integers.
pub open spec fn decimal_digit(d: nat) -> char {
    (('0' as u32) + d) as char
}

/// The decimal digits of `n`, most significant first, without leading zeros.
pub open spec fn nat_text(n: nat) -> Seq<char>
    decreases n,
{
    if n < 10 {
        seq![decimal_digit(n)]
    } else {
        nat_text(n / 10).push(decimal_digit(n % 10))
    }
}

/// The decimal text of an integer, with `-` before a negative one (the
/// `Display` form of Rust's integers).
pub open spec fn int_text(n: int) -> Seq<char> {
    if n < 0 {
        seq!['-'] + nat_text((-n) as nat)
    } else {
        nat_text(n as nat)
    }
}

fn digit_char(d: u64) -> (c: char)
    requires
        d < 10,
    ensures
        c == decimal_digit(d as nat),
{
    let v: u8 = 48u8 + (d as u8);
    v as char
}

/// Appends the decimal digits of `n`.
pub fn push_u64_text(out: &mut String, n: u64)
    ensures
        final(out)@ == old(out)@ + nat_text(n as nat),
    decreases n,
{
    if n >= 10 {
        push_u64_text(out, n / 10);
    }
    let c = digit_char(n % 10);
    push_char(out, c);
    assert(final(out)@ =~= old(out)@ + nat_text(n as nat));
}

/// The decimal text of a signed integer.
pub fn i64_text(n: i64) -> (s: String)
    ensures
        s@ == int_text(n as int),
{
    let mut s = String::new();
    if n < 0 {
        push_char(&mut s, '-');
        let m: u64 = (0i128 - (n as i128)) as u64;
        push_u64_text(&mut s, m);
        assert(s@ =~= int_text(n as int));
    } else {
        push_u64_text(&mut s, n as u64);
        assert(s@ =~= int_text(n as int));
    }
    s
}

/// The decimal text of an unsigned integer.
pub fn u64_text(n: u64) -> (s: String)
    ensures
        s@ == nat_text(n as nat),
{
    let mut s = String::new();
    push_u64_text(&mut s, n);
    assert(s@ =~= nat_text(n as nat));
    s
}

/// `s` without its trailing occurrences of `c` (`str::trim_end_matches`).
pub fn trim_end_char_string(s: &str, c: char) -> (r: String)
    ensures
        r@ == trim_end_char_seq(s@, c),
{
    let v = chars_of(s);
    let mut j = v.len();
    assert(v@.take(j as int) =~= v@);
    while j > 0 && v[j - 1] == c
        invariant
            j <= v@.len(),
            v@ == s@,
            trim_end_char_seq(s@, c) == trim_end_char_seq(v@.take(j as int), c),
        decreases j,
    {
        assert(v@.take(j as int).drop_last() =~= v@.take(j - 1));
        j = j - 1;
    }
    string_from_range(v.as_slice(), 0, j)
}

// ---------------------------------------------------------------------
// `seq_lt` is a strict total order.
pub proof fn lemma_seq_lt_irreflexive(a: Seq<char>)
    ensures
        !seq_lt(a, a),
    decreases a.len(),
{
    if a.len() > 0 {
        lemma_seq_lt_irreflexive(a.drop_first());
    }
}

pub proof fn lemma_seq_lt_asymmetric(a: Seq<char>, b: Seq<char>)
    ensures
        seq_lt(a, b) ==> !seq_lt(b, a),
    decreases a.len(),
{
    if a.len() > 0 && b.len() > 0 && a[0] == b[0] {
        lemma_seq_lt_asymmetric(a.drop_first(), b.drop_first());
    }
}

pub proof fn lemma_seq_lt_total(a: Seq<char>, b: Seq<char>)
    ensures
        a != b ==> seq_lt(a, b) || seq_lt(b, a),
    decreases a.len(),
{
    if a.len() > 0 && b.len() > 0 && a[0] == b[0] {
        lemma_seq_lt_total(a.drop_first(), b.drop_first());
        if a != b {
            assert(a.drop_first() != b.drop_first()) by {
                if a.drop_first() == b.drop_first() {
                    assert(a =~= seq![a[0]] + a.drop_first());
                    assert(b =~= seq![b[0]] + b.drop_first());
                }
            }
        }
    } else if a.len() == 0 && b.len() == 0 {
        assert(a =~= b);
    }
}

pub proof fn lemma_seq_lt_transitive(a: Seq<char>, b: Seq<char>, c: Seq<char>)
    ensures
        seq_lt(a, b) && seq_lt(b, c) ==> seq_lt(a, c),
    decreases a.len(),
{
    if a.len() > 0 && b.len() > 0 && c.len() > 0 {
        lemma_seq_lt_transitive(a.drop_first(), b.drop_first(), c.drop_first());
    }
}

/// ASCII case-insensitive equality (`str::eq_ignore_ascii_case`).
pub open spec fn eq_ignore_ascii_case(a: Seq<char>, b: Seq<char>) -> bool {
    ascii_upper_seq(a) == ascii_upper_seq(b)
}

fn ascii_upper_char(c: char) -> (r: char)
    ensures
        r == ascii_upper(c),
{
    if 'a' <= c && c <= 'z' {
        let v: u8 = (c as u8) - 32;
        v as char
    } else {
        c
    }
}

pub fn eq_ignore_ascii_case_str(a: &str, b: &str) -> (r: bool)
    ensures
        r == eq_ignore_ascii_case(a@, b@),
{
    let va = chars_of(a);
    let vb = chars_of(b);
    if va.len() != vb.len() {
        proof {
            assert(ascii_upper_seq(a@).len() != ascii_upper_seq(b@).len());
        }
        return false;
    }
    let mut i: usize = 0;
    while i < va.len()
        invariant
            va@ == a@,
            vb@ == b@,
            va@.len() == vb@.len(),
            i <= va@.len(),
            forall|k: int| 0 <= k < i ==> ascii_upper(va@[k]) == ascii_upper(vb@[k]),
        decreases va@.len() - i,
    {
        if ascii_upper_char(va[i]) != ascii_upper_char(vb[i]) {
            proof {
                assert(ascii_upper_seq(a@)[i as int] != ascii_upper_seq(b@)[i as int]);
            }
            return false;
        }
        i = i + 1;
    }
    assert(ascii_upper_seq(a@) =~= ascii_upper_seq(b@));
    true
}

} // verus!
