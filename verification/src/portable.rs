//! Portable path components and names.
//!
//! A portable component is a file or directory name that every supported
//! platform can hold: at most 255 UTF-8 bytes, no control characters, none of
//! `< > : " \ | ? *`, no trailing space or dot, not `.` or `..`, and not a
//! reserved device name (`CON`, `PRN`, `AUX`, `NUL`, `COM1`-`COM9`,
//! `LPT1`-`LPT9`, compared case-insensitively on the part before the first
//! dot).
use vstd::prelude::*;
use crate::text::{
    ascii_upper, ascii_upper_seq, chars_of, is_control, is_control_char, utf8_len, utf8_len_of,
};

verus! {

pub open spec fn is_forbidden_name_char(c: char) -> bool {
    is_control_char(c) || c == '<' || c == '>' || c == ':' || c == '"' || c == '\\' || c == '|'
        || c == '?' || c == '*'
}

/// Length of the part of `s` before its first `.`.
pub open spec fn stem_len(s: Seq<char>) -> nat
    decreases s.len(),
{
    if s.len() == 0 || s[0] == '.' {
        0
    } else {
        1 + stem_len(s.drop_first())
    }
}

/// A reserved device name, given in upper case.
pub open spec fn is_reserved_device_name(u: Seq<char>) -> bool {
    ||| u == seq!['C', 'O', 'N']
    ||| u == seq!['P', 'R', 'N']
    ||| u == seq!['A', 'U', 'X']
    ||| u == seq!['N', 'U', 'L']
    ||| u.len() == 4 && (u.take(3) == seq!['C', 'O', 'M'] || u.take(3) == seq!['L', 'P', 'T'])
        && '1' <= u[3] <= '9'
}

/// The name's stem, upper-cased, is a reserved device name.
pub open spec fn has_reserved_stem(s: Seq<char>) -> bool {
    is_reserved_device_name(ascii_upper_seq(s.take(stem_len(s) as int)))
}

/// The character-level rules shared by portable components and agent
/// directory names.
pub open spec fn has_forbidden_chars(s: Seq<char>) -> bool {
    exists|i: int| 0 <= i < s.len() && is_forbidden_name_char(#[trigger] s[i])
}

pub open spec fn is_portable_segment(s: Seq<char>) -> bool {
    &&& s.len() > 0
    &&& s != seq!['.']
    &&& s != seq!['.', '.']
    &&& utf8_len(s) <= 255
    &&& s.last() != ' '
    &&& s.last() != '.'
    &&& !has_forbidden_chars(s)
    &&& !has_reserved_stem(s)
}

pub fn is_forbidden_name_char_exec(c: char) -> (b: bool)
    ensures
        b == is_forbidden_name_char(c),
{
    is_control(c) || c == '<' || c == '>' || c == ':' || c == '"' || c == '\\' || c == '|' || c
        == '?' || c == '*'
}

pub fn has_forbidden_chars_exec(v: &[char]) -> (b: bool)
    ensures
        b == has_forbidden_chars(v@),
{
    let mut i: usize = 0;
    while i < v.len()
        invariant
            i <= v@.len(),
            forall|k: int| 0 <= k < i ==> !is_forbidden_name_char(#[trigger] v@[k]),
        decreases v@.len() - i,
    {
        if is_forbidden_name_char_exec(v[i]) {
            return true;
        }
        i = i + 1;
    }
    false
}

proof fn lemma_stem_len(s: Seq<char>, k: int)
    requires
        0 <= k <= s.len(),
        forall|j: int| 0 <= j < k ==> s[j] != '.',
        k == s.len() || s[k] == '.',
    ensures
        stem_len(s) == k,
    decreases k,
{
    if k > 0 {
        lemma_stem_len(s.drop_first(), k - 1);
    }
}

fn upper_char(c: char) -> (u: char)
    ensures
        u == ascii_upper(c),
{
    if 'a' <= c && c <= 'z' {
        let v: u32 = (c as u32) - 32;
        assert(v < 256);
        v as u8 as char
    } else {
        c
    }
}

pub fn has_reserved_stem_exec(v: &[char]) -> (b: bool)
    ensures
        b == has_reserved_stem(v@),
{
    let mut k: usize = 0;
    while k < v.len() && v[k] != '.'
        invariant
            k <= v@.len(),
            forall|j: int| 0 <= j < k ==> v@[j] != '.',
        decreases v@.len() - k,
    {
        k = k + 1;
    }
    proof {
        lemma_stem_len(v@, k as int);
    }
    let mut u: Vec<char> = Vec::new();
    let mut i: usize = 0;
    while i < k
        invariant
            i <= k <= v@.len(),
            u@ == ascii_upper_seq(v@.take(i as int)),
        decreases k - i,
    {
        u.push(upper_char(v[i]));
        i = i + 1;
        assert(u@ =~= ascii_upper_seq(v@.take(i as int)));
    }
    let ghost us = u@;
    assert(us == ascii_upper_seq(v@.take(stem_len(v@) as int)));
    if u.len() == 3 {
        let a = u[0];
        let b = u[1];
        let c = u[2];
        let r = (a == 'C' && b == 'O' && c == 'N') || (a == 'P' && b == 'R' && c == 'N') || (a
            == 'A' && b == 'U' && c == 'X') || (a == 'N' && b == 'U' && c == 'L');
        proof {
            if r {
                if a == 'C' {
                    assert(us =~= seq!['C', 'O', 'N']);
                } else if a == 'P' {
                    assert(us =~= seq!['P', 'R', 'N']);
                } else if a == 'A' {
                    assert(us =~= seq!['A', 'U', 'X']);
                } else {
                    assert(us =~= seq!['N', 'U', 'L']);
                }
            } else {
                assert(us != seq!['C', 'O', 'N']) by {
                    if us == seq!['C', 'O', 'N'] {
                        assert(us[0] == 'C' && us[1] == 'O' && us[2] == 'N');
                    }
                }
                assert(us != seq!['P', 'R', 'N']) by {
                    if us == seq!['P', 'R', 'N'] {
                        assert(us[0] == 'P' && us[1] == 'R' && us[2] == 'N');
                    }
                }
                assert(us != seq!['A', 'U', 'X']) by {
                    if us == seq!['A', 'U', 'X'] {
                        assert(us[0] == 'A' && us[1] == 'U' && us[2] == 'X');
                    }
                }
                assert(us != seq!['N', 'U', 'L']) by {
                    if us == seq!['N', 'U', 'L'] {
                        assert(us[0] == 'N' && us[1] == 'U' && us[2] == 'L');
                    }
                }
            }
        }
        return r;
    }
    if u.len() == 4 {
        let a = u[0];
        let b = u[1];
        let c = u[2];
        let d = u[3];
        let com = a == 'C' && b == 'O' && c == 'M';
        let lpt = a == 'L' && b == 'P' && c == 'T';
        let r = (com || lpt) && '1' <= d && d <= '9';
        proof {
            if com {
                assert(us.take(3) =~= seq!['C', 'O', 'M']);
            } else {
                assert(us.take(3) != seq!['C', 'O', 'M']) by {
                    if us.take(3) == seq!['C', 'O', 'M'] {
                        assert(us.take(3)[0] == 'C' && us.take(3)[1] == 'O' && us.take(3)[2]
                            == 'M');
                    }
                }
            }
            if lpt {
                assert(us.take(3) =~= seq!['L', 'P', 'T']);
            } else {
                assert(us.take(3) != seq!['L', 'P', 'T']) by {
                    if us.take(3) == seq!['L', 'P', 'T'] {
                        assert(us.take(3)[0] == 'L' && us.take(3)[1] == 'P' && us.take(3)[2]
                            == 'T');
                    }
                }
            }
        }
        return r;
    }
    assert(us.len() != 3);
    false
}

/// Whether `v` is a portable path component.
pub fn is_portable_segment_chars(v: &[char]) -> (b: bool)
    ensures
        b == is_portable_segment(v@),
{
    let n = v.len();
    if n == 0 {
        return false;
    }
    if n == 1 && v[0] == '.' {
        assert(v@ =~= seq!['.']);
        return false;
    }
    if n == 2 && v[0] == '.' && v[1] == '.' {
        assert(v@ =~= seq!['.', '.']);
        return false;
    }
    assert(v@ != seq!['.']) by {
        if v@ == seq!['.'] {
            assert(v@[0] == '.');
        }
    }
    assert(v@ != seq!['.', '.']) by {
        if v@ == seq!['.', '.'] {
            assert(v@[0] == '.' && v@[1] == '.');
        }
    }
    if n > 255 {
        proof {
            lemma_utf8_len_at_least(v@);
        }
        return false;
    }
    if utf8_len_of(v) > 255 {
        return false;
    }
    if v[n - 1] == ' ' || v[n - 1] == '.' {
        return false;
    }
    if has_forbidden_chars_exec(v) {
        return false;
    }
    !has_reserved_stem_exec(v)
}

/// Every character takes at least one byte.
pub proof fn lemma_utf8_len_at_least(s: Seq<char>)
    ensures
        utf8_len(s) >= s.len(),
    decreases s.len(),
{
    if s.len() > 0 {
        lemma_utf8_len_at_least(s.drop_last());
    }
}

pub fn is_portable_segment_str(s: &str) -> (b: bool)
    ensures
        b == is_portable_segment(s@),
{
    let v = chars_of(s);
    is_portable_segment_chars(v.as_slice())
}

} // verus!
