//! Textual filesystem paths.
//!
//! Paths are carried as UTF-8 strings. Both `/` and `\` separate components;
//! a path is absolute when it starts with a separator or with a drive prefix
//! such as `C:\`. Joining always inserts `/` unless the base already ends
//! with a separator.
//!
//! These rules are the same on every platform, on purpose: they are the
//! union of the Unix and the Windows conventions, where `Path` on a given
//! platform follows only its own (on Unix `C:\x` is relative and `\` is an
//! ordinary character; on Windows `\x` has no drive). The library so judges
//! a path the same wherever it runs, and a name that would be a separator or
//! a drive on either system is never taken for a plain component.
use vstd::prelude::*;
use crate::text::{chars_of, push_char, starts_with_chars};

verus! {

pub open spec fn is_separator(c: char) -> bool {
    c == '/' || c == '\\'
}

pub open spec fn is_ascii_alpha(c: char) -> bool {
    ('a' <= c <= 'z') || ('A' <= c <= 'Z')
}

/// An absolute path: rooted at a separator or at a drive such as `C:\`,
/// on every platform (see the module's notes).
pub open spec fn is_absolute_path(s: Seq<char>) -> bool {
    ||| s.len() > 0 && is_separator(s[0])
    ||| s.len() >= 3 && is_ascii_alpha(s[0]) && s[1] == ':' && is_separator(s[2])
}

/// `base` joined with `name`.
pub open spec fn join_path(base: Seq<char>, name: Seq<char>) -> Seq<char> {
    if base.len() > 0 && is_separator(base.last()) {
        base + name
    } else {
        base + seq!['/'] + name
    }
}

/// `s` is a single plain path component: non-empty, without separators,
/// and neither `.` nor `..`.
pub open spec fn is_plain_component(s: Seq<char>) -> bool {
    &&& s.len() > 0
    &&& forall|i: int| 0 <= i < s.len() ==> !is_separator(#[trigger] s[i])
    &&& s != seq!['.']
    &&& s != seq!['.', '.']
}

/// The part of `child` that follows `parent` and one separator, when
/// `child` starts with `parent`.
pub open spec fn child_rest(child: Seq<char>, parent: Seq<char>) -> Seq<char> {
    if parent.len() > 0 && is_separator(parent.last()) {
        child.skip(parent.len() as int)
    } else {
        child.skip(parent.len() as int + 1)
    }
}

/// `child` names an entry directly inside the directory `parent`.
pub open spec fn is_direct_child(child: Seq<char>, parent: Seq<char>) -> bool {
    &&& parent.len() > 0
    &&& child.len() > parent.len()
    &&& child.take(parent.len() as int) == parent
    &&& (!(is_separator(parent.last())) ==> is_separator(child[parent.len() as int]))
    &&& is_plain_component(child_rest(child, parent))
}

/// A `..` component starts at index `i`.
pub open spec fn parent_dir_at(s: Seq<char>, i: int) -> bool {
    &&& 0 <= i
    &&& i + 1 < s.len()
    &&& (i == 0 || is_separator(s[i - 1]))
    &&& s[i] == '.'
    &&& s[i + 1] == '.'
    &&& (i + 2 == s.len() || is_separator(s[i + 2]))
}

/// The path starts with a `.` component.
pub open spec fn leading_cur_dir(s: Seq<char>) -> bool {
    s.len() > 0 && s[0] == '.' && (s.len() == 1 || is_separator(s[1]))
}

/// No `..` component anywhere and no leading `.` component.
pub open spec fn is_lexically_normal(s: Seq<char>) -> bool {
    &&& !leading_cur_dir(s)
    &&& forall|i: int| !#[trigger] parent_dir_at(s, i)
}

pub fn is_separator_char(c: char) -> (b: bool)
    ensures
        b == is_separator(c),
{
    c == '/' || c == '\\'
}

pub fn is_absolute(s: &str) -> (b: bool)
    ensures
        b == is_absolute_path(s@),
{
    let v = chars_of(s);
    if v.len() > 0 && is_separator_char(v[0]) {
        return true;
    }
    v.len() >= 3 && (('a' <= v[0] && v[0] <= 'z') || ('A' <= v[0] && v[0] <= 'Z')) && v[1] == ':'
        && is_separator_char(v[2])
}

/// `base` joined with `name`.
pub fn join(base: &str, name: &str) -> (r: String)
    ensures
        r@ == join_path(base@, name@),
{
    let mut r = base.to_owned();
    let b = chars_of(base);
    if !(b.len() > 0 && is_separator_char(b[b.len() - 1])) {
        push_char(&mut r, '/');
    }
    let n = chars_of(name);
    let mut i: usize = 0;
    let ghost start = r@;
    while i < n.len()
        invariant
            i <= n@.len(),
            n@ == name@,
            r@ == start + n@.subrange(0, i as int),
        decreases n@.len() - i,
    {
        push_char(&mut r, n[i]);
        i = i + 1;
        assert(r@ =~= start + n@.subrange(0, i as int));
    }
    assert(n@.subrange(0, n@.len() as int) =~= n@);
    r
}

pub fn is_plain_component_chars(v: &[char]) -> (b: bool)
    ensures
        b == is_plain_component(v@),
{
    if v.len() == 0 {
        return false;
    }
    let mut i: usize = 0;
    while i < v.len()
        invariant
            i <= v@.len(),
            forall|k: int| 0 <= k < i ==> !is_separator(#[trigger] v@[k]),
        decreases v@.len() - i,
    {
        if is_separator_char(v[i]) {
            return false;
        }
        i = i + 1;
    }
    if v.len() == 1 && v[0] == '.' {
        assert(v@ =~= seq!['.']);
        return false;
    }
    if v.len() == 2 && v[0] == '.' && v[1] == '.' {
        assert(v@ =~= seq!['.', '.']);
        return false;
    }
    assert(v@ != seq!['.']) by {
        if v@ == seq!['.'] {
            assert(v@[0] == '.');
        }
    }
    assert(v@ != seq!['.', '.']) by {
        if v@ == seq!['.', '.'] {
            assert(v@[0] == '.' && v@[1] == '.');
        }
    }
    true
}

/// Whether `child` names an entry directly inside `parent`.
pub fn is_direct_child_of(child: &str, parent: &str) -> (b: bool)
    ensures
        b == is_direct_child(child@, parent@),
{
    let c = chars_of(child);
    let p = chars_of(parent);
    if p.len() == 0 || c.len() <= p.len() {
        return false;
    }
    if !starts_with_chars(c.as_slice(), p.as_slice()) {
        return false;
    }
    let ends_sep = is_separator_char(p[p.len() - 1]);
    let start: usize = if ends_sep {
        p.len()
    } else {
        if !is_separator_char(c[p.len()]) {
            return false;
        }
        p.len() + 1
    };
    let mut rest: Vec<char> = Vec::new();
    let mut i: usize = start;
    while i < c.len()
        invariant
            start <= i <= c@.len(),
            rest@ == c@.subrange(start as int, i as int),
        decreases c@.len() - i,
    {
        rest.push(c[i]);
        i = i + 1;
        assert(rest@ =~= c@.subrange(start as int, i as int));
    }
    assert(rest@ =~= child_rest(c@, p@));
    is_plain_component_chars(rest.as_slice())
}

/// Whether the path has neither a `..` component nor a leading `.` one.
pub fn is_lexically_normal_path(s: &str) -> (b: bool)
    ensures
        b == is_lexically_normal(s@),
{
    let v = chars_of(s);
    let n = v.len();
    if n > 0 && v[0] == '.' && (n == 1 || is_separator_char(v[1])) {
        return false;
    }
    let mut i: usize = 0;
    while i < n
        invariant
            n == v@.len(),
            v@ == s@,
            i <= n,
            forall|k: int| 0 <= k < i ==> !parent_dir_at(v@, k),
        decreases n - i,
    {
        if i + 1 < n && (i == 0 || is_separator_char(v[i - 1])) && v[i] == '.' && v[i + 1] == '.'
            && (i + 2 == n || is_separator_char(v[i + 2])) {
            assert(parent_dir_at(v@, i as int));
            return false;
        }
        i = i + 1;
    }
    assert forall|k: int| !parent_dir_at(v@, k) by {
        if 0 <= k < n {
        }
    }
    true
}

} // verus!
