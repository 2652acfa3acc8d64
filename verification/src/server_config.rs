//! Desktop server address configuration.
//!
//! A server address is accepted only as an `http://` or `https://` URL with a
//! non-empty remainder that carries no user information, query or fragment.
//! Resolution prefers a stored value, then the environment, then the local
//! development default; an invalid layer is skipped.
use vstd::prelude::*;
use crate::paths::{join, join_path};
use crate::text::{
    chars_of, contains_char, has_char, is_white_space, starts_with_chars, string_from_range,
    trim_bounds, trim_end_char_seq, trim_end_seq, trim_seq, trim_start_seq,
};

verus! {

pub const DEFAULT_SERVER_URL: &'static str = "http://127.0.0.1:8000";

#[derive(Debug)]
pub enum ServerConfigError {
    InvalidUrl(String),
    Io(String),
}

pub open spec fn http_prefix() -> Seq<char> {
    seq!['h', 't', 't', 'p', ':', '/', '/']
}

pub open spec fn https_prefix() -> Seq<char> {
    seq!['h', 't', 't', 'p', 's', ':', '/', '/']
}

pub open spec fn default_server_url_seq() -> Seq<char> {
    seq!['h', 't', 't', 'p', ':', '/', '/', '1', '2', '7', '.', '0', '.', '0', '.', '1', ':', '8', '0', '0', '0']
}

pub open spec fn starts_with_seq(s: Seq<char>, p: Seq<char>) -> bool {
    p.len() <= s.len() && s.take(p.len() as int) == p
}

/// What follows the scheme separator of an http(s) URL.
pub open spec fn url_rest(w: Seq<char>) -> Seq<char> {
    if starts_with_seq(w, http_prefix()) {
        w.skip(7)
    } else {
        w.skip(8)
    }
}

/// An acceptable server address in normalized form: http(s) scheme, a
/// non-empty remainder without `@`, `?` or `#`, and no trailing `/`.
pub open spec fn is_valid_server_url(w: Seq<char>) -> bool {
    &&& starts_with_seq(w, http_prefix()) || starts_with_seq(w, https_prefix())
    &&& url_rest(w).len() > 0
    &&& !has_char(url_rest(w), '@')
    &&& !has_char(url_rest(w), '?')
    &&& !has_char(url_rest(w), '#')
}

/// The address `raw` normalizes to, or `None` when it is rejected: surrounding
/// white space and trailing `/` characters are removed first.
pub open spec fn spec_normalize_server_url(raw: Seq<char>) -> Option<Seq<char>> {
    let w = trim_end_char_seq(trim_seq(raw), '/');
    if is_valid_server_url(w) {
        Some(w)
    } else {
        None
    }
}

/// The address chosen from a stored value and an environment value.
pub open spec fn spec_resolve(stored: Option<Seq<char>>, env_value: Option<Seq<char>>) -> Seq<
    char,
> {
    if stored is Some && spec_normalize_server_url(stored->0) is Some {
        spec_normalize_server_url(stored->0)->0
    } else if env_value is Some && spec_normalize_server_url(env_value->0) is Some {
        spec_normalize_server_url(env_value->0)->0
    } else {
        default_server_url_seq()
    }
}

/// Index just past the last character that is not `c` in `v[..end]`.
fn trim_end_char_index(v: &[char], end: usize, c: char) -> (j: usize)
    requires
        end <= v@.len(),
    ensures
        j <= end,
        v@.take(j as int) == trim_end_char_seq(v@.take(end as int), c),
{
    let mut j = end;
    while j > 0 && v[j - 1] == c
        invariant
            j <= end <= v@.len(),
            trim_end_char_seq(v@.take(end as int), c) == trim_end_char_seq(v@.take(j as int), c),
        decreases j,
    {
        assert(v@.take(j as int).drop_last() =~= v@.take(j - 1));
        j = j - 1;
    }
    j
}

/// Normalizes and validates a user-provided server address.
pub fn normalize_server_url(raw: &str) -> (r: Result<String, ServerConfigError>)
    ensures
        match r {
            Ok(s) => spec_normalize_server_url(raw@) == Some(s@),
            Err(ServerConfigError::InvalidUrl(t)) => spec_normalize_server_url(raw@) is None
                && t@ == trim_seq(raw@),
            Err(_) => false,
        },
{
    let v = chars_of(raw);
    let (i, j0) = trim_bounds(v.as_slice());
    let ghost trimmed = v@.subrange(i as int, j0 as int);
    let mut t: Vec<char> = Vec::new();
    let mut k: usize = i;
    while k < j0
        invariant
            i <= k <= j0 <= v@.len(),
            t@ == v@.subrange(i as int, k as int),
        decreases j0 - k,
    {
        t.push(v[k]);
        k = k + 1;
        assert(t@ =~= v@.subrange(i as int, k as int));
    }
    assert(t@ == trim_seq(raw@));
    assert(t@.take(t@.len() as int) =~= t@);
    let j = trim_end_char_index(t.as_slice(), t.len(), '/');
    let ghost w = t@.take(j as int);
    assert(w == trim_end_char_seq(trim_seq(raw@), '/'));
    let mut wv: Vec<char> = Vec::new();
    let mut m: usize = 0;
    while m < j
        invariant
            m <= j <= t@.len(),
            wv@ == t@.take(m as int),
        decreases j - m,
    {
        wv.push(t[m]);
        m = m + 1;
        assert(wv@ =~= t@.take(m as int));
    }
    assert(wv@ == w);
    let http = ['h', 't', 't', 'p', ':', '/', '/'];
    let https = ['h', 't', 't', 'p', 's', ':', '/', '/'];
    assert(http@ =~= http_prefix());
    assert(https@ =~= https_prefix());
    let is_http = starts_with_chars(wv.as_slice(), &http);
    let is_https = starts_with_chars(wv.as_slice(), &https);
    if !is_http && !is_https {
        let bad = string_from_range(t.as_slice(), 0, t.len());
        assert(bad@ =~= t@);
        return Err(ServerConfigError::InvalidUrl(bad));
    }
    let start: usize = if is_http {
        7
    } else {
        8
    };
    let mut rest: Vec<char> = Vec::new();
    let mut q: usize = start;
    while q < wv.len()
        invariant
            start <= q <= wv@.len(),
            rest@ == wv@.subrange(start as int, q as int),
        decreases wv@.len() - q,
    {
        rest.push(wv[q]);
        q = q + 1;
        assert(rest@ =~= wv@.subrange(start as int, q as int));
    }
    assert(rest@ =~= url_rest(w));
    if rest.len() == 0 || contains_char(rest.as_slice(), '@') || contains_char(rest.as_slice(), '?')
        || contains_char(rest.as_slice(), '#') {
        let bad = string_from_range(t.as_slice(), 0, t.len());
        assert(bad@ =~= t@);
        return Err(ServerConfigError::InvalidUrl(bad));
    }
    let out = string_from_range(wv.as_slice(), 0, wv.len());
    assert(out@ =~= w);
    Ok(out)
}

/// The built-in development address.
pub fn default_server_url() -> (s: String)
    ensures
        s@ == default_server_url_seq(),
{
    proof {
        reveal_strlit("http://127.0.0.1:8000");
    }
    let s = DEFAULT_SERVER_URL.to_owned();
    assert(s@ =~= default_server_url_seq());
    s
}

/// Resolution order: stored value, environment value, default. Each layer
/// is validated; an invalid layer is skipped.
pub fn resolve(stored: Option<&str>, env_value: Option<&str>) -> (s: String)
    ensures
        s@ == spec_resolve(
            match stored {
                Some(v) => Some(v@),
                None => None,
            },
            match env_value {
                Some(v) => Some(v@),
                None => None,
            },
        ),
{
    if let Some(value) = stored {
        if let Ok(normalized) = normalize_server_url(value) {
            return normalized;
        }
    }
    if let Some(value) = env_value {
        if let Ok(normalized) = normalize_server_url(value) {
            return normalized;
        }
    }
    default_server_url()
}

/// Location of the persisted configuration file inside the data directory.
pub fn config_path(data_dir: &str) -> (p: String)
    ensures
        p@ == join_path(data_dir@, seq!['s', 'e', 'r', 'v', 'e', 'r', '.', 'j', 's', 'o', 'n']),
{
    proof {
        reveal_strlit("server.json");
    }
    let p = join(data_dir, "server.json");
    assert("server.json"@ =~= seq!['s', 'e', 'r', 'v', 'e', 'r', '.', 'j', 's', 'o', 'n']);
    p
}

proof fn lemma_trim_end_char_is_stable(s: Seq<char>, c: char)
    ensures
        trim_end_char_seq(trim_end_char_seq(s, c), c) == trim_end_char_seq(s, c),
    decreases s.len(),
{
    if s.len() > 0 && s.last() == c {
        lemma_trim_end_char_is_stable(s.drop_last(), c);
    }
}

/// Normalizing a normalized address gives it back, unless white space was
/// left at its end by removing `/` characters after it (` http://a /`
/// normalizes to `http://a `, which normalizes further to `http://a`).
pub proof fn lemma_normalize_is_idempotent(raw: Seq<char>, url: Seq<char>)
    requires
        spec_normalize_server_url(raw) == Some(url),
        trim_seq(url) == url,
    ensures
        spec_normalize_server_url(url) == Some(url),
{
    lemma_trim_end_char_is_stable(trim_seq(raw), '/');
}

/// Every address `resolve` returns is acceptable: the default is valid and
/// the other layers are returned only after validation.
pub proof fn lemma_resolve_is_valid(stored: Option<Seq<char>>, env_value: Option<Seq<char>>)
    ensures
        is_valid_server_url(spec_resolve(stored, env_value)),
{
    let d = default_server_url_seq();
    assert(d.take(7) =~= http_prefix());
    assert(url_rest(d) =~= seq!['1', '2', '7', '.', '0', '.', '0', '.', '1', ':', '8', '0', '0', '0']);
    assert(!has_char(url_rest(d), '@')) by {
        assert forall|i: int| 0 <= i < url_rest(d).len() implies url_rest(d)[i] != '@' by {
        }
    }
    assert(!has_char(url_rest(d), '?')) by {
        assert forall|i: int| 0 <= i < url_rest(d).len() implies url_rest(d)[i] != '?' by {
        }
    }
    assert(!has_char(url_rest(d), '#')) by {
        assert forall|i: int| 0 <= i < url_rest(d).len() implies url_rest(d)[i] != '#' by {
        }
    }
}

} // verus!
