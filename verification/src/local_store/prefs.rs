//! Deployment target preferences: a global default list of agent profile
//! ids, and per-skill overrides. A list is stored as a JSON array of
//! strings. Lists are normalized before they are stored: each id trimmed,
//! later duplicates dropped, order kept, and both the number of entries
//! and the length of each id bounded, so that a malformed request cannot
//! balloon the row.
use vstd::prelude::*;
use crate::digest::hex_digit;
use crate::local_store::{blank_message, validate_non_empty, LocalStoreError};
use crate::text::{
    lemma_trim_idempotent, str_eq, str_utf8_len_exceeds, trim_seq, trim_string, utf8_len,
};

verus! {

/// The most targets one preference may list.
pub const MAX_TARGETS: usize = 64;

/// The longest agent profile id a preference accepts, in UTF-8 bytes.
pub const MAX_PROFILE_ID_LEN: usize = 128;

/// The views of a list of strings.
pub open spec fn texts(v: Seq<String>) -> Seq<Seq<char>> {
    v.map_values(|s: String| s@)
}

/// The list a JSON text decodes to as an array of strings, as
/// `serde_json::from_str::<Vec<String>>` computes it; `None` when the text
/// is not such an array.
pub uninterp spec fn json_string_list(raw: Seq<char>) -> Option<Seq<Seq<char>>>;

/// How `serde_json` writes one character inside a string: `"` and `\`
/// escaped with `\`, the control characters with a name (`\b`, `\t`,
/// `\n`, `\f`, `\r`) escaped by it, the other control characters as
/// `\u00` and two lower-case hex digits; anything else as it is.
pub open spec fn json_char(c: char) -> Seq<char> {
    if c == '"' {
        seq!['\\', '"']
    } else if c == '\\' {
        seq!['\\', '\\']
    } else if c == '\u{8}' {
        seq!['\\', 'b']
    } else if c == '\t' {
        seq!['\\', 't']
    } else if c == '\n' {
        seq!['\\', 'n']
    } else if c == '\u{c}' {
        seq!['\\', 'f']
    } else if c == '\r' {
        seq!['\\', 'r']
    } else if (c as u32) < 0x20 {
        seq!['\\', 'u', '0', '0', hex_digit((c as u32) as int / 16), hex_digit((c as u32) as int % 16)]
    } else {
        seq![c]
    }
}

/// A string's characters, each written as `json_char` writes it.
pub open spec fn json_escaped(s: Seq<char>) -> Seq<char>
    decreases s.len(),
{
    if s.len() == 0 {
        seq![]
    } else {
        json_escaped(s.drop_last()) + json_char(s.last())
    }
}

/// A JSON string: the escaped characters between double quotes.
pub open spec fn json_string(s: Seq<char>) -> Seq<char> {
    seq!['"'] + json_escaped(s) + seq!['"']
}

/// The strings, as JSON strings separated by `,`.
pub open spec fn json_items(ids: Seq<Seq<char>>) -> Seq<char>
    decreases ids.len(),
{
    if ids.len() == 0 {
        seq![]
    } else if ids.len() == 1 {
        json_string(ids[0])
    } else {
        json_items(ids.drop_last()) + seq![','] + json_string(ids.last())
    }
}

/// The JSON text of an array of strings, as `serde_json::to_string`
/// writes it (compact: no white space).
pub open spec fn json_string_array(ids: Seq<Seq<char>>) -> Seq<char> {
    seq!['['] + json_items(ids) + seq![']']
}

/// Calls `serde_json::from_str::<Vec<String>>`. The contract claims that
/// the outcome is the decoding named `json_string_list`: the decoded list
/// when there is one, an error (carrying the parser's message) otherwise.
#[verifier::external_body]
fn decode_string_list(raw: &str) -> (r: Result<Vec<String>, String>)
    ensures
        match r {
            Ok(v) => json_string_list(raw@) == Some(texts(v@)),
            Err(_) => json_string_list(raw@) is None,
        },
{
    match serde_json::from_str::<Vec<String>>(raw) {
        Ok(v) => Ok(v),
        Err(e) => Err(e.to_string()),
    }
}

/// Calls `serde_json::to_string` on a list of strings. The contract claims
/// that a text it returns is the encoding `json_string_array`, and
/// that decoding that text gives the same list back (strings are written
/// with escapes that the decoder undoes).
#[verifier::external_body]
fn encode_string_list(ids: &Vec<String>) -> (r: Result<String, String>)
    ensures
        r matches Ok(s) ==> s@ == json_string_array(texts(ids@)) && json_string_list(s@) == Some(
            texts(ids@),
        ),
{
    match serde_json::to_string(ids) {
        Ok(s) => Ok(s),
        Err(e) => Err(e.to_string()),
    }
}

// ---------------------------------------------------------------------
// Rules.
/// The first rule an agent profile id breaks, as the message it is
/// refused with: blank, or longer than the limit (counted before
/// trimming).
pub open spec fn id_fault(id: Seq<char>) -> Option<Seq<char>> {
    if trim_seq(id).len() == 0 {
        Some(blank_message("agent profile id"@))
    } else if utf8_len(id) > MAX_PROFILE_ID_LEN {
        Some("agent profile id exceeds 128 characters"@)
    } else {
        None
    }
}

/// The fault of the first id that has one.
pub open spec fn first_id_fault(ids: Seq<Seq<char>>) -> Option<Seq<char>>
    decreases ids.len(),
{
    if ids.len() == 0 {
        None
    } else {
        match first_id_fault(ids.drop_last()) {
            Some(f) => Some(f),
            None => id_fault(ids.last()),
        }
    }
}

/// The ids trimmed, keeping the first occurrence of each, in order.
pub open spec fn normalized_ids(ids: Seq<Seq<char>>) -> Seq<Seq<char>>
    decreases ids.len(),
{
    if ids.len() == 0 {
        seq![]
    } else {
        let rest = normalized_ids(ids.drop_last());
        let t = trim_seq(ids.last());
        if rest.contains(t) {
            rest
        } else {
            rest.push(t)
        }
    }
}

/// The ids, keeping the first occurrence of each, in order.
pub open spec fn deduplicated_ids(ids: Seq<Seq<char>>) -> Seq<Seq<char>>
    decreases ids.len(),
{
    if ids.len() == 0 {
        seq![]
    } else {
        let rest = deduplicated_ids(ids.drop_last());
        if rest.contains(ids.last()) {
            rest
        } else {
            rest.push(ids.last())
        }
    }
}

/// The outcome of normalizing a requested list.
pub open spec fn normalize_check(ids: Seq<Seq<char>>, r: Result<Vec<String>, LocalStoreError>) -> bool {
    if ids.len() > MAX_TARGETS {
        r matches Err(LocalStoreError::InvalidInput(m)) && m@
            == "deployment targets exceed the maximum of 64"@
    } else {
        match first_id_fault(ids) {
            Some(f) => r matches Err(LocalStoreError::InvalidInput(m)) && m@ == f,
            None => r matches Ok(v) && texts(v@) == normalized_ids(ids),
        }
    }
}

/// The outcome of reading back a stored, decoded list.
pub open spec fn stored_check(ids: Seq<Seq<char>>, r: Result<Vec<String>, LocalStoreError>) -> bool {
    match first_id_fault(ids) {
        Some(f) => r matches Err(LocalStoreError::InvalidInput(m)) && m@ == f,
        None => r matches Ok(v) && texts(v@) == deduplicated_ids(ids),
    }
}

// ---------------------------------------------------------------------
// Normalizing.
fn contains_text(v: &Vec<String>, t: &str) -> (b: bool)
    ensures
        b == texts(v@).contains(t@),
{
    let mut i: usize = 0;
    while i < v.len()
        invariant
            i <= v@.len(),
            forall|k: int| 0 <= k < i ==> v@[k]@ != t@,
        decreases v@.len() - i,
    {
        if str_eq(v[i].as_str(), t) {
            assert(texts(v@)[i as int] == t@);
            return true;
        }
        i = i + 1;
    }
    assert forall|k: int| 0 <= k < texts(v@).len() implies texts(v@)[k] != t@ by {
        assert(texts(v@)[k] == v@[k]@);
    }
    false
}

/// Checks one id: not blank, at most `MAX_PROFILE_ID_LEN` bytes.
fn check_id(id: &str) -> (r: Result<(), LocalStoreError>)
    ensures
        r is Ok <==> id_fault(id@) is None,
        r matches Err(e) ==> e matches LocalStoreError::InvalidInput(m) && id_fault(id@) == Some(
            m@,
        ),
{
    validate_non_empty("agent profile id", id)?;
    if str_utf8_len_exceeds(id, MAX_PROFILE_ID_LEN as u64) {
        return Err(
            LocalStoreError::InvalidInput(String::from_str("agent profile id exceeds 128 characters")),
        );
    }
    Ok(())
}

/// Normalizes a requested target list: at most `MAX_TARGETS` entries,
/// each id present and within `MAX_PROFILE_ID_LEN` bytes; ids are trimmed
/// and later duplicates dropped, order kept.
pub fn normalize_profile_ids(profile_ids: &[String]) -> (r: Result<Vec<String>, LocalStoreError>)
    ensures
        normalize_check(texts(profile_ids@), r),
{
    let ghost ids = texts(profile_ids@);
    if profile_ids.len() > MAX_TARGETS {
        return Err(
            LocalStoreError::InvalidInput(
                String::from_str("deployment targets exceed the maximum of 64"),
            ),
        );
    }
    let mut normalized: Vec<String> = Vec::new();
    let mut i: usize = 0;
    while i < profile_ids.len()
        invariant
            i <= profile_ids@.len(),
            profile_ids@.len() <= MAX_TARGETS,
            ids == texts(profile_ids@),
            first_id_fault(ids.take(i as int)) is None,
            texts(normalized@) == normalized_ids(ids.take(i as int)),
        decreases profile_ids@.len() - i,
    {
        assert(ids.take(i + 1).drop_last() =~= ids.take(i as int));
        assert(ids.take(i + 1).last() == profile_ids@[i as int]@);
        match check_id(profile_ids[i].as_str()) {
            Ok(()) => {},
            Err(e) => {
                proof {
                    assert(first_id_fault(ids.take(i + 1)) == id_fault(profile_ids@[i as int]@));
                    lemma_first_fault_extends(ids, i as int + 1);
                }
                return Err(e);
            },
        }
        let trimmed = trim_string(profile_ids[i].as_str());
        if !contains_text(&normalized, trimmed.as_str()) {
            let ghost before = normalized@;
            normalized.push(trimmed);
            assert(texts(normalized@) =~= texts(before).push(trimmed@));
        }
        i = i + 1;
    }
    assert(ids.take(profile_ids@.len() as int) =~= ids);
    Ok(normalized)
}

proof fn lemma_first_fault_extends(ids: Seq<Seq<char>>, n: int)
    requires
        0 <= n <= ids.len(),
        first_id_fault(ids.take(n)) is Some,
    ensures
        first_id_fault(ids) == first_id_fault(ids.take(n)),
    decreases ids.len() - n,
{
    if n < ids.len() {
        assert(ids.take(n + 1).drop_last() =~= ids.take(n));
        assert(first_id_fault(ids.take(n + 1)) == first_id_fault(ids.take(n)));
        lemma_first_fault_extends(ids, n + 1);
    } else {
        assert(ids.take(n) =~= ids);
    }
}

/// Checks a decoded stored list: each id present and within
/// `MAX_PROFILE_ID_LEN` bytes; later duplicates dropped, order kept.
pub fn stored_profile_ids(parsed: Vec<String>) -> (r: Result<Vec<String>, LocalStoreError>)
    ensures
        stored_check(texts(parsed@), r),
{
    let ghost ids = texts(parsed@);
    let mut out: Vec<String> = Vec::new();
    let mut i: usize = 0;
    while i < parsed.len()
        invariant
            i <= parsed@.len(),
            ids == texts(parsed@),
            first_id_fault(ids.take(i as int)) is None,
            texts(out@) == deduplicated_ids(ids.take(i as int)),
        decreases parsed@.len() - i,
    {
        assert(ids.take(i + 1).drop_last() =~= ids.take(i as int));
        assert(ids.take(i + 1).last() == parsed@[i as int]@);
        match check_id(parsed[i].as_str()) {
            Ok(()) => {},
            Err(e) => {
                proof {
                    lemma_first_fault_extends(ids, i as int + 1);
                }
                return Err(e);
            },
        }
        if !contains_text(&out, parsed[i].as_str()) {
            let ghost before = out@;
            out.push(parsed[i].as_str().to_owned());
            assert(texts(out@) =~= texts(before).push(parsed@[i as int]@));
        }
        i = i + 1;
    }
    assert(ids.take(parsed@.len() as int) =~= ids);
    Ok(out)
}

/// Reads a stored list: decodes the JSON array, then checks it with
/// `stored_profile_ids`. A text that is not an array of strings is
/// corrupt persisted state.
pub fn parse_profile_ids(raw: &str) -> (r: Result<Vec<String>, LocalStoreError>)
    ensures
        match json_string_list(raw@) {
            None => r matches Err(LocalStoreError::InvalidPersistedState(_)),
            Some(ids) => stored_check(ids, r),
        },
{
    match decode_string_list(raw) {
        Ok(parsed) => stored_profile_ids(parsed),
        Err(message) => Err(LocalStoreError::InvalidPersistedState(message)),
    }
}

/// A per-skill preference key must name a skill.
pub fn validate_skill_pref_key(skill_id: &str) -> (r: Result<(), LocalStoreError>)
    ensures
        r is Ok <==> trim_seq(skill_id@).len() > 0,
        r matches Err(e) ==> e matches LocalStoreError::InvalidInput(m) && m@ == blank_message(
            "skill_id"@,
        ),
{
    validate_non_empty("skill_id", skill_id)
}

/// What a preference write stores: the normalized list and its JSON text.
pub fn pref_row(profile_ids: &[String]) -> (r: Result<(Vec<String>, String), LocalStoreError>)
    ensures
        r matches Ok((v, text)) ==> normalize_check(
            texts(profile_ids@),
            Ok::<Vec<String>, LocalStoreError>(v),
        ) && text@ == json_string_array(texts(v@)) && json_string_list(text@) == Some(texts(v@)),
        profile_ids@.len() > MAX_TARGETS ==> (r matches Err(LocalStoreError::InvalidInput(m))
            && m@ == "deployment targets exceed the maximum of 64"@),
        profile_ids@.len() <= MAX_TARGETS && first_id_fault(texts(profile_ids@)) is Some ==> (
        r matches Err(LocalStoreError::InvalidInput(m)) && first_id_fault(texts(profile_ids@))
            == Some(m@)),
        r is Err ==> r matches Err(LocalStoreError::InvalidInput(_)),
{
    let normalized = normalize_profile_ids(profile_ids)?;
    match encode_string_list(&normalized) {
        Ok(text) => Ok((normalized, text)),
        Err(message) => Err(LocalStoreError::InvalidInput(message)),
    }
}

// ---------------------------------------------------------------------
// Laws.
/// A normalized list holds each id once.
pub proof fn lemma_normalized_has_no_duplicates(ids: Seq<Seq<char>>)
    ensures
        normalized_ids(ids).no_duplicates(),
    decreases ids.len(),
{
    if ids.len() > 0 {
        lemma_normalized_has_no_duplicates(ids.drop_last());
    }
}

proof fn lemma_normalized_members(ids: Seq<Seq<char>>)
    ensures
        forall|k: int|
            0 <= k < normalized_ids(ids).len() ==> exists|j: int|
                0 <= j < ids.len() && #[trigger] normalized_ids(ids)[k] == trim_seq(ids[j]),
    decreases ids.len(),
{
    if ids.len() > 0 {
        lemma_normalized_members(ids.drop_last());
        let rest = normalized_ids(ids.drop_last());
        assert forall|k: int| 0 <= k < normalized_ids(ids).len() implies exists|j: int|
            0 <= j < ids.len() && #[trigger] normalized_ids(ids)[k] == trim_seq(ids[j]) by {
            if k < rest.len() {
                let j = choose|j: int|
                    0 <= j < ids.drop_last().len() && rest[k] == trim_seq(ids.drop_last()[j]);
                assert(ids[j] == ids.drop_last()[j]);
            } else {
                assert(normalized_ids(ids)[k] == trim_seq(ids[ids.len() - 1]));
            }
        }
    }
}

proof fn lemma_dedup_of_distinct(ids: Seq<Seq<char>>)
    requires
        ids.no_duplicates(),
    ensures
        deduplicated_ids(ids) == ids,
    decreases ids.len(),
{
    if ids.len() > 0 {
        let d = ids.drop_last();
        assert(d.no_duplicates());
        lemma_dedup_of_distinct(d);
        assert(!d.contains(ids.last())) by {
            if d.contains(ids.last()) {
                let k = choose|k: int| 0 <= k < d.len() && d[k] == ids.last();
                assert(ids[k] == ids[ids.len() - 1]);
            }
        }
        assert(d.push(ids.last()) =~= ids);
    }
}

proof fn lemma_no_fault_all(ids: Seq<Seq<char>>)
    requires
        first_id_fault(ids) is None,
    ensures
        forall|j: int| 0 <= j < ids.len() ==> id_fault(#[trigger] ids[j]) is None,
    decreases ids.len(),
{
    if ids.len() > 0 {
        lemma_no_fault_all(ids.drop_last());
        assert forall|j: int| 0 <= j < ids.len() implies id_fault(#[trigger] ids[j]) is None by {
            if j < ids.len() - 1 {
                assert(ids[j] == ids.drop_last()[j]);
            }
        }
    }
}

proof fn lemma_all_fault_free(ids: Seq<Seq<char>>)
    requires
        forall|j: int| 0 <= j < ids.len() ==> id_fault(#[trigger] ids[j]) is None,
    ensures
        first_id_fault(ids) is None,
    decreases ids.len(),
{
    if ids.len() > 0 {
        assert forall|j: int| 0 <= j < ids.drop_last().len() implies id_fault(
            #[trigger] ids.drop_last()[j],
        ) is None by {
            assert(ids.drop_last()[j] == ids[j]);
        }
        lemma_all_fault_free(ids.drop_last());
        assert(id_fault(ids[ids.len() - 1]) is None);
    }
}

/// Normalizing an accepted list twice changes nothing: the result is
/// accepted again and is its own normal form.
pub proof fn lemma_normalize_is_idempotent(ids: Seq<Seq<char>>)
    requires
        ids.len() <= MAX_TARGETS,
        first_id_fault(ids) is None,
    ensures
        normalized_ids(ids).len() <= MAX_TARGETS,
        first_id_fault(normalized_ids(ids)) is None,
        normalized_ids(normalized_ids(ids)) == normalized_ids(ids),
{
    let n = normalized_ids(ids);
    lemma_normalized_len(ids);
    lemma_normalized_members(ids);
    lemma_no_fault_all(ids);
    assert forall|k: int| 0 <= k < n.len() implies id_fault(#[trigger] n[k]) is None && trim_seq(
        n[k],
    ) == n[k] by {
        let j = choose|j: int| 0 <= j < ids.len() && n[k] == trim_seq(ids[j]);
        lemma_trim_idempotent(ids[j]);
        assert(id_fault(ids[j]) is None);
    }
    lemma_all_fault_free(n);
    lemma_normalized_has_no_duplicates(ids);
    lemma_normalize_trimmed_distinct(n);
}

proof fn lemma_normalized_len(ids: Seq<Seq<char>>)
    ensures
        normalized_ids(ids).len() <= ids.len(),
    decreases ids.len(),
{
    if ids.len() > 0 {
        lemma_normalized_len(ids.drop_last());
    }
}

proof fn lemma_normalize_trimmed_distinct(n: Seq<Seq<char>>)
    requires
        n.no_duplicates(),
        forall|k: int| 0 <= k < n.len() ==> trim_seq(#[trigger] n[k]) == n[k],
    ensures
        normalized_ids(n) == n,
    decreases n.len(),
{
    if n.len() > 0 {
        let d = n.drop_last();
        assert forall|k: int| 0 <= k < d.len() implies trim_seq(#[trigger] d[k]) == d[k] by {
            assert(d[k] == n[k]);
        }
        lemma_normalize_trimmed_distinct(d);
        assert(trim_seq(n[n.len() - 1]) == n.last());
        assert(!d.contains(n.last())) by {
            if d.contains(n.last()) {
                let k = choose|k: int| 0 <= k < d.len() && d[k] == n.last();
                assert(n[k] == n[n.len() - 1]);
            }
        }
        assert(d.push(n.last()) =~= n);
    }
}

/// What a preference write stores reads back as the list it returned:
/// the stored JSON text decodes to the normalized list, which passes the
/// stored-list check unchanged.
pub proof fn lemma_pref_round_trip(ids: Seq<Seq<char>>, stored: Seq<char>)
    requires
        ids.len() <= MAX_TARGETS,
        first_id_fault(ids) is None,
        json_string_list(stored) == Some(normalized_ids(ids)),
    ensures
        json_string_list(stored) matches Some(back) && first_id_fault(back) is None
            && deduplicated_ids(back) == normalized_ids(ids),
{
    lemma_normalize_is_idempotent(ids);
    lemma_normalized_has_no_duplicates(ids);
    lemma_dedup_of_distinct(normalized_ids(ids));
}

} // verus!
