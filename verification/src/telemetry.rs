//! Structured desktop telemetry: one JSON object per line.
//!
//! Events carry identifiers and counts only. Every key and value is
//! escaped so that a line is always one well-formed JSON string per field:
//! quotes and backslashes are escaped, and no control character is ever
//! written raw.
use vstd::prelude::*;
use crate::digest::hex_digit;
use crate::text::{chars_of, push_char};

verus! {

/// The log size past which the file is rolled over to `.old`.
pub const MAX_LOG_BYTES: u64 = 5242880;

/// The escape of one character inside a JSON string.
pub open spec fn escape_char(c: char) -> Seq<char> {
    if c == '"' {
        seq!['\\', '"']
    } else if c == '\\' {
        seq!['\\', '\\']
    } else if c == '\n' {
        seq!['\\', 'n']
    } else if c == '\r' {
        seq!['\\', 'r']
    } else if c == '\t' {
        seq!['\\', 't']
    } else if (c as u32) < 0x20 {
        seq!['\\', 'u', '0', '0', hex_digit((c as u32) as int / 16), hex_digit((c as u32) as int % 16)]
    } else {
        seq![c]
    }
}

/// The escape of a whole text: each character escaped in turn.
pub open spec fn escape_text(s: Seq<char>) -> Seq<char>
    decreases s.len(),
{
    if s.len() == 0 {
        seq![]
    } else {
        escape_text(s.drop_last()) + escape_char(s.last())
    }
}

fn push_escaped(out: &mut String, c: char)
    ensures
        final(out)@ == old(out)@ + escape_char(c),
{
    let ghost start = out@;
    if c == '"' {
        push_char(out, '\\');
        push_char(out, '"');
    } else if c == '\\' {
        push_char(out, '\\');
        push_char(out, '\\');
    } else if c == '\n' {
        push_char(out, '\\');
        push_char(out, 'n');
    } else if c == '\r' {
        push_char(out, '\\');
        push_char(out, 'r');
    } else if c == '\t' {
        push_char(out, '\\');
        push_char(out, 't');
    } else if (c as u32) < 0x20 {
        let v = c as u32;
        push_char(out, '\\');
        push_char(out, 'u');
        push_char(out, '0');
        push_char(out, '0');
        push_char(out, crate::digest::hex_digit_char((v / 16) as u8));
        push_char(out, crate::digest::hex_digit_char((v % 16) as u8));
    } else {
        push_char(out, c);
    }
    assert(out@ =~= start + escape_char(c));
}

/// Escapes a text for inclusion between the quotes of a JSON string:
/// `"` and `\` are escaped, newline, carriage return and tab use their
/// short forms, and any other character below U+0020 becomes `\u00XX`.
pub fn json_escape(value: &str) -> (escaped: String)
    ensures
        escaped@ == escape_text(value@),
{
    let v = chars_of(value);
    let mut out = String::new();
    let mut i: usize = 0;
    while i < v.len()
        invariant
            i <= v@.len(),
            v@ == value@,
            out@ == escape_text(v@.take(i as int)),
        decreases v@.len() - i,
    {
        assert(v@.take(i + 1).drop_last() =~= v@.take(i as int));
        push_escaped(&mut out, v[i]);
        i = i + 1;
    }
    assert(v@.take(v@.len() as int) =~= v@);
    out
}

/// One event line: `{"ts":"<ts>","event":"<kind>"` followed by
/// `,"<key>":"<value>"` for each field, then `}`; every part escaped.
pub open spec fn event_text(ts: Seq<char>, kind: Seq<char>, fields: Seq<(Seq<char>, Seq<char>)>) -> Seq<
    char,
>
    decreases fields.len(),
{
    if fields.len() == 0 {
        "{\"ts\":\""@ + escape_text(ts) + "\",\"event\":\""@ + escape_text(kind) + "\""@
    } else {
        event_text(ts, kind, fields.drop_last()) + ",\""@ + escape_text(fields.last().0)
            + "\":\""@ + escape_text(fields.last().1) + "\""@
    }
}

/// The views of a list of fields.
pub open spec fn field_views(fields: Seq<(String, String)>) -> Seq<(Seq<char>, Seq<char>)> {
    fields.map_values(|f: (String, String)| (f.0@, f.1@))
}

/// Formats one event line (without the newline) at time `ts`.
pub fn event_line(ts: &str, kind: &str, fields: &Vec<(String, String)>) -> (line: String)
    ensures
        line@ == event_text(ts@, kind@, field_views(fields@)) + "}"@,
{
    let mut line = String::from_str("{\"ts\":\"");
    line.append(json_escape(ts).as_str());
    line.append("\",\"event\":\"");
    line.append(json_escape(kind).as_str());
    line.append("\"");
    let ghost fv = field_views(fields@);
    let mut i: usize = 0;
    while i < fields.len()
        invariant
            i <= fields@.len(),
            fv == field_views(fields@),
            line@ == event_text(ts@, kind@, fv.take(i as int)),
        decreases fields@.len() - i,
    {
        assert(fv.take(i + 1).drop_last() =~= fv.take(i as int));
        assert(fv.take(i + 1).last() == (fields@[i as int].0@, fields@[i as int].1@));
        line.append(",\"");
        line.append(json_escape(fields[i].0.as_str()).as_str());
        line.append("\":\"");
        line.append(json_escape(fields[i].1.as_str()).as_str());
        line.append("\"");
        i = i + 1;
    }
    assert(fv.take(fields@.len() as int) =~= fv);
    line.append("}");
    line
}

/// The line of a plain message event, with no fields.
pub fn message(ts: &str, kind: &str) -> (line: String)
    ensures
        line@ == event_text(ts@, kind@, seq![]) + "}"@,
{
    let fields: Vec<(String, String)> = Vec::new();
    assert(field_views(fields@) =~= seq![]);
    event_line(ts, kind, &fields)
}

/// Whether a log of `len` bytes is rolled over before the next line.
pub fn needs_rollover(len: u64) -> (b: bool)
    ensures
        b == (len > MAX_LOG_BYTES),
{
    len > MAX_LOG_BYTES
}

/// An escaped text holds no control character below U+0020 and no
/// unescaped quote: every `"` in it follows a backslash.
pub proof fn lemma_escaped_text_has_no_control_chars(s: Seq<char>)
    ensures
        forall|i: int|
            0 <= i < escape_text(s).len() ==> (#[trigger] escape_text(s)[i] as u32) >= 0x20,
        forall|i: int|
            0 <= i < escape_text(s).len() && #[trigger] escape_text(s)[i] == '"' ==> i > 0
                && escape_text(s)[i - 1] == '\\',
    decreases s.len(),
{
    if s.len() > 0 {
        lemma_escaped_text_has_no_control_chars(s.drop_last());
        let a = escape_text(s.drop_last());
        let b = escape_char(s.last());
        let c = s.last();
        assert(escape_text(s) == a + b);
        assert forall|i: int| 0 <= i < b.len() implies (#[trigger] b[i] as u32) >= 0x20 by {
            if (c as u32) < 0x20 && c != '\n' && c != '\r' && c != '\t' {
                let v = c as u32;
                assert(0 <= v / 16 < 16);
                assert(0 <= v % 16 < 16);
            }
        }
        assert forall|i: int| 0 <= i < escape_text(s).len() implies (#[trigger] escape_text(
            s,
        )[i] as u32) >= 0x20 by {
            if i >= a.len() {
                assert(escape_text(s)[i] == b[i - a.len()]);
            } else {
                assert(escape_text(s)[i] == a[i]);
            }
        }
        assert forall|i: int|
            0 <= i < escape_text(s).len() && #[trigger] escape_text(s)[i] == '"' implies i > 0
                && escape_text(s)[i - 1] == '\\' by {
            if i >= a.len() {
                assert(escape_text(s)[i] == b[i - a.len()]);
                if (c as u32) < 0x20 && c != '\n' && c != '\r' && c != '\t' {
                    let v = c as u32;
                    assert(0 <= v / 16 < 16);
                    assert(0 <= v % 16 < 16);
                }
                assert(i - a.len() == 1);
                assert(escape_text(s)[i - 1] == b[0]);
            } else {
                assert(escape_text(s)[i] == a[i]);
                assert(escape_text(s)[i - 1] == a[i - 1]);
            }
        }
    }
}

} // verus!
