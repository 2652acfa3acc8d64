//! Fresh random identifiers.
use vstd::prelude::*;
use crate::text::is_ascii_alphanumeric;

verus! {

/// A non-empty text of ASCII letters, digits and `-`: the shape of every
/// identifier this library generates.
pub open spec fn is_token_text(s: Seq<char>) -> bool {
    s.len() > 0 && forall|i: int|
        0 <= i < s.len() ==> is_ascii_alphanumeric(#[trigger] s[i]) || s[i] == '-'
}

/// Draws a fresh identifier with `uuid::Uuid::new_v4`, in its hyphenated
/// text form (32 hexadecimal digits in groups joined by `-`). The contract
/// claims only what every outcome satisfies: the text is non-empty and made
/// of ASCII hex digits and `-`. Which identifier comes out is left open:
/// two calls may give anything.
#[verifier::external_body]
pub(crate) fn new_uuid_v4() -> (id: String)
    ensures
        is_token_text(id@),
{
    uuid::Uuid::new_v4().to_string()
}

} // verus!
