use vstd::prelude::*;

use crate::json::is_digit;

verus! {

// ---------------------------------------------------------------------------
// The two places the library touches the outside world directly: fresh
// session identifiers and the clock. Everything else reaches the outside
// through the callers in the surrounding application.
// ---------------------------------------------------------------------------

pub open spec fn is_hex_digit(b: u8) -> bool {
    is_digit(b) || (97 <= b <= 102) || (65 <= b <= 70)
}

/// Canonical 8-4-4-4-12 UUID text: 36 bytes, dashes in their places, the
/// rest hexadecimal digits.
pub open spec fn is_uuid_text(s: Seq<u8>) -> bool {
    s.len() == 36 && (forall|i: int|
        0 <= i < 36 ==> (if i == 8 || i == 13 || i == 18 || i == 23 {
            s[i] == 45
        } else {
            is_hex_digit(#[trigger] s[i])
        }))
}

/// Relies on uuid::Uuid::new_v4 and its hyphenated Display form: 36 bytes of
/// lowercase hexadecimal in five dash-separated groups. The value is random;
/// nothing is said of it beyond its shape.
#[verifier::external_body]
pub fn fresh_uuid() -> (r: Vec<u8>)
    ensures
        is_uuid_text(r@),
{
    uuid::Uuid::new_v4().to_string().into_bytes()
}

/// Relies on chrono::Utc::now and DateTime::timestamp_millis: milliseconds
/// since the Unix epoch in UTC. The value depends on the clock; nothing is
/// promised of it.
#[verifier::external_body]
pub fn now_millis() -> i64 {
    chrono::Utc::now().timestamp_millis()
}

} // verus!
