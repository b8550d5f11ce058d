//! Calls into the outside world that the core's logic needs: fresh
//! identifiers, the clock, and the two conversions between `String` and
//! its character sequence.  Each is a thin trusted wrapper; everything
//! that depends on their results is verified against these contracts.

use vstd::prelude::*;

verus! {

/// Relies on `uuid::Uuid::new_v4` and its `Display`: a random version-4
/// UUID, rendered in the hyphenated form, which is exactly 36 characters.
/// The value is random, so nothing more is promised of it.
#[verifier::external_body]
pub fn generate_uuid() -> (r: String)
    ensures
        r@.len() == 36,
{
    uuid::Uuid::new_v4().to_string()
}

/// Relies on `chrono::Utc::now` / `timestamp_millis`: the current time in
/// non-leap milliseconds since the Unix epoch.  The result depends on the
/// clock, so nothing is promised of it.
#[verifier::external_body]
pub fn current_unix_millis() -> i64 {
    chrono::Utc::now().timestamp_millis()
}

/// Relies on `str::chars` collected into a `Vec`: yields exactly the
/// characters of the string in order.
#[verifier::external_body]
pub fn string_to_chars(s: &str) -> (r: Vec<char>)
    ensures
        r@ == s@,
{
    s.chars().collect()
}

/// Relies on `FromIterator<char> for String`: builds the string of
/// exactly the given characters in order.
#[verifier::external_body]
pub fn chars_to_string(v: &Vec<char>) -> (r: String)
    ensures
        r@ == v@,
{
    v.iter().collect()
}

} // verus!
