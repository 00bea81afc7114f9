//! Process-environment values the pipeline consumes: the wall clock, fresh
//! correlation ids, and random draws for the toy generator.
//!
//! Each one comes from outside the verified world through a small trusted
//! wrapper; the verified functions around them state only what holds of
//! every possible outcome.

use vstd::prelude::*;
use vstd::string::StrSliceExecFns;

verus! {

/// Relies on `std::time::SystemTime::now` and `Duration::as_millis`: yields
/// the milliseconds since the epoch, or zero when the clock reads earlier
/// than the epoch. Nothing can be promised of the value itself.
#[verifier::external_body]
fn clock_now_ms() -> u64 {
    std::time::SystemTime::now()
        .duration_since(std::time::UNIX_EPOCH)
        .unwrap_or_default()
        .as_millis() as u64
}

/// Producer timestamp for a freshly created envelope, in epoch milliseconds.
/// The value comes from the wall clock; no property of it is promised.
pub fn current_timestamp_ms() -> u64 {
    clock_now_ms()
}

/// Relies on `uuid::Uuid::new_v4` and its `Display` impl: a version-4 UUID
/// rendered in the hyphenated lowercase form, which is exactly 36 characters.
#[verifier::external_body]
fn fresh_uuid_chars() -> (r: Vec<char>)
    ensures
        r@.len() == 36,
{
    uuid::Uuid::new_v4().to_string().chars().collect()
}

/// A fresh correlation id: a hyphenated version-4 UUID, 36 characters long.
/// Two calls may return anything; only the length is promised.
pub fn generate_uuid() -> (r: String)
    ensures
        r@.len() == 36,
{
    let chars = fresh_uuid_chars();
    chars_to_string(&chars)
}

/// Relies on `rand::random::<u64>`: a draw from the thread-local generator.
/// Nothing can be promised of the value.
#[verifier::external_body]
pub(crate) fn random_u64() -> u64 {
    rand::random::<u64>()
}

/// Relies on `String` implementing `FromIterator<char>`: collecting chars
/// yields a string whose character sequence is exactly the input.
#[verifier::external_body]
pub fn chars_to_string(v: &Vec<char>) -> (r: String)
    ensures
        r@ == v@,
{
    v.iter().collect()
}

/// The characters of a string slice, as a vector.
pub fn str_to_chars(s: &str) -> (r: Vec<char>)
    ensures
        r@ == s@,
{
    let n = s.unicode_len();
    let mut r: Vec<char> = Vec::new();
    let mut i: usize = 0;
    while i < n
        invariant
            i <= n,
            n == s@.len(),
            r@ == s@.take(i as int),
        decreases n - i,
    {
        let c = s.get_char(i);
        r.push(c);
        i += 1;
        proof {
            assert(r@ =~= s@.take(i as int));
        }
    }
    proof {
        assert(s@.take(n as int) =~= s@);
    }
    r
}

} // verus!
