//! Identifiers and timestamps of stored records.

use vstd::prelude::*;

verus! {

/// A lowercase hexadecimal digit.
pub open spec fn is_lower_hex(c: char) -> bool {
    ('0' <= c && c <= '9') || ('a' <= c && c <= 'f')
}

/// The simple text form of a random (version 4) UUID: 32 lowercase hex
/// digits, the version digit `4` at position 12 and one of `8`, `9`, `a`,
/// `b` at position 16.
pub open spec fn is_random_uuid_text(s: Seq<char>) -> bool {
    &&& s.len() == 32
    &&& forall|i: int| 0 <= i < s.len() ==> is_lower_hex(#[trigger] s[i])
    &&& s[12] == '4'
    &&& (s[16] == '8' || s[16] == '9' || s[16] == 'a' || s[16] == 'b')
}

/// `uuid::Uuid::new_v4`, written in its simple form. The value is random; what
/// holds of every outcome is its shape.
#[verifier::external_body]
fn random_uuid_text() -> (r: String)
    ensures
        is_random_uuid_text(r@),
{
    uuid::Uuid::new_v4().simple().to_string()
}

/// The id of a new record: the prefix, `_`, and the given UUID text.
pub fn id_with_prefix(prefix: &str, uuid_text: &str) -> (r: String)
    ensures
        r@ == prefix@ + "_"@ + uuid_text@,
{
    let mut id = String::from_str(prefix);
    id.append("_");
    id.append(uuid_text);
    id
}

/// A fresh id for a record of the kind `prefix`: the prefix, `_`, and a new
/// random UUID in simple form.
pub fn generate_id(prefix: &str) -> (r: String)
    ensures
        exists|u: Seq<char>| is_random_uuid_text(u) && r@ == prefix@ + "_"@ + u,
{
    let u = random_uuid_text();
    let r = id_with_prefix(prefix, u.as_str());
    assert(is_random_uuid_text(u@));
    r
}

/// A point in time of the system clock.
#[verifier::external_type_specification]
#[verifier::external_body]
pub struct ExSystemTime(std::time::SystemTime);

/// The error of a clock reading before the UNIX epoch.
#[verifier::external_type_specification]
#[verifier::external_body]
pub struct ExSystemTimeError(std::time::SystemTimeError);

/// `SystemTime::now`: the current time. Nothing is known of the reading.
#[verifier::external_body]
fn clock_now() -> std::time::SystemTime {
    std::time::SystemTime::now()
}

/// `SystemTime::duration_since` the UNIX epoch. Whether it succeeds depends on
/// the clock reading, which nothing here states.
#[verifier::external_body]
fn since_unix_epoch(t: std::time::SystemTime) -> Result<core::time::Duration, std::time::SystemTimeError> {
    t.duration_since(std::time::UNIX_EPOCH)
}

/// `Duration::as_secs`: the whole seconds of a duration. Durations are not
/// modelled, so nothing is stated of the number.
#[verifier::external_body]
fn whole_seconds(d: &core::time::Duration) -> u64 {
    d.as_secs()
}

/// The stored timestamp of an elapsed time since the epoch: its whole seconds,
/// or 0 when the clock was before the epoch, as a signed 64-bit number.
pub fn timestamp_from_elapsed(elapsed_secs: Option<u64>) -> (r: i64)
    ensures
        r == match elapsed_secs {
            Some(s) => s as i64,
            None => 0i64,
        },
{
    match elapsed_secs {
        Some(s) => s as i64,
        None => 0,
    }
}

/// The current UNIX time in whole seconds, 0 when the clock is before the
/// epoch. The clock reading is not modelled: the conversion of the reading is
/// `timestamp_from_elapsed`.
pub fn unix_timestamp() -> i64 {
    let elapsed = match since_unix_epoch(clock_now()) {
        Ok(d) => Some(whole_seconds(&d)),
        Err(_) => None,
    };
    timestamp_from_elapsed(elapsed)
}

} // verus!
