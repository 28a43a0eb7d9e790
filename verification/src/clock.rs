//! Identifiers and instants: fresh random identifiers, the current time, and
//! the calendar arithmetic that the time crate performs.
//!
//! Instants are counted in nanoseconds since the Unix epoch, UTC.

use vstd::prelude::*;
use vstd::arithmetic::power::pow;
use crate::digest::hex_digit;

verus! {

/// The first instant the time crate represents: -9999-01-01T00:00:00Z.
pub const MIN_INSTANT_NANOS: i128 = -377_705_116_800_000_000_000i128;

/// The last instant the time crate represents: 9999-12-31T23:59:59.999999999Z.
pub const MAX_INSTANT_NANOS: i128 = 253_402_300_799_999_999_999i128;

/// An instant that the time crate can represent.
pub open spec fn valid_instant(nanos: i128) -> bool {
    MIN_INSTANT_NANOS <= nanos <= MAX_INSTANT_NANOS
}

/// A fresh random identifier: calls `uuid::Uuid::new_v4` and returns its
/// 128-bit value. Nothing is claimed of the value.
#[verifier::external_body]
pub(crate) fn new_id() -> u128 {
    uuid::Uuid::new_v4().as_u128()
}

/// The current instant: calls `time::OffsetDateTime::now_utc`. The contract
/// claims only that the instant is one the time crate represents.
#[verifier::external_body]
pub(crate) fn now_nanos() -> (r: i128)
    ensures
        valid_instant(r),
{
    time::OffsetDateTime::now_utc().unix_timestamp_nanos()
}

/// The calendar year (UTC) of an instant, as the time crate computes it.
pub uninterp spec fn utc_year_of(nanos: i128) -> i32;

/// The calendar year (UTC) of an instant: calls
/// `time::OffsetDateTime::from_unix_timestamp_nanos` and `OffsetDateTime::year`.
/// The contract names the result; it claims nothing more of it.
#[verifier::external_body]
pub(crate) fn utc_year(nanos: i128) -> (r: i32)
    requires
        valid_instant(nanos),
    ensures
        r == utc_year_of(nanos),
{
    time::OffsetDateTime::from_unix_timestamp_nanos(nanos).unwrap().year()
}

/// The instant of midnight UTC at the start of a calendar day, as the time
/// crate computes it.
pub uninterp spec fn utc_midnight_of(year: i32, month: u8, day: u8) -> i128;

/// Midnight UTC at the start of the given day: calls
/// `time::Date::from_calendar_date`, `Date::midnight`, `PrimitiveDateTime::assume_utc`
/// and `OffsetDateTime::unix_timestamp_nanos`. The contract names the result.
/// Days 1 to 28 exist in every month, so the date is valid.
#[verifier::external_body]
pub(crate) fn utc_midnight(year: i32, month: u8, day: u8) -> (r: i128)
    requires
        -9999 <= year <= 9999,
        1 <= month <= 12,
        1 <= day <= 28,
    ensures
        r == utc_midnight_of(year, month, day),
{
    let m = time::Month::try_from(month).unwrap();
    time::Date::from_calendar_date(year, m, day).unwrap().midnight().assume_utc().unix_timestamp_nanos()
}

/// The `k`-th of the 32 hex digits of a 128-bit value, most significant first.
pub open spec fn nibble_at(id: u128, k: int) -> u8 {
    ((id as int / pow(16, (31 - k) as nat)) % 16) as u8
}

/// Which of the 32 hex digits the `i`-th character of the hyphenated text
/// shows, for a character that is not a hyphen.
pub open spec fn uuid_digit_index(i: int) -> int {
    if i < 8 {
        i
    } else if i < 13 {
        i - 1
    } else if i < 18 {
        i - 2
    } else if i < 23 {
        i - 3
    } else {
        i - 4
    }
}

/// The hyphenated text of an identifier as a UUID: its 32 lower-case hex
/// digits, most significant first, in groups of 8, 4, 4, 4 and 12 joined by
/// hyphens.
pub open spec fn uuid_text_of(id: u128) -> Seq<char> {
    Seq::new(
        36,
        |i: int|
            if i == 8 || i == 13 || i == 18 || i == 23 {
                '-'
            } else {
                hex_digit(nibble_at(id, uuid_digit_index(i)))
            },
    )
}

/// Calls `uuid::Uuid::from_u128`, which takes the value's big-endian bytes,
/// and formats the UUID with `Display`, which writes the lower-case
/// hyphenated form.
#[verifier::external_body]
pub(crate) fn uuid_text(id: u128) -> (r: String)
    ensures
        r@ == uuid_text_of(id),
{
    uuid::Uuid::from_u128(id).to_string()
}

} // verus!
