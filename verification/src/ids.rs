//! Identifiers and clock readings, as the `uuid` and `chrono` crates produce them.
//!
//! A UUID is carried as its 128-bit value; an instant as microseconds since the
//! UNIX epoch (UTC).

use vstd::prelude::*;

verus! {

/// `16` to the power `n`.
pub open spec fn pow16(n: nat) -> nat
    decreases n,
{
    if n == 0 {
        1
    } else {
        16 * pow16((n - 1) as nat)
    }
}

/// The lower-case hexadecimal digit of `n` (below 16).
pub open spec fn hex_digit(n: int) -> char {
    if n < 10 {
        (48 + n) as char
    } else {
        (87 + n) as char
    }
}

/// The place among the 32 hexadecimal digits that character `i` of the
/// hyphenated text shows (hyphens stand at 8, 13, 18 and 23).
pub open spec fn uuid_digit_place(i: int) -> int {
    if i < 8 {
        i
    } else if i < 13 {
        i - 1
    } else if i < 18 {
        i - 2
    } else if i < 23 {
        i - 3
    } else {
        i - 4
    }
}

/// The text that `uuid` writes for a UUID value: its 32 hexadecimal digits,
/// most significant first, in lower case, in groups of 8-4-4-4-12 joined by
/// hyphens.
pub open spec fn uuid_text(id: u128) -> Seq<char> {
    Seq::new(
        36,
        |i: int|
            if i == 8 || i == 13 || i == 18 || i == 23 {
                '-'
            } else {
                hex_digit(((id as int) / (pow16((31 - uuid_digit_place(i)) as nat) as int)) % 16)
            },
    )
}

/// The first instant of chrono's calendar (January 1 of year -262143), in
/// microseconds since the UNIX epoch.
pub open spec fn calendar_first_micros() -> int {
    -8_334_601_228_800_000_000
}

/// The last instant of chrono's calendar (the last microsecond of December 31
/// of year 262142), in microseconds since the UNIX epoch.
pub open spec fn calendar_last_micros() -> int {
    8_210_266_876_799_999_999
}

/// Instant `t` lies in chrono's calendar.
pub open spec fn in_calendar(t: int) -> bool {
    calendar_first_micros() <= t <= calendar_last_micros()
}

/// `secs` seconds make a chrono `TimeDelta`.
pub open spec fn seconds_delta_ok(secs: int) -> bool {
    -9_223_372_036_854_775 <= secs <= 9_223_372_036_854_775
}

/// The value that `uuid::Uuid::parse_str` reads from a text, `None` where it
/// reports an error.
pub uninterp spec fn uuid_parse(text: Seq<char>) -> Option<u128>;

/// Formats a UUID value with `uuid::Uuid::from_u128` and its `Display`
/// (`to_string`). Claimed: the text is the one named by `uuid_text`, it has
/// the hyphenated lower-case form, and `parse_str` reads it back to the same
/// value (the hyphenated form is one that the parser accepts).
#[verifier::external_body]
pub(crate) fn format_uuid(id: u128) -> (r: String)
    ensures
        r@ == uuid_text(id),
        uuid_parse(r@) == Some(id),
{
    uuid::Uuid::from_u128(id).to_string()
}

/// Parses a UUID text with `uuid::Uuid::parse_str` and takes its value with
/// `as_u128`. Claimed: the result is the one named by `uuid_parse`.
#[verifier::external_body]
pub(crate) fn parse_uuid(text: &str) -> (r: Option<u128>)
    ensures
        r == uuid_parse(text@),
{
    match uuid::Uuid::parse_str(text) {
        Ok(u) => Some(u.as_u128()),
        Err(_) => None,
    }
}

/// `id` carries the version number 4 and the RFC 4122 variant bits `10`.
pub open spec fn is_v4_uuid(id: u128) -> bool {
    id & 0x0000_0000_0000_f000_c000_0000_0000_0000u128 == 0x0000_0000_0000_4000_8000_0000_0000_0000u128
}

/// A fresh random UUID from `uuid::Uuid::new_v4`, as its value. The value is
/// random; claimed only what `new_v4` fixes in every outcome: the version
/// nibble is 4 and the variant bits are `10`.
#[verifier::external_body]
pub(crate) fn random_uuid() -> (r: u128)
    ensures
        is_v4_uuid(r),
{
    uuid::Uuid::new_v4().as_u128()
}

/// The current time from `chrono::Utc::now`, as `timestamp_micros`. The
/// reading depends on the clock; claimed only that it lies in chrono's
/// calendar, as every `DateTime` does, and not before the UNIX epoch
/// (`Utc::now` panics on a system time before the epoch rather than return
/// one).
#[verifier::external_body]
pub(crate) fn current_time_micros() -> (r: i64)
    ensures
        0 <= r,
        in_calendar(r as int),
{
    chrono::Utc::now().timestamp_micros()
}

/// Adds whole seconds to an instant with chrono: `DateTime::from_timestamp_micros`,
/// `TimeDelta::try_seconds`, `checked_add_signed`, `timestamp_micros`.
/// Claimed: there is a result exactly when the instant lies in chrono's
/// calendar, the seconds make a `TimeDelta`, and the moved instant lies in the
/// calendar too; the result is the instant moved by exactly `secs` seconds.
#[verifier::external_body]
pub(crate) fn add_seconds_micros(t: i64, secs: i64) -> (r: Option<i64>)
    ensures
        r is Some <==> (in_calendar(t as int) && seconds_delta_ok(secs as int) && in_calendar(
            t + secs * 1_000_000,
        )),
        r matches Some(e) ==> e == t + secs * 1_000_000,
{
    let start = chrono::DateTime::from_timestamp_micros(t)?;
    let delta = chrono::TimeDelta::try_seconds(secs)?;
    Some(start.checked_add_signed(delta)?.timestamp_micros())
}

} // verus!
