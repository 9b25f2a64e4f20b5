//! Times of requests: the text form found in a log, and seconds since the
//! epoch.

use vstd::prelude::*;

verus! {

/// `chrono::ParseError`: why `chrono` did not accept a text. Nothing is
/// stated of its values.
#[verifier::external_type_specification]
#[verifier::external_body]
pub struct ExParseError(chrono::ParseError);

/// The format of a timestamp in a log: day, abbreviated month name, year,
/// hour, minute, second and the offset from UTC, as in
/// `10/Oct/2000:13:55:36 -0700`.
pub open spec fn timestamp_format() -> Seq<char> {
    "%d/%h/%Y:%H:%M:%S %z"@
}

/// The seconds since the epoch of the instant that `text` denotes when read
/// by `format`, or `None` where `text` does not parse by `format`. This is
/// what `chrono` computes; nothing more is stated of it here.
pub uninterp spec fn parsed_seconds(text: Seq<char>, format: Seq<char>) -> Option<int>;

/// Seconds since the epoch as a record holds them: reduced into 32 bits.
/// For an instant from 1970 up to early 2106 this is the number of seconds
/// itself.
pub open spec fn timestamp_of(seconds: int) -> u32 {
    (seconds % 0x1_0000_0000) as u32
}

/// Parses `text` with `chrono::DateTime::parse_from_str` by `format` and
/// reads the instant's `timestamp()`. The result is `parsed_seconds` of the
/// two texts: `Ok` with the seconds where `chrono` accepts `text`, and
/// `chrono`'s error where it does not.
#[verifier::external_body]
pub(crate) fn parse_seconds(text: &str, format: &str) -> (parsed: Result<i64, chrono::ParseError>)
    ensures
        parsed matches Ok(seconds) ==> parsed_seconds(text@, format@) == Some(seconds as int),
        parsed is Err ==> parsed_seconds(text@, format@) is None,
{
    match chrono::DateTime::parse_from_str(text, format) {
        Ok(instant) => Ok(instant.timestamp()),
        Err(error) => Err(error),
    }
}

/// Reads a timestamp of a log: the seconds since the epoch of the instant it
/// denotes, or `None` where it is not in the format of a log's timestamps.
pub fn read_timestamp(text: &str) -> (seconds: Option<i64>)
    ensures
        seconds matches Some(s) ==> parsed_seconds(text@, timestamp_format()) == Some(s as int),
        seconds is None ==> parsed_seconds(text@, timestamp_format()) is None,
{
    match parse_seconds(text, "%d/%h/%Y:%H:%M:%S %z") {
        Ok(seconds) => Some(seconds),
        Err(_) => None,
    }
}

/// Reduces seconds since the epoch into the 32 bits of a record's timestamp.
pub fn epoch_timestamp(seconds: i64) -> (timestamp: u32)
    ensures
        timestamp == timestamp_of(seconds as int),
{
    let low: i64 = seconds & 0xFFFF_FFFF;
    assert(0 <= low <= 0xFFFF_FFFF && low == seconds % 0x1_0000_0000) by (bit_vector)
        requires
            low == seconds & 0xFFFF_FFFF,
    ;
    low as u32
}

} // verus!
