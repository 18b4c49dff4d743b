//! What the library takes from the `uuid` and `chrono` crates.
use vstd::arithmetic::power::pow;
use vstd::prelude::*;

use crate::text::digit_char;

verus! {

#[verifier::external_type_specification]
#[verifier::external_body]
pub struct ExUuidError(uuid::Error);

#[verifier::external_type_specification]
#[verifier::external_body]
pub struct ExDateParseError(chrono::ParseError);

/// The 128-bit identifier that the text `s` writes, if it writes one.
pub uninterp spec fn uuid_of_text(s: Seq<char>) -> Option<u128>;

/// The instant, in seconds since the Unix epoch, that the timestamp text `s`
/// writes, if it writes one.
pub uninterp spec fn instant_of_text(s: Seq<char>) -> Option<i64>;

/// The instant `secs` (seconds since the Unix epoch) written in UTC as
/// `YYYY-MM-DD hh:mm:ss +0000`, where it lies in the range of dates that
/// `chrono` covers.
pub uninterp spec fn utc_timestamp_text(secs: i64) -> Option<Seq<char>>;

/// The lower-case hexadecimal digit of `d`, for `d` below sixteen.
pub open spec fn hex_digit(d: int) -> char {
    if d < 10 {
        digit_char(d)
    } else {
        ((d - 10 + ('a' as u32) as int) as u32) as char
    }
}

/// The text of the identifier `id` as 32 lower-case hexadecimal digits, most
/// significant first, without hyphens.
pub open spec fn simple_uuid_text(id: u128) -> Seq<char> {
    Seq::new(32, |i: int| hex_digit((id as int / pow(16, (31 - i) as nat)) % 16))
}

/// Relies on `uuid::Uuid::parse_str`, which reads an identifier in any of its
/// usual text forms, and on `Uuid::as_u128`, which gives its 128 bits.
#[verifier::external_body]
pub(crate) fn parse_uuid_text(s: &str) -> (r: Result<u128, uuid::Error>)
    ensures
        r is Ok <==> uuid_of_text(s@) is Some,
        r matches Ok(v) ==> uuid_of_text(s@) == Some(v),
{
    uuid::Uuid::parse_str(s).map(|u| u.as_u128())
}

/// Relies on `chrono`'s `FromStr` for `DateTime<FixedOffset>` (RFC 3339 with
/// a relaxed separator) and on `DateTime::timestamp`; the instant does not
/// depend on the time zone the text was written in.
#[verifier::external_body]
pub(crate) fn parse_instant_text(s: &str) -> (r: Result<i64, chrono::ParseError>)
    ensures
        r is Ok <==> instant_of_text(s@) is Some,
        r matches Ok(v) ==> instant_of_text(s@) == Some(v),
{
    s.parse::<chrono::DateTime<chrono::FixedOffset>>().map(|d| d.timestamp())
}

/// Relies on `uuid::Uuid::from_u128`, which keeps the bits of `id` in
/// big-endian order, and on the `Display` of `Uuid::as_simple`, which writes
/// each byte as two lower-case hexadecimal digits.
#[verifier::external_body]
pub(crate) fn uuid_simple_text(id: u128) -> (r: String)
    ensures
        r@ == simple_uuid_text(id),
{
    uuid::Uuid::from_u128(id).as_simple().to_string()
}

/// Relies on `chrono::DateTime::from_timestamp`, which gives `None` outside
/// its range of dates, and on `format` with `%Y-%m-%d %H:%M:%S +0000`.
#[verifier::external_body]
pub(crate) fn timestamp_text(secs: i64) -> (r: Option<String>)
    ensures
        match utc_timestamp_text(secs) {
            Some(t) => r matches Some(x) && x@ == t,
            None => r is None,
        },
{
    chrono::DateTime::from_timestamp(secs, 0).map(|d| d.format("%Y-%m-%d %H:%M:%S +0000").to_string())
}

} // verus!
