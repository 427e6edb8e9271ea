//! The wall clock, read through `chrono`.

use vstd::prelude::*;

verus! {

/// Whether `s[i]` is an ASCII decimal digit.
pub open spec fn digit_at(s: Seq<char>, i: int) -> bool {
    '0' <= s[i] && s[i] <= '9'
}

/// The form of every stamp that the clock gives, an RFC 3339 UTC time: at
/// least 25 characters, ending with the offset `+00:00`; where the year lies
/// in 0..=9999 (the stamp starts with a digit) it is laid out as
/// `YYYY-MM-DDTHH:MM:SS`, and otherwise the year carries a sign.
pub open spec fn is_utc_stamp(s: Seq<char>) -> bool {
    &&& s.len() >= 25
    &&& s.subrange(s.len() - 6, s.len() as int) == "+00:00"@
    &&& digit_at(s, 0) ==> {
        &&& digit_at(s, 1) && digit_at(s, 2) && digit_at(s, 3)
        &&& s[4] == '-' && digit_at(s, 5) && digit_at(s, 6)
        &&& s[7] == '-' && digit_at(s, 8) && digit_at(s, 9)
        &&& s[10] == 'T' && digit_at(s, 11) && digit_at(s, 12)
        &&& s[13] == ':' && digit_at(s, 14) && digit_at(s, 15)
        &&& s[16] == ':' && digit_at(s, 17) && digit_at(s, 18)
    }
    &&& !digit_at(s, 0) ==> (s[0] == '+' || s[0] == '-')
}

/// The current UTC time as an RFC 3339 string.
///
/// Reads `std::time::SystemTime::now`, converts it with chrono's
/// `From<SystemTime> for DateTime<Utc>` (which also handles a clock set
/// before the Unix epoch) and formats it with `DateTime::to_rfc3339`. What
/// is stated is the form that chrono's `write_rfc3339` gives a UTC time:
/// four year digits, `-`, month, `-`, day, `T`, hours, `:`, minutes, `:`,
/// seconds (two digits each), optional fractional seconds and the offset
/// `+00:00`; a year outside 0..=9999 is written with its sign and at least
/// four digits. Which time it is, is left unsaid: it is whatever the clock
/// reads. The conversion fails only for a clock outside chrono's range of
/// about 262,000 years around year 0.
#[verifier::external_body]
pub(crate) fn now_rfc3339() -> (r: String)
    ensures
        is_utc_stamp(r@),
{
    chrono::DateTime::<chrono::Utc>::from(std::time::SystemTime::now()).to_rfc3339()
}

/// The current UTC time in milliseconds since the Unix epoch (negative for
/// a clock set before it).
///
/// Reads `std::time::SystemTime::now`, converts it with chrono's
/// `From<SystemTime> for DateTime<Utc>` and takes
/// `DateTime::timestamp_millis`. Nothing is stated of the result: it is
/// whatever the clock reads. As above, the conversion fails only for a
/// clock outside chrono's range.
#[verifier::external_body]
pub(crate) fn now_millis() -> (r: i64) {
    chrono::DateTime::<chrono::Utc>::from(std::time::SystemTime::now()).timestamp_millis()
}

} // verus!
