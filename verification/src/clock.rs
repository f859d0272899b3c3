//! Wall-clock readings, taken through chrono.

use vstd::prelude::*;
use crate::num::is_digit;

verus! {

/// A local time as `%Y-%m-%d %H:%M:%S` writes it: the year (at least four
/// characters), then `-MM-DD HH:MM:SS` with every field two digits.
pub open spec fn is_local_stamp(s: Seq<char>) -> bool {
    let n = s.len() as int;
    &&& n >= 19
    &&& s[n - 15] == '-'
    &&& is_digit(s[n - 14]) && is_digit(s[n - 13])
    &&& s[n - 12] == '-'
    &&& is_digit(s[n - 11]) && is_digit(s[n - 10])
    &&& s[n - 9] == ' '
    &&& is_digit(s[n - 8]) && is_digit(s[n - 7])
    &&& s[n - 6] == ':'
    &&& is_digit(s[n - 5]) && is_digit(s[n - 4])
    &&& s[n - 3] == ':'
    &&& is_digit(s[n - 2]) && is_digit(s[n - 1])
}

/// `chrono::Local::now()` formatted `%Y-%m-%d %H:%M:%S`. Claimed, as chrono's
/// formatter writes these fields (the year zero-padded to four digits, or
/// longer with a sign outside 0..=9999; month, day, hour, minute and second
/// zero-padded to two digits): the text has the shape of
/// [`is_local_stamp`]. Which time it holds is not claimed: it is the local
/// time when called.
#[verifier::external_body]
pub(crate) fn local_timestamp() -> (r: String)
    ensures
        is_local_stamp(r@),
{
    chrono::Local::now().format("%Y-%m-%d %H:%M:%S").to_string()
}

/// An RFC 3339 UTC time with microseconds, as chrono writes one: a date,
/// then `T`, the time `HH:MM:SS`, `.`, six digits of microseconds and `Z`.
/// Only the part from the `T` on is fixed in length (the year is written
/// with a sign outside 0..=9999).
pub open spec fn is_utc_stamp(s: Seq<char>) -> bool {
    let n = s.len() as int;
    &&& n >= 17
    &&& s[n - 17] == 'T'
    &&& is_digit(s[n - 16]) && is_digit(s[n - 15])
    &&& s[n - 14] == ':'
    &&& is_digit(s[n - 13]) && is_digit(s[n - 12])
    &&& s[n - 11] == ':'
    &&& is_digit(s[n - 10]) && is_digit(s[n - 9])
    &&& s[n - 8] == '.'
    &&& forall|i: int| n - 7 <= i < n - 1 ==> is_digit(#[trigger] s[i])
    &&& s[n - 1] == 'Z'
}

/// `chrono::Utc::now()` as RFC 3339 with microseconds and a `Z` suffix
/// (`to_rfc3339_opts(SecondsFormat::Micros, true)`). Claimed, as chrono's
/// `write_rfc3339` writes it (hours, minutes and seconds as two digits each,
/// microseconds as six, and `Z` for the UTC offset): the text has the shape
/// of [`is_utc_stamp`]. Which time it holds is not claimed: it is the time
/// when called.
#[verifier::external_body]
pub(crate) fn utc_now_iso() -> (r: String)
    ensures
        is_utc_stamp(r@),
{
    chrono::Utc::now().to_rfc3339_opts(chrono::SecondsFormat::Micros, true)
}

/// A local date as `%Y-%m-%d` writes it: the year (at least four
/// characters), then `-MM-DD` with month and day two digits each.
pub open spec fn is_date_stamp(s: Seq<char>) -> bool {
    let n = s.len() as int;
    &&& n >= 10
    &&& s[n - 6] == '-'
    &&& is_digit(s[n - 5]) && is_digit(s[n - 4])
    &&& s[n - 3] == '-'
    &&& is_digit(s[n - 2]) && is_digit(s[n - 1])
}

/// The folder names of a run started now: `chrono::Local::now()` formatted
/// `%Y-%m-%d` and `Run_%H%M%S`. Claimed, as chrono's formatter writes these
/// fields (the year zero-padded to four digits, or longer with a sign
/// outside 0..=9999; the others zero-padded to two digits): the first name
/// has the shape of [`is_date_stamp`], the second is `Run_` and six digits.
/// Which day and time they hold is not claimed.
#[verifier::external_body]
pub fn run_folder_names() -> (r: (String, String))
    ensures
        is_date_stamp(r.0@),
        r.1@.len() == 10,
        r.1@.subrange(0, 4) == "Run_"@,
        forall|i: int| 4 <= i < 10 ==> is_digit(#[trigger] r.1@[i]),
{
    let now = chrono::Local::now();
    (now.format("%Y-%m-%d").to_string(), now.format("Run_%H%M%S").to_string())
}

/// Whether `chrono::DateTime::parse_from_rfc3339` accepts the text: a
/// function of the text alone.
pub uninterp spec fn rfc3339_parses(text: Seq<char>) -> bool;

/// Whole seconds from the RFC 3339 time `text` to now:
/// `(Utc::now() - DateTime::parse_from_rfc3339(text)?).num_seconds()`.
/// Claimed: `Some` exactly when chrono parses the text. The number is not
/// claimed: it depends on when the call is made.
#[verifier::external_body]
pub fn seconds_since_rfc3339(text: &str) -> (r: Option<i64>)
    ensures
        r is Some <==> rfc3339_parses(text@),
{
    match chrono::DateTime::parse_from_rfc3339(text) {
        Ok(t) => Some((chrono::Utc::now() - t.with_timezone(&chrono::Utc)).num_seconds()),
        Err(_) => None,
    }
}

/// `DateTime::<Utc>::from_timestamp(secs, 0)` formatted `%Y-%m-%d %H:%M:%S`;
/// `None` when chrono cannot hold that second. A function of `secs` alone.
pub uninterp spec fn utc_seconds_text(secs: i64) -> Option<Seq<char>>;

/// `DateTime::<Utc>::from_timestamp(secs, 0)` then `format("%Y-%m-%d
/// %H:%M:%S")`. Claimed: the result is the named text for `secs`, which,
/// when there is one, has the shape of [`is_local_stamp`] (chrono writes
/// every field but the year as two digits).
#[verifier::external_body]
pub(crate) fn format_utc_seconds(secs: i64) -> (r: Option<String>)
    ensures
        crate::text::opt_view(r) == utc_seconds_text(secs),
        r is Some ==> is_local_stamp(r.unwrap()@),
{
    match chrono::DateTime::<chrono::Utc>::from_timestamp(secs, 0) {
        Some(dt) => Some(dt.format("%Y-%m-%d %H:%M:%S").to_string()),
        None => None,
    }
}

} // verus!
