//! The clock and the formatting of points in time, through `chrono`.

use vstd::prelude::*;
use crate::ai::client::opt_view;
use crate::types::Moment;

verus! {

/// The `strftime` patterns this library formats times with.
pub open spec fn known_format(fmt: Seq<char>) -> bool {
    fmt == "%H%M%S"@ || fmt == "%Y-%m-%d"@ || fmt == "%Y-%m-%d %H:%M:%S UTC"@ || fmt == "%Y%m%d-%H%M%S"@
}

/// The text of the UTC time `secs` (Unix seconds) and `nanos` past it in the
/// pattern `fmt`, when that is a time `chrono` represents.
pub uninterp spec fn utc_text(secs: i64, nanos: u32, fmt: Seq<char>) -> Option<Seq<char>>;

/// The moment a pair of Unix seconds and nanoseconds stands for.
pub open spec fn moment_of(p: (i64, u32)) -> Moment {
    Moment { secs: p.0, nanos: p.1 }
}

/// The current time (`chrono::Utc::now`, with `timestamp` and
/// `timestamp_subsec_nanos`). Nothing is stated of the value: it is the
/// machine's clock.
#[verifier::external_body]
pub(crate) fn now_moment() -> Moment {
    let t = chrono::Utc::now();
    Moment { secs: t.timestamp(), nanos: t.timestamp_subsec_nanos() }
}

/// Whether `c` is an ASCII decimal digit.
pub open spec fn is_digit(c: char) -> bool {
    '0' <= c <= '9'
}

/// Whether `s` holds digits from position `from` up to `to`.
pub open spec fn digits_between(s: Seq<char>, from: int, to: int) -> bool {
    forall|i: int| from <= i < to ==> is_digit(#[trigger] s[i])
}

/// A time of day as `chrono` writes `%H%M%S`: six digits, each field
/// zero-padded to two.
pub open spec fn time_of_day_stamp(s: Seq<char>) -> bool {
    s.len() == 6 && digits_between(s, 0, 6)
}

/// A year as `chrono` writes `%Y`: at least four digits, with a leading sign
/// for years before 1 or after 9999.
pub open spec fn year_text(y: Seq<char>) -> bool {
    ||| y.len() >= 4 && digits_between(y, 0, y.len() as int)
    ||| y.len() >= 5 && (y[0] == '+' || y[0] == '-') && digits_between(y, 1, y.len() as int)
}

/// A date and time as `chrono` writes `%Y%m%d-%H%M%S`: the year, the month
/// and day in two digits each, a hyphen, and the time of day in six digits.
pub open spec fn date_time_stamp(s: Seq<char>) -> bool {
    let n = s.len() as int;
    &&& n >= 15
    &&& year_text(s.take(n - 11))
    &&& digits_between(s, n - 11, n - 7)
    &&& s[n - 7] == '-'
    &&& digits_between(s, n - 6, n)
}

/// A date and time as `chrono` writes `%Y-%m-%d %H:%M:%S UTC`: the year, the
/// month and day in two digits each after hyphens, a space, hours, minutes and
/// seconds in two digits each between colons, and ` UTC`.
pub open spec fn utc_date_time_text(s: Seq<char>) -> bool {
    let n = s.len() as int;
    &&& n >= 23
    &&& year_text(s.take(n - 19))
    &&& s[n - 19] == '-' && digits_between(s, n - 18, n - 16)
    &&& s[n - 16] == '-' && digits_between(s, n - 15, n - 13)
    &&& s[n - 13] == ' ' && digits_between(s, n - 12, n - 10)
    &&& s[n - 10] == ':' && digits_between(s, n - 9, n - 7)
    &&& s[n - 7] == ':' && digits_between(s, n - 6, n - 4)
    &&& s.skip(n - 4) == " UTC"@
}

/// The current UTC time in the pattern `fmt` (`chrono::Utc::now` and
/// `format`). Its digits follow the machine's clock and are not stated; its
/// shape is, for the patterns with a time of day, as `chrono`'s table of specifiers
/// gives it: every field zero-padded to its width, the year to four digits
/// with a sign beyond 9999.
#[verifier::external_body]
pub(crate) fn now_text(fmt: &str) -> (r: String)
    requires
        known_format(fmt@),
    ensures
        fmt@ == "%H%M%S"@ ==> time_of_day_stamp(r@),
        fmt@ == "%Y%m%d-%H%M%S"@ ==> date_time_stamp(r@),
        fmt@ == "%Y-%m-%d %H:%M:%S UTC"@ ==> utc_date_time_text(r@),
{
    chrono::Utc::now().format(fmt).to_string()
}

/// The UTC time `m` in the pattern `fmt` (`chrono::DateTime::from_timestamp`
/// and `format`): `None` when `m` is out of `chrono`'s range, else a text that
/// depends on `m` and `fmt` alone.
#[verifier::external_body]
pub(crate) fn format_utc(m: Moment, fmt: &str) -> (r: Option<String>)
    requires
        known_format(fmt@),
    ensures
        opt_view(r) == utc_text(m.secs, m.nanos, fmt@),
{
    match chrono::DateTime::from_timestamp(m.secs, m.nanos) {
        Some(d) => Some(d.format(fmt).to_string()),
        None => None,
    }
}

/// The Unix seconds and the nanoseconds past them that an RFC 3339 text
/// stands for, if it is one.
pub uninterp spec fn rfc3339_time(s: Seq<char>) -> Option<(i64, u32)>;

/// The RFC 3339 text of the UTC time `secs` (Unix seconds) and `nanos` past
/// it, when that is a time `chrono` represents.
pub uninterp spec fn rfc3339_text(secs: i64, nanos: u32) -> Option<Seq<char>>;

/// Parse an RFC 3339 time (`chrono::DateTime::parse_from_rfc3339`), giving
/// its Unix seconds and nanoseconds; `None` when the text is no such time.
#[verifier::external_body]
fn parse_rfc3339(s: &str) -> (r: Option<(i64, u32)>)
    ensures
        r == rfc3339_time(s@),
{
    match chrono::DateTime::parse_from_rfc3339(s) {
        Ok(d) => Some((d.timestamp(), d.timestamp_subsec_nanos())),
        Err(_) => None,
    }
}

/// The RFC 3339 text of a UTC time (`chrono::DateTime::from_timestamp` and
/// `to_rfc3339`); `None` when `m` is out of `chrono`'s range.
#[verifier::external_body]
fn format_rfc3339(m: Moment) -> (r: Option<String>)
    ensures
        opt_view(r) == rfc3339_text(m.secs, m.nanos),
{
    match chrono::DateTime::from_timestamp(m.secs, m.nanos) {
        Some(d) => Some(d.to_rfc3339()),
        None => None,
    }
}

/// The time a stored text stands for: none for no text or a text that is no
/// RFC 3339 time.
pub fn stored_time(col: &Option<String>) -> (r: Option<Moment>)
    ensures
        r == (match *col {
            Some(s) => match rfc3339_time(s@) { Some(p) => Some(moment_of(p)), None => None },
            None => None,
        }),
{
    match col {
        Some(s) => match parse_rfc3339(s.as_str()) {
            Some((secs, nanos)) => Some(Moment { secs, nanos }),
            None => None,
        },
        None => None,
    }
}

/// The text a time is stored as: none for no time or one out of range.
pub fn stored_text(t: Option<Moment>) -> (r: Option<String>)
    ensures
        opt_view(r) == (match t { Some(x) => rfc3339_text(x.secs, x.nanos), None => None }),
{
    match t {
        Some(x) => format_rfc3339(x),
        None => None,
    }
}

} // verus!
