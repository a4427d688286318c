//! Dates: the current time, and UTC timestamps written and read in the
//! forms the history uses (through the `time` crate).  Times are Unix
//! timestamps in seconds.

use vstd::prelude::*;
use crate::text::{concat, chars_of, string_from_chars};
use crate::selector::{parse_usize, parse_usize_spec};

verus! {

/// The earliest representable time: the start of year -9999.
pub const MIN_TIMESTAMP: i64 = -377705116800;

/// The latest representable time: the end of year 9999.
pub const MAX_TIMESTAMP: i64 = 253402300799;

/// The timestamp names a representable date and time.
pub open spec fn valid_timestamp(ts: int) -> bool {
    MIN_TIMESTAMP <= ts <= MAX_TIMESTAMP
}

/// The current time (`OffsetDateTime::now_utc`), which is a representable
/// date.
#[verifier::external_body]
pub fn now() -> (r: i64)
    ensures
        valid_timestamp(r as int),
{
    time::OffsetDateTime::now_utc().unix_timestamp()
}

/// `ts` written as `YYYY-MM-DD hh:mm:ss` in UTC.
pub uninterp spec fn human_text(ts: int) -> Seq<char>;

/// `ts` written in the default ISO 8601 form in UTC.
pub uninterp spec fn iso_text(ts: int) -> Seq<char>;

/// `ts` written as `MM/DD@hh:mm` in UTC.
pub uninterp spec fn short_text(ts: int) -> Seq<char>;

/// What `OffsetDateTime::parse` with the default ISO 8601 format reads
/// from the text: the whole seconds since the epoch (`unix_timestamp`) and
/// the nanoseconds past them (`nanosecond`).
pub uninterp spec fn iso_parsed(input: Seq<char>) -> Option<(int, int)>;

/// What `OffsetDateTime::parse` with `YYYY-MM-DD hh:mm:ss` reads from the
/// text, as a timestamp.
pub uninterp spec fn human_parsed(input: Seq<char>) -> Option<int>;

/// What `Date::parse` with `YYYY-MM-DD` reads from the text, as the
/// timestamp of that day's UTC midnight.
pub uninterp spec fn day_parsed(input: Seq<char>) -> Option<int>;

/// `OffsetDateTime::format` with `[year]-[month]-[day]
/// [hour]:[minute]:[second]`; named `human_text`.
#[verifier::external_body]
pub fn format_human(ts: i64) -> (r: String)
    requires
        valid_timestamp(ts as int),
    ensures
        r@ == human_text(ts as int),
{
    let dt = time::OffsetDateTime::from_unix_timestamp(ts).unwrap();
    let format = time::format_description::parse_borrowed::<1>("[year]-[month]-[day] [hour]:[minute]:[second]").unwrap();
    dt.format(&format).unwrap_or_else(|_| dt.to_string())
}

/// `OffsetDateTime::format` with the default ISO 8601 format; named
/// `iso_text`.
#[verifier::external_body]
pub fn format_iso(ts: i64) -> (r: String)
    requires
        valid_timestamp(ts as int),
    ensures
        r@ == iso_text(ts as int),
{
    let dt = time::OffsetDateTime::from_unix_timestamp(ts).unwrap();
    dt.format(&time::format_description::well_known::Iso8601::DEFAULT).unwrap_or_else(
        |_| dt.to_string(),
    )
}

/// `OffsetDateTime::format` with `[month]/[day]@[hour]:[minute]`; named
/// `short_text`.
#[verifier::external_body]
pub fn format_history_timestamp(ts: i64) -> (r: String)
    requires
        valid_timestamp(ts as int),
    ensures
        r@ == short_text(ts as int),
{
    let dt = time::OffsetDateTime::from_unix_timestamp(ts).unwrap();
    let format = time::format_description::parse_borrowed::<1>("[month]/[day]@[hour]:[minute]").unwrap();
    dt.format(&format).unwrap_or_else(|_| dt.to_string())
}

/// `OffsetDateTime::parse` with the default ISO 8601 format, as whole
/// seconds and the nanoseconds past them (below one second, as
/// `nanosecond` documents); named `iso_parsed`.
#[verifier::external_body]
fn parse_iso(input: &str) -> (r: Option<(i64, u32)>)
    ensures
        r matches Some(t) ==> iso_parsed(input@) == Some((t.0 as int, t.1 as int)) && t.1
            < 1_000_000_000,
        r is None ==> iso_parsed(input@) is None,
{
    time::OffsetDateTime::parse(input, &time::format_description::well_known::Iso8601::DEFAULT)
        .ok()
        .map(|dt| (dt.unix_timestamp(), dt.nanosecond()))
}

/// `OffsetDateTime::parse` with `[year]-[month]-[day]
/// [hour]:[minute]:[second]`, as a timestamp; named `human_parsed`.
#[verifier::external_body]
fn parse_human(input: &str) -> (r: Option<i64>)
    ensures
        r matches Some(t) ==> human_parsed(input@) == Some(t as int),
        r is None ==> human_parsed(input@) is None,
{
    let format = time::format_description::parse_borrowed::<1>("[year]-[month]-[day] [hour]:[minute]:[second]").unwrap();
    time::OffsetDateTime::parse(input, &format).ok().map(|dt| dt.unix_timestamp())
}

/// `Date::parse` with `[year]-[month]-[day]`, as the timestamp of that
/// day's UTC midnight; named `day_parsed`.
#[verifier::external_body]
fn parse_day(input: &str) -> (r: Option<i64>)
    ensures
        r matches Some(t) ==> day_parsed(input@) == Some(t as int),
        r is None ==> day_parsed(input@) is None,
{
    let format = time::format_description::parse_borrowed::<1>("[year]-[month]-[day]").unwrap();
    time::Date::parse(input, &format).ok().map(|d| d.midnight().assume_utc().unix_timestamp())
}

/// The moment a user typed, as whole seconds and the nanoseconds past
/// them: ISO 8601 first, then `YYYY-MM-DD hh:mm:ss`, then a bare day (its
/// UTC midnight); the last two name whole seconds.
pub open spec fn parse_date_spec(input: Seq<char>) -> Option<(int, int)> {
    match iso_parsed(input) {
        Some(t) => Some(t),
        None => match human_parsed(input) {
            Some(t) => Some((t, 0)),
            None => match day_parsed(input) {
                Some(t) => Some((t, 0)),
                None => None,
            },
        },
    }
}

/// The seconds in one unit of a relative date: `s`, `m` (minutes), `h`,
/// `d` and `w`; 0 for any other character.
pub open spec fn unit_seconds(c: char) -> int {
    if c == 's' {
        1
    } else if c == 'm' {
        60
    } else if c == 'h' {
        3600
    } else if c == 'd' {
        86400
    } else if c == 'w' {
        604800
    } else {
        0
    }
}

/// The seconds that a relative date such as `1d` or `12h` goes back: a
/// count (as `str::parse::<usize>` reads it) followed by a unit; `None`
/// when the text is no relative date.
pub open spec fn relative_amount(input: Seq<char>) -> Option<int> {
    if input.len() >= 2 && unit_seconds(input.last()) > 0 {
        match parse_usize_spec(input.drop_last()) {
            Some(n) => Some(n * unit_seconds(input.last())),
            None => None,
        }
    } else {
        None
    }
}

/// The moment a user typed, read at time `now`: a relative date is that
/// many whole seconds before `now` (none when that falls below the 64-bit
/// range); anything else is read as an absolute date.
pub open spec fn date_at_spec(input: Seq<char>, now: int) -> Option<(int, int)> {
    match relative_amount(input) {
        Some(a) => if now - a >= i64::MIN {
            Some((now - a, 0))
        } else {
            None
        },
        None => parse_date_spec(input),
    }
}

/// Whether `r` is what reading `input` at time `now` gives: the date, or
/// the error that names the input.
pub open spec fn date_result(input: Seq<char>, now: int, r: Result<(i64, u32), String>) -> bool {
    match r {
        Ok(t) => date_at_spec(input, now) == Some((t.0 as int, t.1 as int)) && t.1 < 1_000_000_000,
        Err(e) => date_at_spec(input, now) is None && e@ == "Unable to parse date: "@ + input,
    }
}

/// The seconds in one unit of a relative date.
fn unit_of(c: char) -> (r: u32)
    ensures
        r as int == unit_seconds(c),
{
    if c == 's' {
        1
    } else if c == 'm' {
        60
    } else if c == 'h' {
        3600
    } else if c == 'd' {
        86400
    } else if c == 'w' {
        604800
    } else {
        0
    }
}

/// Reads a date typed by the user at time `now`.
pub fn parse_date_at(input: &str, now: i64) -> (r: Result<(i64, u32), String>)
    ensures
        date_result(input@, now as int, r),
{
    let cs = chars_of(input);
    if cs.len() >= 2 {
        let unit = unit_of(cs[cs.len() - 1]);
        if unit > 0 {
            let count_text = string_from_chars(&cs[0..cs.len() - 1]);
            assert(count_text@ =~= input@.drop_last());
            if let Some(n) = parse_usize(count_text.as_str()) {
                assert(relative_amount(input@) == Some(n as int * unit as int));
                let amount: i128 = (n as i128) * (unit as i128);
                let cutoff: i128 = (now as i128) - amount;
                if cutoff >= (i64::MIN as i128) {
                    return Ok((cutoff as i64, 0));
                }
                return Err(concat("Unable to parse date: ", input));
            }
        }
    }
    assert(relative_amount(input@) is None);
    parse_absolute_date(input)
}
/// Reads an absolute date: ISO 8601, `YYYY-MM-DD hh:mm:ss` or a bare day.
pub fn parse_absolute_date(input: &str) -> (r: Result<(i64, u32), String>)
    ensures
        r matches Ok(t) ==> parse_date_spec(input@) == Some((t.0 as int, t.1 as int)) && t.1
            < 1_000_000_000,
        r matches Err(e) ==> parse_date_spec(input@) is None && e@ == "Unable to parse date: "@
            + input@,
{
    if let Some(t) = parse_iso(input) {
        return Ok(t);
    }
    if let Some(t) = parse_human(input) {
        return Ok((t, 0));
    }
    if let Some(t) = parse_day(input) {
        return Ok((t, 0));
    }
    Err(concat("Unable to parse date: ", input))
}

/// Reads a date typed by the user, relative dates counting back from the
/// current time.
pub fn parse_date(input: &str) -> (r: Result<(i64, u32), String>)
    ensures
        exists|n: int| valid_timestamp(n) && #[trigger] date_result(input@, n, r),
        relative_amount(input@) is None ==> date_result(input@, 0, r),
{
    let now = now();
    let r = parse_date_at(input, now);
    assert(date_result(input@, now as int, r));
    r
}

/// The first whole second at or after a moment given as whole seconds and
/// nanoseconds: a lower bound on whole-second times.
pub fn first_second_from(moment: (i64, u32)) -> (r: i64)
    requires
        moment.1 < 1_000_000_000,
        moment.1 > 0 ==> moment.0 < i64::MAX,
    ensures
        r == (if moment.1 > 0 {
            moment.0 + 1
        } else {
            moment.0 as int
        }),
        forall|t: int|
            #![trigger t * 1_000_000_000]
            t >= r <==> t * 1_000_000_000 >= moment.0 * 1_000_000_000 + moment.1,
{
    let r = if moment.1 > 0 {
        moment.0 + 1
    } else {
        moment.0
    };
    assert forall|t: int|
        #![trigger t * 1_000_000_000]
        t >= r <==> t * 1_000_000_000 >= moment.0 * 1_000_000_000 + moment.1 by {
        let s = moment.0 as int;
        let n = moment.1 as int;
        assert(t >= s + 1 ==> t * 1_000_000_000 >= s * 1_000_000_000 + 1_000_000_000) by (nonlinear_arith);
        assert(t <= s ==> t * 1_000_000_000 <= s * 1_000_000_000) by (nonlinear_arith);
        assert(t <= s - 1 ==> t * 1_000_000_000 <= s * 1_000_000_000 - 1_000_000_000) by (nonlinear_arith);
    }
    r
}

/// The last whole second at or before a moment given as whole seconds and
/// nanoseconds: an upper bound on whole-second times.
pub fn last_second_to(moment: (i64, u32)) -> (r: i64)
    requires
        moment.1 < 1_000_000_000,
    ensures
        r == moment.0,
        forall|t: int|
            #![trigger t * 1_000_000_000]
            t <= r <==> t * 1_000_000_000 <= moment.0 * 1_000_000_000 + moment.1,
{
    assert forall|t: int|
        #![trigger t * 1_000_000_000]
        t <= moment.0 <==> t * 1_000_000_000 <= moment.0 * 1_000_000_000 + moment.1 by {
        let s = moment.0 as int;
        assert(t <= s ==> t * 1_000_000_000 <= s * 1_000_000_000) by (nonlinear_arith);
        assert(t >= s + 1 ==> t * 1_000_000_000 >= s * 1_000_000_000 + 1_000_000_000) by (nonlinear_arith);
    }
    moment.0
}

} // verus!
