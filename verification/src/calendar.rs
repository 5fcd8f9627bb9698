//! UTC calendar arithmetic for the `YYYY-MM-DDTHH:MM:SSZ` timestamps that
//! manifests carry.
//!
//! A date is identified by its day number: the days elapsed since
//! 1970-01-01 (`days_before_year + days_before_month + day - 1`).

use vstd::prelude::*;
use crate::text::{
    decimal_padded, parse_u64, parse_u64_spec, split_by, split_pat, strip_end, strip_end_exec,
    u64_to_decimal_padded, views, Pat, lemma_decimal_padded_value, lemma_split_pat_cons,
    lemma_split_pat_none,
};

verus! {

pub open spec fn is_leap(y: int) -> bool {
    y % 4 == 0 && (y % 100 != 0 || y % 400 == 0)
}

pub open spec fn year_len(y: int) -> nat {
    if is_leap(y) {
        366
    } else {
        365
    }
}

/// Length of month `m` (1..=12) of year `y`.
pub open spec fn month_len(y: int, m: int) -> nat {
    if m == 2 {
        if is_leap(y) {
            29
        } else {
            28
        }
    } else if m == 4 || m == 6 || m == 9 || m == 11 {
        30
    } else {
        31
    }
}

/// Days from 1970-01-01 to the first day of year `y` (0 for years up to 1970).
pub open spec fn days_before_year(y: int) -> nat
    decreases y - 1970,
{
    if y <= 1970 {
        0
    } else {
        days_before_year(y - 1) + year_len(y - 1)
    }
}

/// Days from the start of year `y` to the first day of month `m`.
pub open spec fn days_before_month(y: int, m: int) -> nat
    decreases m,
{
    if m <= 1 {
        0
    } else {
        days_before_month(y, m - 1) + month_len(y, m - 1)
    }
}

/// The day number of a date.
pub open spec fn day_number(y: int, m: int, d: int) -> int {
    days_before_year(y) + days_before_month(y, m) + d - 1
}

/// Seconds since the epoch of a date and time of day.
pub open spec fn epoch_secs(y: int, mo: int, d: int, h: int, mi: int, s: int) -> int {
    day_number(y, mo, d) * 86400 + h * 3600 + mi * 60 + s
}

proof fn lemma_year_of_months(y: int)
    ensures
        days_before_month(y, 13) == year_len(y),
{
    reveal_with_fuel(days_before_month, 13);
}

proof fn lemma_days_before_month_mono(y: int, a: int, b: int)
    requires
        a <= b,
    ensures
        days_before_month(y, a) <= days_before_month(y, b),
    decreases b - a,
{
    if a < b {
        lemma_days_before_month_mono(y, a, b - 1);
    }
}

proof fn lemma_days_before_year_mono(a: int, b: int)
    requires
        a <= b,
    ensures
        days_before_year(a) <= days_before_year(b),
    decreases b - a,
{
    if a < b {
        lemma_days_before_year_mono(a, b - 1);
    }
}

pub fn is_leap_year(y: u64) -> (r: bool)
    ensures
        r == is_leap(y as int),
{
    y % 4 == 0 && (y % 100 != 0 || y % 400 == 0)
}

fn year_length(y: u64) -> (r: u64)
    ensures
        r == year_len(y as int),
{
    if is_leap_year(y) {
        366
    } else {
        365
    }
}

fn month_length(y: u64, m: u64) -> (r: u64)
    ensures
        r == month_len(y as int, m as int),
{
    if m == 2 {
        if is_leap_year(y) {
            29
        } else {
            28
        }
    } else if m == 4 || m == 6 || m == 9 || m == 11 {
        30
    } else {
        31
    }
}

/// The civil date (year, month, day) of day number `days`.
pub fn days_to_ymd(days: u64) -> (r: (u64, u64, u64))
    ensures
        r.0 >= 1970,
        1 <= r.1 <= 12,
        1 <= r.2 <= month_len(r.0 as int, r.1 as int),
        day_number(r.0 as int, r.1 as int, r.2 as int) == days,
{
    let mut y: u64 = 1970;
    let mut rem: u64 = days;
    while rem >= year_length(y)
        invariant
            y >= 1970,
            days_before_year(y as int) + rem == days,
            365 * (y - 1970) <= days - rem,
        decreases rem,
    {
        let l = year_length(y);
        rem = rem - l;
        y = y + 1;
    }
    let ghost rem0 = rem;
    proof {
        lemma_year_of_months(y as int);
    }
    let mut m: u64 = 1;
    while rem >= month_length(y, m)
        invariant
            1 <= m <= 12,
            rem0 < year_len(y as int),
            days_before_month(y as int, m as int) + rem == rem0,
            days_before_month(y as int, 13) == year_len(y as int),
        decreases rem,
    {
        let l = month_length(y, m);
        rem = rem - l;
        m = m + 1;
        proof {
            if m > 12 {
                assert(days_before_month(y as int, 13) + rem == rem0);
            }
        }
    }
    (y, m, rem + 1)
}

/// The text of a timestamp: `YYYY-MM-DDTHH:MM:SSZ`, fields zero-padded.
pub open spec fn timestamp_text(y: nat, mo: nat, d: nat, h: nat, mi: nat, s: nat) -> Seq<char> {
    decimal_padded(y, 4) + seq!['-'] + decimal_padded(mo, 2) + seq!['-'] + decimal_padded(d, 2)
        + seq!['T'] + decimal_padded(h, 2) + seq![':'] + decimal_padded(mi, 2) + seq![':']
        + decimal_padded(s, 2) + seq!['Z']
}

/// Whether `t` is the timestamp of `secs`: the civil date of day number
/// `secs / 86400` and the time of day of `secs`.
pub open spec fn formats_timestamp(secs: u64, t: Seq<char>) -> bool {
    exists|y: nat, mo: nat, d: nat|
        #![trigger timestamp_text(y, mo, d, ((secs % 86400) / 3600) as nat, ((secs % 3600) / 60) as nat, (secs % 60) as nat)]
        1970 <= y <= u64::MAX && 1 <= mo <= 12 && 1 <= d <= month_len(y as int, mo as int)
            && day_number(y as int, mo as int, d as int) == secs / 86400 && t == timestamp_text(
            y,
            mo,
            d,
            ((secs % 86400) / 3600) as nat,
            ((secs % 3600) / 60) as nat,
            (secs % 60) as nat,
        )
}

/// Format seconds since the epoch as an ISO 8601 UTC timestamp.
pub fn format_timestamp(secs: u64) -> (r: String)
    ensures
        formats_timestamp(secs, r@),
{
    let days = secs / 86400;
    let tod = secs % 86400;
    let hours = tod / 3600;
    let minutes = (tod % 3600) / 60;
    let seconds = tod % 60;
    assert((secs % 86400) % 3600 == secs % 3600) by (nonlinear_arith);
    assert((secs % 86400) % 60 == secs % 60) by (nonlinear_arith);
    let (year, month, day) = days_to_ymd(days);
    let mut r = u64_to_decimal_padded(year, 4);
    r.append("-");
    r.append(u64_to_decimal_padded(month, 2).as_str());
    r.append("-");
    r.append(u64_to_decimal_padded(day, 2).as_str());
    r.append("T");
    r.append(u64_to_decimal_padded(hours, 2).as_str());
    r.append(":");
    r.append(u64_to_decimal_padded(minutes, 2).as_str());
    r.append(":");
    r.append(u64_to_decimal_padded(seconds, 2).as_str());
    r.append("Z");
    proof {
        reveal_strlit("-");
        reveal_strlit("T");
        reveal_strlit(":");
        reveal_strlit("Z");
        assert(r@ =~= timestamp_text(
            year as nat,
            month as nat,
            day as nat,
            hours as nat,
            minutes as nat,
            seconds as nat,
        ));
    }
    r
}

// ---------------------------------------------------------------------------
// Parsing
// ---------------------------------------------------------------------------

/// Why a timestamp could not be read.
#[derive(Debug, Clone, Copy, PartialEq, Eq, Structural)]
pub enum TimestampError {
    /// Not six fields separated by `T`, `-` and `:`.
    InvalidFormat,
    BadYear,
    BadMonth,
    BadDay,
    BadHour,
    BadMinute,
    BadSecond,
}

/// The fields of a timestamp: trailing `Z`s removed, split at `T`, `-`, `:`.
pub open spec fn timestamp_fields(ts: Seq<char>) -> Seq<Seq<char>> {
    split_pat(strip_end(ts, Pat::Char('Z')), Pat::AnyOf3('T', '-', ':'))
}

pub open spec fn field_error(i: int) -> TimestampError {
    if i == 0 {
        TimestampError::BadYear
    } else if i == 1 {
        TimestampError::BadMonth
    } else if i == 2 {
        TimestampError::BadDay
    } else if i == 3 {
        TimestampError::BadHour
    } else if i == 4 {
        TimestampError::BadMinute
    } else {
        TimestampError::BadSecond
    }
}

/// The first of the six fields that is not a `u64`, if any.
pub open spec fn first_bad_field(f: Seq<Seq<char>>) -> Option<int> {
    if parse_u64_spec(f[0]) is None {
        Some(0)
    } else if parse_u64_spec(f[1]) is None {
        Some(1)
    } else if parse_u64_spec(f[2]) is None {
        Some(2)
    } else if parse_u64_spec(f[3]) is None {
        Some(3)
    } else if parse_u64_spec(f[4]) is None {
        Some(4)
    } else if parse_u64_spec(f[5]) is None {
        Some(5)
    } else {
        None
    }
}

/// The numeric value of field `i`.
pub open spec fn field_value(ts: Seq<char>, i: int) -> int {
    parse_u64_spec(timestamp_fields(ts)[i])->Some_0 as int
}

/// The seconds since the epoch that the fields of `ts` denote.
pub open spec fn timestamp_secs(ts: Seq<char>) -> int {
    epoch_secs(
        field_value(ts, 0),
        field_value(ts, 1),
        field_value(ts, 2),
        field_value(ts, 3),
        field_value(ts, 4),
        field_value(ts, 5),
    )
}

/// Reading `ts` yields seconds since the epoch or the first failure.
pub open spec fn parse_timestamp_spec(ts: Seq<char>) -> Result<u64, TimestampError> {
    let f = timestamp_fields(ts);
    if f.len() != 6 {
        Err(TimestampError::InvalidFormat)
    } else if first_bad_field(f) is Some {
        Err(field_error(first_bad_field(f)->Some_0))
    } else {
        Ok(timestamp_secs(ts) as u64)
    }
}

/// The inputs on which reading a timestamp is defined: when the six fields
/// are numbers, the month is at most 13, the day at least 1, and the number
/// of seconds fits a `u64`.
pub open spec fn timestamp_in_domain(ts: Seq<char>) -> bool {
    let f = timestamp_fields(ts);
    (f.len() == 6 && first_bad_field(f) is None) ==> (field_value(ts, 1) <= 13 && field_value(ts, 2)
        >= 1 && timestamp_secs(ts) <= u64::MAX)
}

fn parse_field(f: &str, err: TimestampError) -> (r: Result<u64, TimestampError>)
    ensures
        match parse_u64_spec(f@) {
            Some(v) => r == Ok::<u64, TimestampError>(v),
            None => r == Err::<u64, TimestampError>(err),
        },
{
    match parse_u64(f) {
        Some(v) => Ok(v),
        None => Err(err),
    }
}

/// Parse an ISO 8601 timestamp (`2025-01-15T12:34:56Z`) to seconds since the
/// epoch.
pub fn parse_iso8601_secs(ts: &str) -> (r: Result<u64, TimestampError>)
    requires
        timestamp_in_domain(ts@),
    ensures
        r == parse_timestamp_spec(ts@),
{
    let stripped = strip_end_exec(ts, Pat::Char('Z'));
    let parts = split_by(stripped, Pat::AnyOf3('T', '-', ':'));
    let ghost f = timestamp_fields(ts@);
    assert(views(parts@) == f);
    if parts.len() != 6 {
        return Err(TimestampError::InvalidFormat);
    }
    assert(parts@[0]@ == f[0] && parts@[1]@ == f[1] && parts@[2]@ == f[2]);
    assert(parts@[3]@ == f[3] && parts@[4]@ == f[4] && parts@[5]@ == f[5]);
    let year = parse_field(parts[0], TimestampError::BadYear)?;
    let month = parse_field(parts[1], TimestampError::BadMonth)?;
    let day = parse_field(parts[2], TimestampError::BadDay)?;
    let hour = parse_field(parts[3], TimestampError::BadHour)?;
    let minute = parse_field(parts[4], TimestampError::BadMinute)?;
    let second = parse_field(parts[5], TimestampError::BadSecond)?;
    let ghost total = timestamp_secs(ts@);
    proof {
        lemma_days_before_month_mono(year as int, month as int, 13);
        lemma_year_of_months(year as int);
        assert(day_number(year as int, month as int, day as int) * 86400 <= total) by (nonlinear_arith)
            requires
                total == day_number(year as int, month as int, day as int) * 86400 + hour * 3600
                    + minute * 60 + second,
                hour >= 0,
                minute >= 0,
                second >= 0,
        ;
    }
    let mut total_days: u64 = 0;
    let mut y: u64 = 1970;
    while y < year
        invariant
            1970 <= y,
            y <= year || year < 1970,
            year < 1970 ==> y == 1970,
            total_days == days_before_year(y as int),
            days_before_year(year as int) <= day_number(year as int, month as int, day as int),
            day_number(year as int, month as int, day as int) * 86400 <= u64::MAX,
        decreases year - y,
    {
        proof {
            lemma_days_before_year_mono(y + 1, year as int);
        }
        total_days = total_days + year_length(y);
        y = y + 1;
    }
    proof {
        if year >= 1970 {
            assert(y == year);
        } else {
            assert(days_before_year(year as int) == 0);
            assert(days_before_year(1970) == 0);
        }
        assert(total_days == days_before_year(year as int));
    }
    let mut m: u64 = 1;
    assert(days_before_month(year as int, 1) == 0);
    while m < month
        invariant
            1 <= m,
            month < 1 ==> m == 1,
            m <= month || month < 1,
            month <= 13,
            total_days == days_before_year(year as int) + days_before_month(year as int, m as int),
            day_number(year as int, month as int, day as int) * 86400 <= u64::MAX,
            day >= 1,
        decreases month - m,
    {
        proof {
            lemma_days_before_month_mono(year as int, m + 1, month as int);
        }
        total_days = total_days + month_length(year, m);
        m = m + 1;
    }
    proof {
        if month >= 1 {
            assert(m == month);
        } else {
            assert(days_before_month(year as int, month as int) == 0);
            assert(days_before_month(year as int, m as int) == 0);
        }
    }
    total_days = total_days + day - 1;
    assert(total_days * 86400 + hour * 3600 + minute * 60 + second == total);
    assert(total_days * 86400 <= total) by (nonlinear_arith)
        requires
            total_days * 86400 + hour * 3600 + minute * 60 + second == total,
            hour >= 0,
            minute >= 0,
            second >= 0,
    ;
    assert(hour * 3600 <= total) by (nonlinear_arith)
        requires
            total_days * 86400 + hour * 3600 + minute * 60 + second == total,
            total_days >= 0,
            minute >= 0,
            second >= 0,
    ;
    assert(minute * 60 <= total) by (nonlinear_arith)
        requires
            total_days * 86400 + hour * 3600 + minute * 60 + second == total,
            total_days >= 0,
            hour >= 0,
            second >= 0,
    ;
    let secs = total_days * 86400 + hour * 3600 + minute * 60 + second;
    Ok(secs)
}

/// Whether reading `ts` is defined: it is not a timestamp of six numeric
/// fields, or its month is at most 13, its day at least 1, and its seconds
/// fit in a `u64`.
pub fn is_timestamp_in_domain(ts: &str) -> (r: bool)
    ensures
        r == timestamp_in_domain(ts@),
{
    let stripped = strip_end_exec(ts, Pat::Char('Z'));
    let parts = split_by(stripped, Pat::AnyOf3('T', '-', ':'));
    let ghost f = timestamp_fields(ts@);
    assert(views(parts@) == f);
    if parts.len() != 6 {
        return true;
    }
    assert(parts@[0]@ == f[0] && parts@[1]@ == f[1] && parts@[2]@ == f[2]);
    assert(parts@[3]@ == f[3] && parts@[4]@ == f[4] && parts@[5]@ == f[5]);
    let year = match parse_u64(parts[0]) { Some(v) => v, None => { return true; } };
    let month = match parse_u64(parts[1]) { Some(v) => v, None => { return true; } };
    let day = match parse_u64(parts[2]) { Some(v) => v, None => { return true; } };
    let hour = match parse_u64(parts[3]) { Some(v) => v, None => { return true; } };
    let minute = match parse_u64(parts[4]) { Some(v) => v, None => { return true; } };
    let second = match parse_u64(parts[5]) { Some(v) => v, None => { return true; } };
    assert(first_bad_field(f) is None);
    if month > 13 || day < 1 {
        return false;
    }
    let ghost total = timestamp_secs(ts@);
    assert(total == day_number(year as int, month as int, day as int) * 86400 + hour * 3600
        + minute * 60 + second);
    let limit: u128 = 18446744073709551615u128;
    let mut total_days: u128 = 0;
    let mut y: u64 = 1970;
    while y < year
        invariant
            1970 <= y,
            y <= year || year < 1970,
            year < 1970 ==> y == 1970,
            total_days == days_before_year(y as int),
            total_days * 86400 <= limit,
            limit == u64::MAX,
            total == day_number(year as int, month as int, day as int) * 86400 + hour * 3600
                + minute * 60 + second,
            total == timestamp_secs(ts@),
            timestamp_fields(ts@).len() == 6,
            first_bad_field(timestamp_fields(ts@)) is None,
            day >= 1,
            month <= 13,
        decreases year - y,
    {
        total_days = total_days + year_length(y) as u128;
        y = y + 1;
        if total_days * 86400 > limit {
            proof {
                lemma_days_before_year_mono(y as int, year as int);
                if month >= 1 {
                    lemma_days_before_month_mono(year as int, 1, month as int);
                }
                assert(total >= day_number(year as int, month as int, day as int) * 86400) by (
                nonlinear_arith)
                    requires
                        total == day_number(year as int, month as int, day as int) * 86400 + hour
                            * 3600 + minute * 60 + second,
                        hour >= 0,
                        minute >= 0,
                        second >= 0,
                ;
                assert(day_number(year as int, month as int, day as int) >= total_days);
                assert(day_number(year as int, month as int, day as int) * 86400 >= total_days
                    * 86400) by (nonlinear_arith)
                    requires
                        day_number(year as int, month as int, day as int) >= total_days,
                ;
                assert(total > u64::MAX);
            }
            return false;
        }
    }
    proof {
        if year >= 1970 {
            assert(y == year);
        } else {
            assert(days_before_year(year as int) == 0);
            assert(days_before_year(1970) == 0);
        }
    }
    let mut m: u64 = 1;
    assert(days_before_month(year as int, 1) == 0);
    while m < month
        invariant
            1 <= m,
            month < 1 ==> m == 1,
            m <= month || month < 1,
            month <= 13,
            total_days == days_before_year(year as int) + days_before_month(year as int, m as int),
            days_before_year(year as int) * 86400 <= u64::MAX,
            days_before_month(year as int, m as int) <= 366,
        decreases month - m,
    {
        proof {
            lemma_days_before_month_mono(year as int, m + 1, 13);
            lemma_year_of_months(year as int);
        }
        total_days = total_days + month_length(year, m) as u128;
        m = m + 1;
    }
    proof {
        if month >= 1 {
            assert(m == month);
        } else {
            assert(days_before_month(year as int, month as int) == 0);
            assert(days_before_month(year as int, m as int) == 0);
        }
    }
    total_days = total_days + day as u128 - 1;
    assert(total_days == day_number(year as int, month as int, day as int));
    let secs: u128 = total_days * 86400 + hour as u128 * 3600 + minute as u128 * 60 + second as u128;
    assert(secs == total);
    secs <= limit
}

// ---------------------------------------------------------------------------
// Reading back what was written
// ---------------------------------------------------------------------------

/// The separators between the fields of a timestamp.
spec fn field_sep() -> Pat {
    Pat::AnyOf3('T', '-', ':')
}

/// A zero-padded number reads back as itself, and contains no separator.
proof fn lemma_padded_field(n: nat, w: nat)
    requires
        n <= u64::MAX,
    ensures
        parse_u64_spec(decimal_padded(n, w)) == Some(n as u64),
        plain_piece(decimal_padded(n, w)),
{
    lemma_decimal_padded_value(n, w);
    let p = decimal_padded(n, w);
    assert('0' <= p[0] <= '9');
    assert('0' <= p[p.len() - 1] <= '9');
    assert forall|i: int| 0 <= i < p.len() implies !field_sep().holds(#[trigger] p[i]) by {
        assert('0' <= p[i] <= '9');
    }
}

/// Whether `x` is a non-empty piece without separators or a trailing `Z`.
spec fn plain_piece(x: Seq<char>) -> bool {
    &&& x.len() > 0
    &&& forall|i: int| 0 <= i < x.len() ==> !field_sep().holds(#[trigger] x[i])
    &&& !Pat::Char('Z').holds(x.last())
}

/// The fields of six plain pieces joined like a timestamp.
proof fn lemma_joined_fields(
    fy: Seq<char>,
    fmo: Seq<char>,
    fd: Seq<char>,
    fh: Seq<char>,
    fmi: Seq<char>,
    fs: Seq<char>,
)
    requires
        plain_piece(fy),
        plain_piece(fmo),
        plain_piece(fd),
        plain_piece(fh),
        plain_piece(fmi),
        plain_piece(fs),
    ensures
        timestamp_fields(
            fy + seq!['-'] + fmo + seq!['-'] + fd + seq!['T'] + fh + seq![':'] + fmi + seq![':'] + fs
                + seq!['Z'],
        ) == seq![fy, fmo, fd, fh, fmi, fs],
{
    let p = field_sep();
    let r5 = fmi + seq![':'] + fs;
    let r4 = fh + seq![':'] + r5;
    let r3 = fd + seq!['T'] + r4;
    let r2 = fmo + seq!['-'] + r3;
    let body = fy + seq!['-'] + r2;
    let t = fy + seq!['-'] + fmo + seq!['-'] + fd + seq!['T'] + fh + seq![':'] + fmi + seq![':']
        + fs + seq!['Z'];
    assert(t =~= body + seq!['Z']);
    assert(t.drop_last() =~= body);
    assert(body.last() == fs.last());
    assert(strip_end(body, Pat::Char('Z')) == body);
    assert(strip_end(t, Pat::Char('Z')) == body);
    lemma_split_pat_cons(fy, '-', r2, p);
    lemma_split_pat_cons(fmo, '-', r3, p);
    lemma_split_pat_cons(fd, 'T', r4, p);
    lemma_split_pat_cons(fh, ':', r5, p);
    lemma_split_pat_cons(fmi, ':', fs, p);
    lemma_split_pat_none(fs, p);
    assert(split_pat(body, p) =~= seq![fy, fmo, fd, fh, fmi, fs]);
}

/// The six fields of a written timestamp are its zero-padded numbers.
proof fn lemma_timestamp_text_fields(y: nat, mo: nat, d: nat, h: nat, mi: nat, s: nat)
    requires
        y <= u64::MAX,
        mo <= u64::MAX,
        d <= u64::MAX,
        h <= u64::MAX,
        mi <= u64::MAX,
        s <= u64::MAX,
    ensures
        timestamp_fields(timestamp_text(y, mo, d, h, mi, s)) == seq![
            decimal_padded(y, 4),
            decimal_padded(mo, 2),
            decimal_padded(d, 2),
            decimal_padded(h, 2),
            decimal_padded(mi, 2),
            decimal_padded(s, 2),
        ],
{
    lemma_padded_field(y, 4);
    lemma_padded_field(mo, 2);
    lemma_padded_field(d, 2);
    lemma_padded_field(h, 2);
    lemma_padded_field(mi, 2);
    lemma_padded_field(s, 2);
    lemma_joined_fields(
        decimal_padded(y, 4),
        decimal_padded(mo, 2),
        decimal_padded(d, 2),
        decimal_padded(h, 2),
        decimal_padded(mi, 2),
        decimal_padded(s, 2),
    );
}

/// Reading back a written timestamp gives the seconds it was written from,
/// and the text lies where reading is defined.
pub proof fn lemma_format_parse_roundtrip(secs: u64, t: Seq<char>)
    requires
        formats_timestamp(secs, t),
    ensures
        timestamp_in_domain(t),
        parse_timestamp_spec(t) == Ok::<u64, TimestampError>(secs),
{
    let h = ((secs % 86400) / 3600) as nat;
    let mi = ((secs % 3600) / 60) as nat;
    let s = (secs % 60) as nat;
    let (y, mo, d) = choose|y: nat, mo: nat, d: nat|
        #![trigger timestamp_text(y, mo, d, h, mi, s)]
        1970 <= y <= u64::MAX && 1 <= mo <= 12 && 1 <= d <= month_len(y as int, mo as int)
            && day_number(y as int, mo as int, d as int) == secs / 86400 && t == timestamp_text(
            y,
            mo,
            d,
            h,
            mi,
            s,
        );
    lemma_timestamp_text_fields(y, mo, d, h, mi, s);
    lemma_padded_field(y, 4);
    lemma_padded_field(mo, 2);
    lemma_padded_field(d, 2);
    lemma_padded_field(h, 2);
    lemma_padded_field(mi, 2);
    lemma_padded_field(s, 2);
    let f = timestamp_fields(t);
    assert(first_bad_field(f) is None);
    assert(field_value(t, 0) == y);
    assert(field_value(t, 1) == mo);
    assert(field_value(t, 2) == d);
    assert(field_value(t, 3) == h);
    assert(field_value(t, 4) == mi);
    assert(field_value(t, 5) == s);
    let x = secs as int;
    assert(x == (x / 86400) * 86400 + x % 86400) by (nonlinear_arith);
    assert(x % 86400 == ((x % 86400) / 3600) * 3600 + (x % 86400) % 3600) by (nonlinear_arith);
    assert((x % 86400) % 3600 == x % 3600) by (nonlinear_arith);
    assert(x % 3600 == ((x % 3600) / 60) * 60 + x % 60) by (nonlinear_arith);
    assert(timestamp_secs(t) == secs);
}

} // verus!
