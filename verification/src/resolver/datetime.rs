use vstd::prelude::*;

use vstd::utf8::{decode_utf8, encode_utf8, valid_utf8};

use crate::bytes::{str_bytes, sub_bytes, utf8_decode, utf8_error_text};
use crate::domain::{RyaType, RyaTypeModel, XSD_DATE, XSD_DATETIME};
use crate::resolver::TYPE_DELIM_BYTE;
use crate::text::{
    chars_of, decimal, first_index_from, parse_i32, parse_i64, parse_in_range, parse_signed_spec,
    parse_u64, parse_u8, parse_unsigned_spec, push_char, push_str, signed_decimal, split_char,
    split_once_char, split_once_spec, split_spec, starts_with_seq, substring, views,
};

verus! {

/// The marker byte that ends a stored dateTime literal.
pub const DATETIME_LITERAL_MARKER: u8 = 7;

/// A date and time as numbers, with the offset from UTC in minutes where the text gave one.
#[derive(Clone, Copy, PartialEq, Eq, Structural)]
pub struct DateTimeModel {
    pub year: int,
    pub month: int,
    pub day: int,
    pub hour: int,
    pub minute: int,
    pub second: int,
    pub millis: int,
    pub offset: Option<int>,
}

/// The message for text that is no date or time.
pub open spec fn invalid_text(s: Seq<char>) -> Seq<char> {
    "Invalid format: \""@ + s + "\""@
}

/// The year is a leap year of the Gregorian calendar.
pub open spec fn is_leap_year_spec(y: int) -> bool {
    y % 4 == 0 && (y % 100 != 0 || y % 400 == 0)
}

/// The days of a month of a year; none for a month out of range.
pub open spec fn days_in_month_spec(y: int, m: int) -> int {
    if m == 1 || m == 3 || m == 5 || m == 7 || m == 8 || m == 10 || m == 12 {
        31
    } else if m == 4 || m == 6 || m == 9 || m == 11 {
        30
    } else if m == 2 {
        if is_leap_year_spec(y) {
            29
        } else {
            28
        }
    } else {
        0
    }
}

/// Whether a year is a leap year.
pub fn is_leap_year(year: i64) -> (r: bool)
    ensures
        r == is_leap_year_spec(year as int),
{
    year % 4 == 0 && (year % 100 != 0 || year % 400 == 0)
}

/// The days of a month of a year, as `days_in_month_spec` states them.
pub fn days_in_month(year: i64, month: u8) -> (r: u8)
    ensures
        r == days_in_month_spec(year as int, month as int),
{
    if month == 1 || month == 3 || month == 5 || month == 7 || month == 8 || month == 10 || month
        == 12 {
        31
    } else if month == 4 || month == 6 || month == 9 || month == 11 {
        30
    } else if month == 2 {
        if is_leap_year(year) {
            29
        } else {
            28
        }
    } else {
        0
    }
}

/// The year, month and day of a `year-month-day` text, the dashes found from the second
/// character on, when each part parses and the day exists.
pub open spec fn parse_date_spec(date: Seq<char>) -> Option<(int, int, int)> {
    match first_index_from(date, '-', 1) {
        None => None,
        Some(sd) => match first_index_from(date, '-', sd + 1) {
            None => None,
            Some(td) => {
                let y = parse_in_range(parse_signed_spec(date.take(sd)), i64::MIN as int, i64::MAX as int);
                let m = parse_in_range(parse_unsigned_spec(date.subrange(sd + 1, td)), 0, 255);
                let d = parse_in_range(parse_unsigned_spec(date.skip(td + 1)), 0, 255);
                if y is Some && m is Some && d is Some && 1 <= m->0 <= 12 && d->0 != 0 && d->0
                    <= days_in_month_spec(y->0, m->0) {
                    Some((y->0, m->0, d->0))
                } else {
                    None
                }
            },
        },
    }
}

fn parse_date(date: &str) -> (r: Option<(i64, u8, u8)>)
    ensures
        match parse_date_spec(date@) {
            Some((y, m, d)) => r matches Some(x) && x.0 == y && x.1 == m && x.2 == d,
            None => r is None,
        },
{
    let cs = chars_of(date);
    let n = cs.len();
    if n == 0 {
        return None;
    }
    proof {
        crate::text::lemma_first_index_from(cs@, '-', 1);
    }
    let sd = match crate::text::find_char_from(cs.as_slice(), '-', 1) {
        Some(k) => k,
        None => return None,
    };
    proof {
        crate::text::lemma_first_index_from(cs@, '-', sd + 1);
    }
    let td = match crate::text::find_char_from(cs.as_slice(), '-', sd + 1) {
        Some(k) => k,
        None => return None,
    };
    let ys = substring(cs.as_slice(), 0, sd);
    let ms = substring(cs.as_slice(), sd + 1, td);
    let ds = substring(cs.as_slice(), td + 1, n);
    assert(ys@ =~= date@.take(sd as int));
    assert(ds@ =~= date@.skip(td + 1));
    let y = parse_i64(ys.as_str());
    let m = parse_u8(ms.as_str());
    let d = parse_u8(ds.as_str());
    match (y, m, d) {
        (Some(y), Some(m), Some(d)) => {
            if 1 <= m && m <= 12 && d != 0 && d <= days_in_month(y, m) {
                Some((y, m, d))
            } else {
                None
            }
        },
        _ => None,
    }
}

/// An offset from UTC read from `hours:minutes`.
pub enum OffsetRead {
    /// The text gave no offset.
    Absent,
    /// The offset text is malformed.
    Bad,
    /// The offset does not fit 32 bits.
    Overflow,
    /// The offset in minutes.
    Minutes(int),
}

/// The offset that `hours:minutes` after its sign gives.
pub open spec fn hm_offset(body: Seq<char>, negative: bool) -> OffsetRead {
    let ps = split_spec(body, ':');
    let h = parse_in_range(parse_signed_spec(ps[0]), i32::MIN as int, i32::MAX as int);
    if h is None || ps.len() < 2 {
        OffsetRead::Bad
    } else {
        let m = parse_in_range(parse_signed_spec(ps[1]), i32::MIN as int, i32::MAX as int);
        if m is None || ps.len() > 2 || h->0 > 23 || m->0 > 59 {
            OffsetRead::Bad
        } else {
            let x = h->0 * 60 + m->0;
            if !(i32::MIN <= h->0 * 60 <= i32::MAX) || !(i32::MIN <= x <= i32::MAX) || (negative
                && x == i32::MIN) {
                OffsetRead::Overflow
            } else if negative {
                OffsetRead::Minutes(-x)
            } else {
                OffsetRead::Minutes(x)
            }
        }
    }
}

proof fn lemma_split_nonempty(s: Seq<char>, c: char)
    ensures
        split_spec(s, c).len() >= 1,
{
    reveal_with_fuel(split_spec, 2);
}

fn hm_offset_exec(body: &str, negative: bool) -> (r: Result<i32, bool>)
    ensures
        match hm_offset(body@, negative) {
            OffsetRead::Minutes(v) => r == Ok::<i32, bool>(v as i32),
            OffsetRead::Overflow => r == Err::<i32, bool>(true),
            _ => r == Err::<i32, bool>(false),
        },
{
    let ps = split_char(body, ':');
    proof {
        lemma_split_nonempty(body@, ':');
    }
    let h = match parse_i32(ps[0].as_str()) {
        Some(h) => h,
        None => return Err(false),
    };
    if ps.len() < 2 {
        return Err(false);
    }
    let m = match parse_i32(ps[1].as_str()) {
        Some(m) => m,
        None => return Err(false),
    };
    if ps.len() > 2 || h > 23 || m > 59 {
        return Err(false);
    }
    let h60 = (h as i64) * 60;
    let x = h60 + m as i64;
    if h60 < i32::MIN as i64 || h60 > i32::MAX as i64 || x < i32::MIN as i64 || x > i32::MAX as i64
        || (negative && x == i32::MIN as i64) {
        return Err(true);
    }
    if negative {
        Ok((-x) as i32)
    } else {
        Ok(x as i32)
    }
}

/// The time part without its zone, and the zone's offset: a trailing `Z` is UTC; else a
/// `+` or `-` after the first character starts `hours:minutes`.
pub open spec fn split_offset_spec(time: Seq<char>) -> (Seq<char>, OffsetRead) {
    if time.len() > 0 && time.last() == 'Z' {
        (time.drop_last(), OffsetRead::Minutes(0))
    } else {
        match sign_index(time, 1) {
            None => (time, OffsetRead::Absent),
            Some(k) => (time.take(k), hm_offset(time.skip(k + 1), time[k] == '-')),
        }
    }
}

/// The first `+` or `-` of `s` at or after `from`.
pub open spec fn sign_index(s: Seq<char>, from: int) -> Option<int>
    decreases s.len() - from,
{
    if from < 0 || from >= s.len() {
        None
    } else if s[from] == '+' || s[from] == '-' {
        Some(from)
    } else {
        sign_index(s, from + 1)
    }
}

/// A time of day read from text.
pub enum TimeRead {
    Bad,
    Overflow,
    At(int, int, int, int, Option<int>),
}

/// The fraction digits read as milliseconds: the first three, padded with zeros.
pub open spec fn millis_text(frac: Seq<char>) -> Seq<char> {
    let d = if frac.len() <= 3 {
        frac
    } else {
        frac.take(3)
    };
    d + Seq::new((3 - d.len()) as nat, |i: int| '0')
}

/// The seconds and milliseconds of a `seconds[.fraction]` text.
pub open spec fn seconds_spec(s: Seq<char>) -> Option<(int, int)> {
    match split_once_spec(s, '.') {
        Some((sec, frac)) => {
            let ms = parse_in_range(parse_unsigned_spec(millis_text(frac)), 0, 65535);
            let sv = parse_in_range(parse_unsigned_spec(sec), 0, 255);
            if ms is Some && sv is Some {
                Some((sv->0, ms->0))
            } else {
                None
            }
        },
        None => match parse_in_range(parse_unsigned_spec(s), 0, 255) {
            Some(v) => Some((v, 0)),
            None => None,
        },
    }
}

/// The time of day of a `hours:minutes:seconds[.fraction][zone]` text, or of a bare zone.
pub open spec fn parse_time_spec(time: Seq<char>) -> TimeRead {
    if time.len() > 0 && (time[0] == '+' || time[0] == '-') {
        match hm_offset(time.skip(1), time[0] == '-') {
            OffsetRead::Minutes(v) => TimeRead::At(0, 0, 0, 0, Some(v)),
            OffsetRead::Overflow => TimeRead::Overflow,
            _ => TimeRead::Bad,
        }
    } else {
        let so = split_offset_spec(time);
        let off = match so.1 {
            OffsetRead::Minutes(v) => Some(v),
            _ => None,
        };
        match so.1 {
            OffsetRead::Bad => TimeRead::Bad,
            OffsetRead::Overflow => TimeRead::Overflow,
            _ => {
                let ps = split_spec(so.0, ':');
                if ps.len() != 3 {
                    TimeRead::Bad
                } else {
                    let h = parse_in_range(parse_unsigned_spec(ps[0]), 0, 255);
                    let m = parse_in_range(parse_unsigned_spec(ps[1]), 0, 255);
                    match seconds_spec(ps[2]) {
                        Some((sv, ms)) => if h is Some && m is Some && h->0 <= 23 && m->0 <= 59
                            && sv <= 59 {
                            TimeRead::At(h->0, m->0, sv, ms, off)
                        } else {
                            TimeRead::Bad
                        },
                        None => TimeRead::Bad,
                    }
                }
            },
        }
    }
}

proof fn lemma_sign_index(s: Seq<char>, from: int)
    requires
        0 <= from,
    ensures
        sign_index(s, from) matches Some(k) ==> from <= k < s.len() && (s[k] == '+' || s[k] == '-'),
    decreases s.len() - from,
{
    if from < s.len() && !(s[from] == '+' || s[from] == '-') {
        lemma_sign_index(s, from + 1);
    }
}

fn sign_index_exec(cs: &Vec<char>) -> (r: Option<usize>)
    ensures
        match sign_index(cs@, 1) {
            Some(k) => r == Some(k as usize) && 1 <= k < cs@.len(),
            None => r is None,
        },
{
    proof {
        lemma_sign_index(cs@, 1);
    }
    let mut i: usize = 1;
    if cs.len() == 0 {
        return None;
    }
    while i < cs.len()
        invariant
            1 <= i <= cs@.len(),
            sign_index(cs@, 1) == sign_index(cs@, i as int),
        decreases cs.len() - i,
    {
        if cs[i] == '+' || cs[i] == '-' {
            return Some(i);
        }
        i = i + 1;
    }
    None
}

fn seconds_exec(s: &str) -> (r: Option<(u8, u16)>)
    ensures
        match seconds_spec(s@) {
            Some((sv, ms)) => r matches Some(x) && x.0 == sv && x.1 == ms,
            None => r is None,
        },
{
    match split_once_char(s, '.') {
        Some((sec, frac)) => {
            let fc = chars_of(frac.as_str());
            let take = if fc.len() <= 3 {
                fc.len()
            } else {
                3
            };
            let mut digits = substring(fc.as_slice(), 0, take);
            let ghost d = if frac@.len() <= 3 {
                frac@
            } else {
                frac@.take(3)
            };
            assert(digits@ =~= d);
            let mut k = take;
            while k < 3
                invariant
                    take <= k <= 3,
                    digits@ == d + Seq::new((k - take) as nat, |i: int| '0'),
                    d.len() == take,
                decreases 3 - k,
            {
                push_char(&mut digits, '0');
                k = k + 1;
                assert(digits@ =~= d + Seq::new((k - take) as nat, |i: int| '0'));
            }
            assert(digits@ =~= millis_text(frac@));
            let ms = match parse_u64(digits.as_str()) {
                Some(v) => if v <= 65535 {
                    v as u16
                } else {
                    return None;
                },
                None => return None,
            };
            match parse_u8(sec.as_str()) {
                Some(sv) => Some((sv, ms)),
                None => None,
            }
        },
        None => match parse_u8(s) {
            Some(v) => Some((v, 0)),
            None => None,
        },
    }
}


/// The time of day of a text, as `parse_time_spec` states it: `Err(true)` where the offset
/// does not fit 32 bits, `Err(false)` where the text is malformed.
fn parse_time(time: &str) -> (r: Result<(u8, u8, u8, u16, Option<i32>), bool>)
    ensures
        match parse_time_spec(time@) {
            TimeRead::At(h, m, sv, ms, off) => r matches Ok(x) && x.0 == h && x.1 == m && x.2 == sv
                && x.3 == ms && match off {
                Some(o) => x.4 == Some(o as i32),
                None => x.4 is None,
            },
            TimeRead::Overflow => r == Err::<(u8, u8, u8, u16, Option<i32>), bool>(true),
            TimeRead::Bad => r == Err::<(u8, u8, u8, u16, Option<i32>), bool>(false),
        },
{
    let cs = chars_of(time);
    let n = cs.len();
    if n > 0 && (cs[0] == '+' || cs[0] == '-') {
        let body = substring(cs.as_slice(), 1, n);
        assert(body@ =~= time@.skip(1));
        return match hm_offset_exec(body.as_str(), cs[0] == '-') {
            Ok(v) => Ok((0, 0, 0, 0, Some(v))),
            Err(overflow) => Err(overflow),
        };
    }
    let (tw, off): (String, Option<i32>) = if n > 0 && cs[n - 1] == 'Z' {
        let t = substring(cs.as_slice(), 0, n - 1);
        assert(t@ =~= time@.drop_last());
        (t, Some(0))
    } else {
        match sign_index_exec(&cs) {
            None => (substring(cs.as_slice(), 0, n), None),
            Some(k) => {
                let body = substring(cs.as_slice(), k + 1, n);
                assert(body@ =~= time@.skip(k + 1));
                match hm_offset_exec(body.as_str(), cs[k] == '-') {
                    Ok(v) => {
                        let t = substring(cs.as_slice(), 0, k);
                        assert(t@ =~= time@.take(k as int));
                        (t, Some(v))
                    },
                    Err(overflow) => return Err(overflow),
                }
            },
        }
    };
    proof {
        if !(n > 0 && cs@[n - 1] == 'Z') && sign_index(cs@, 1) is None {
            assert(tw@ =~= time@);
        }
    }
    let ps = split_char(tw.as_str(), ':');
    if ps.len() != 3 {
        return Err(false);
    }
    let h = match parse_u8(ps[0].as_str()) {
        Some(h) => h,
        None => return Err(false),
    };
    let m = match parse_u8(ps[1].as_str()) {
        Some(m) => m,
        None => return Err(false),
    };
    let (sv, ms) = match seconds_exec(ps[2].as_str()) {
        Some(p) => p,
        None => return Err(false),
    };
    if h > 23 || m > 59 || sv > 59 {
        return Err(false);
    }
    Ok((h, m, sv, ms, off))
}

/// A date and time read from text.
pub enum DateTimeRead {
    Bad(Seq<char>),
    Overflow,
    At(DateTimeModel),
}

/// The date and time of an `xsd:dateTime` or `xsd:date` text: the date, then after `T` an
/// empty time, `Z`, a bare zone or a full time; the message names the faulty part.
pub open spec fn parse_xml_datetime_spec(data: Seq<char>) -> DateTimeRead {
    let (date, time) = match split_once_spec(data, 'T') {
        Some((d, t)) => (d, Some(t)),
        None => (data, None::<Seq<char>>),
    };
    match parse_date_spec(date) {
        None => DateTimeRead::Bad(invalid_text(date)),
        Some((y, mo, d)) => {
            let at = |h: int, mi: int, s: int, ms: int, off: Option<int>|
                DateTimeRead::At(
                    DateTimeModel {
                        year: y,
                        month: mo,
                        day: d,
                        hour: h,
                        minute: mi,
                        second: s,
                        millis: ms,
                        offset: off,
                    },
                );
            match time {
                None => at(0, 0, 0, 0, None),
                Some(t) => if t.len() == 0 {
                    at(0, 0, 0, 0, None)
                } else if t == "Z"@ {
                    at(0, 0, 0, 0, Some(0))
                } else {
                    match parse_time_spec(t) {
                        TimeRead::Bad => DateTimeRead::Bad(invalid_text(t)),
                        TimeRead::Overflow => DateTimeRead::Overflow,
                        TimeRead::At(h, mi, s, ms, off) => at(h, mi, s, ms, off),
                    }
                },
            }
        },
    }
}


/// The date and time of a text, as `parse_xml_datetime_spec` states it; `Err(None)` where an
/// offset does not fit 32 bits.
fn parse_xml_datetime(data: &str) -> (r: Result<(i64, u8, u8, u8, u8, u8, u16, Option<i32>), Option<String>>)
    ensures
        match parse_xml_datetime_spec(data@) {
            DateTimeRead::Bad(e) => r matches Err(Some(x)) && x@ == e,
            DateTimeRead::Overflow => r matches Err(None),
            DateTimeRead::At(m) => r matches Ok(x) && x.0 == m.year && x.1 == m.month && x.2 == m.day
                && x.3 == m.hour && x.4 == m.minute && x.5 == m.second && x.6 == m.millis
                && match m.offset {
                Some(o) => x.7 == Some(o as i32),
                None => x.7 is None,
            },
        },
{
    let (date, time): (String, Option<String>) = match split_once_char(data, 'T') {
        Some((d, t)) => (d, Some(t)),
        None => (crate::text::to_owned(data), None),
    };
    let (y, mo, d) = match parse_date(date.as_str()) {
        Some(p) => p,
        None => return Err(Some(invalid(date.as_str()))),
    };
    match time {
        None => Ok((y, mo, d, 0, 0, 0, 0, None)),
        Some(t) => {
            if t.unicode_len() == 0 {
                Ok((y, mo, d, 0, 0, 0, 0, None))
            } else if crate::text::str_eq(t.as_str(), "Z") {
                Ok((y, mo, d, 0, 0, 0, 0, Some(0)))
            } else {
                match parse_time(t.as_str()) {
                    Ok((h, mi, sv, ms, off)) => Ok((y, mo, d, h, mi, sv, ms, off)),
                    Err(true) => Err(None),
                    Err(false) => Err(Some(invalid(t.as_str()))),
                }
            }
        },
    }
}

fn invalid(s: &str) -> (r: String)
    ensures
        r@ == invalid_text(s@),
{
    let mut out = String::new();
    push_str(&mut out, "Invalid format: \"");
    push_str(&mut out, s);
    push_str(&mut out, "\"");
    out
}

/// The day after a date.
pub open spec fn next_day(y: int, m: int, d: int) -> (int, int, int) {
    if d < days_in_month_spec(y, m) {
        (y, m, d + 1)
    } else if m == 12 {
        (y + 1, 1, 1)
    } else {
        (y, m + 1, 1)
    }
}

/// The day before a date.
pub open spec fn prev_day(y: int, m: int, d: int) -> (int, int, int) {
    if d > 1 {
        (y, m, d - 1)
    } else if m == 1 {
        (y - 1, 12, days_in_month_spec(y - 1, 12))
    } else {
        (y, m - 1, days_in_month_spec(y, m - 1))
    }
}

/// The date `n` days after (or before, for negative `n`) a date, a day at a time.
pub open spec fn add_days_spec(y: int, m: int, d: int, n: int) -> (int, int, int)
    decreases (if n < 0 {
        -n
    } else {
        n
    }),
{
    if n > 0 {
        let x = next_day(y, m, d);
        add_days_spec(x.0, x.1, x.2, n - 1)
    } else if n < 0 {
        let x = prev_day(y, m, d);
        add_days_spec(x.0, x.1, x.2, n + 1)
    } else {
        (y, m, d)
    }
}

proof fn lemma_add_days_years(y: int, m: int, d: int, n: int)
    ensures
        n >= 0 ==> add_days_spec(y, m, d, n).0 >= y,
        n <= 0 ==> add_days_spec(y, m, d, n).0 <= y,
    decreases (if n < 0 {
        -n
    } else {
        n
    }),
{
    if n > 0 {
        let x = next_day(y, m, d);
        lemma_add_days_years(x.0, x.1, x.2, n - 1);
    } else if n < 0 {
        let x = prev_day(y, m, d);
        lemma_add_days_years(x.0, x.1, x.2, n + 1);
    }
}

/// Moves a date by `days` days, as `add_days_spec` states it.
fn add_days(year: i64, month: u8, day: u8, days: i32) -> (r: (i64, u8, u8))
    requires
        1 <= month <= 12,
        1 <= day <= days_in_month_spec(year as int, month as int),
        i64::MIN <= add_days_spec(year as int, month as int, day as int, days as int).0 <= i64::MAX,
    ensures
        (r.0 as int, r.1 as int, r.2 as int) == add_days_spec(
            year as int,
            month as int,
            day as int,
            days as int,
        ),
{
    let ghost goal = add_days_spec(year as int, month as int, day as int, days as int);
    let (mut y, mut m, mut d, mut n) = (year, month, day, days);
    while n > 0
        invariant
            1 <= m <= 12,
            1 <= d <= days_in_month_spec(y as int, m as int),
            n >= 0 || n == days,
            add_days_spec(y as int, m as int, d as int, n as int) == goal,
            i64::MIN <= goal.0 <= i64::MAX,
        decreases n,
    {
        proof {
            lemma_add_days_years(next_day(y as int, m as int, d as int).0, next_day(y as int, m as int, d as int).1, next_day(y as int, m as int, d as int).2, n - 1);
        }
        let max_day = days_in_month(y, m);
        if d < max_day {
            d = d + 1;
        } else {
            d = 1;
            if m == 12 {
                m = 1;
                y = y + 1;
            } else {
                m = m + 1;
            }
        }
        n = n - 1;
    }
    while n < 0
        invariant
            1 <= m <= 12,
            1 <= d <= days_in_month_spec(y as int, m as int),
            n <= 0,
            add_days_spec(y as int, m as int, d as int, n as int) == goal,
            i64::MIN <= goal.0 <= i64::MAX,
        decreases -n,
    {
        proof {
            lemma_add_days_years(prev_day(y as int, m as int, d as int).0, prev_day(y as int, m as int, d as int).1, prev_day(y as int, m as int, d as int).2, n + 1);
        }
        if d > 1 {
            d = d - 1;
        } else if m == 1 {
            y = y - 1;
            m = 12;
            d = days_in_month(y, m);
        } else {
            m = m - 1;
            d = days_in_month(y, m);
        }
        n = n + 1;
    }
    (y, m, d)
}


/// `n` in decimal, padded with leading zeros to `w` characters.
pub open spec fn pad(n: nat, w: nat) -> Seq<char> {
    let t = decimal(n);
    if t.len() < w {
        Seq::new((w - t.len()) as nat, |i: int| '0') + t
    } else {
        t
    }
}

pub(crate) fn pad_exec(n: u64, w: usize) -> (r: String)
    ensures
        r@ == pad(n as nat, w as nat),
{
    let t = crate::text::u64_to_string(n);
    let tl = t.unicode_len();
    let mut out = String::new();
    let mut k: usize = tl;
    while k < w
        invariant
            tl == t@.len(),
            tl <= k <= w || (k == tl && tl >= w),
            out@ == Seq::new((k - tl) as nat, |i: int| '0'),
        decreases w - k,
    {
        push_char(&mut out, '0');
        k = k + 1;
        assert(out@ =~= Seq::new((k - tl) as nat, |i: int| '0'));
    }
    push_str(&mut out, t.as_str());
    proof {
        if tl >= w {
            assert(out@ =~= t@);
        }
    }
    out
}

/// The year as the UTC text writes it: four digits, a `-` and four digits for small
/// negative years, else its decimal spelling.
pub open spec fn year_text(y: int) -> Seq<char> {
    if 0 <= y <= 9999 {
        pad(y as nat, 4)
    } else if -9999 <= y < 0 {
        "-"@ + pad((-y) as nat, 4)
    } else {
        signed_decimal(y)
    }
}

/// The UTC text of a date and time: `year-MM-DDTHH:MM:SS.mmmZ`.
pub open spec fn format_spec(y: int, mo: int, d: int, h: int, mi: int, s: int, ms: int) -> Seq<char> {
    year_text(y) + "-"@ + pad(mo as nat, 2) + "-"@ + pad(d as nat, 2) + "T"@ + pad(h as nat, 2) + ":"@
        + pad(mi as nat, 2) + ":"@ + pad(s as nat, 2) + "."@ + pad(ms as nat, 3) + "Z"@
}

fn format_xml_datetime_utc(y: i64, mo: u8, d: u8, h: u8, mi: u8, s: u8, ms: u16) -> (r: String)
    ensures
        r@ == format_spec(y as int, mo as int, d as int, h as int, mi as int, s as int, ms as int),
{
    let mut out = if 0 <= y && y <= 9999 {
        pad_exec(y as u64, 4)
    } else if -9999 <= y && y < 0 {
        let mut t = String::new();
        push_str(&mut t, "-");
        let p = pad_exec((-y) as u64, 4);
        push_str(&mut t, p.as_str());
        t
    } else {
        crate::text::i64_to_string(y)
    };
    push_str(&mut out, "-");
    push_str(&mut out, pad_exec(mo as u64, 2).as_str());
    push_str(&mut out, "-");
    push_str(&mut out, pad_exec(d as u64, 2).as_str());
    push_str(&mut out, "T");
    push_str(&mut out, pad_exec(h as u64, 2).as_str());
    push_str(&mut out, ":");
    push_str(&mut out, pad_exec(mi as u64, 2).as_str());
    push_str(&mut out, ":");
    push_str(&mut out, pad_exec(s as u64, 2).as_str());
    push_str(&mut out, ".");
    push_str(&mut out, pad_exec(ms as u64, 3).as_str());
    push_str(&mut out, "Z");
    out
}

/// What normalizing a date and time to UTC gives: the error of a malformed text, or the
/// UTC text after moving the time by its offset (or the default one); none where the
/// arithmetic leaves its integer types.
pub open spec fn normalize_spec(data: Seq<char>, default_offset: int) -> Option<Result<Seq<char>, Seq<char>>> {
    match parse_xml_datetime_spec(data) {
        DateTimeRead::Bad(e) => Some(Err(e)),
        DateTimeRead::Overflow => None,
        DateTimeRead::At(p) => {
            let off = match p.offset {
                Some(o) => o,
                None => default_offset,
            };
            let total = p.hour * 60 + p.minute - off;
            if !(i32::MIN <= total <= i32::MAX) {
                None
            } else {
                let ymd = add_days_spec(p.year, p.month, p.day, total / 1440);
                let mod_day = total % 1440;
                if !(i64::MIN <= ymd.0 <= i64::MAX) {
                    None
                } else {
                    Some(Ok(format_spec(ymd.0, ymd.1, ymd.2, mod_day / 60, mod_day % 60, p.second, p.millis)))
                }
            }
        },
    }
}

proof fn lemma_parsed_ranges(data: Seq<char>)
    ensures
        parse_xml_datetime_spec(data) matches DateTimeRead::At(p) ==> 1 <= p.month <= 12 && 1 <= p.day
            <= days_in_month_spec(p.year, p.month) && 0 <= p.hour <= 23 && 0 <= p.minute <= 59,
{
}

/// A date and time as UTC text, as `normalize_spec` states it.
pub fn normalize_xml_datetime_to_utc(data: &str, default_offset_minutes: i32) -> (r: Result<String, String>)
    requires
        normalize_spec(data@, default_offset_minutes as int) is Some,
    ensures
        match normalize_spec(data@, default_offset_minutes as int) {
            Some(Ok(t)) => r matches Ok(x) && x@ == t,
            Some(Err(e)) => r matches Err(x) && x@ == e,
            None => false,
        },
{
    proof {
        lemma_parsed_ranges(data@);
    }
    let (y, mo, d, h, mi, sv, ms, off) = match parse_xml_datetime(data) {
        Ok(p) => p,
        Err(Some(e)) => return Err(e),
        Err(None) => return Err(String::new()),
    };
    let offset: i32 = match off {
        Some(o) => o,
        None => default_offset_minutes,
    };
    let total: i32 = (h as i32) * 60 + mi as i32 - offset;
    let (delta, minute_of_day): (i32, i32) = if total >= 0 {
        (total / 1440, total % 1440)
    } else {
        let t: i64 = -(total as i64);
        let q: i64 = (t + 1439) / 1440;
        let rem: i64 = q * 1440 - t;
        proof {
            assert(0 <= rem < 1440) by (nonlinear_arith)
                requires
                    t > 0,
                    q == (t + 1439) / 1440,
                    rem == q * 1440 - t,
            ;
            assert(q <= t) by (nonlinear_arith)
                requires
                    t > 0,
                    q == (t + 1439) / 1440,
            ;
        }
        ((-q) as i32, rem as i32)
    };
    proof {
        vstd::arithmetic::div_mod::lemma_fundamental_div_mod_converse(
            total as int,
            1440,
            delta as int,
            minute_of_day as int,
        );
    }
    let (y2, mo2, d2) = add_days(y, mo, d, delta);
    let hour = (minute_of_day / 60) as u8;
    let minute = (minute_of_day % 60) as u8;
    Ok(format_xml_datetime_utc(y2, mo2, d2, hour, minute, sv, ms))
}


/// What storing a dateTime literal gives: its UTC text then the dateTime marker, or why it
/// cannot be stored.
pub open spec fn serialize_datetime_spec(t: RyaTypeModel, default_offset: int) -> Option<Result<Seq<u8>, Seq<char>>> {
    match t.data_type {
        None => Some(Err("RyaType is missing a datatype"@)),
        Some(dt) => if dt != XSD_DATETIME@ && dt != XSD_DATE@ {
            Some(Err("DateTime resolver cannot serialize datatype "@ + dt))
        } else {
            match normalize_spec(t.data, default_offset) {
                None => None,
                Some(Err(e)) => Some(Err(e)),
                Some(Ok(n)) => Some(Ok(encode_utf8(n) + seq![TYPE_DELIM_BYTE, DATETIME_LITERAL_MARKER])),
            }
        },
    }
}

/// Stores a dateTime or date literal as its UTC text, as `serialize_datetime_spec` states it.
pub fn serialize_with_offset(rya_type: &RyaType, default_offset_minutes: i32) -> (r: Result<Vec<u8>, String>)
    requires
        serialize_datetime_spec(rya_type@, default_offset_minutes as int) is Some,
    ensures
        match serialize_datetime_spec(rya_type@, default_offset_minutes as int) {
            Some(Ok(b)) => r matches Ok(x) && x@ == b,
            Some(Err(e)) => r matches Err(x) && x@ == e,
            None => false,
        },
{
    let data_type = match rya_type.data_type() {
        Some(dt) => dt,
        None => return Err(crate::text::to_owned("RyaType is missing a datatype")),
    };
    if !crate::text::str_eq(data_type, XSD_DATETIME) && !crate::text::str_eq(data_type, XSD_DATE) {
        let mut m = String::new();
        push_str(&mut m, "DateTime resolver cannot serialize datatype ");
        push_str(&mut m, data_type);
        return Err(m);
    }
    let normalized = match normalize_xml_datetime_to_utc(rya_type.data(), default_offset_minutes) {
        Ok(n) => n,
        Err(e) => return Err(e),
    };
    let mut bytes = str_bytes(normalized.as_str());
    bytes.push(TYPE_DELIM_BYTE);
    bytes.push(DATETIME_LITERAL_MARKER);
    Ok(bytes)
}

/// What reading stored dateTime bytes gives: the text before the marker as an
/// `xsd:dateTime` literal.
pub open spec fn deserialize_datetime_spec(b: Seq<u8>) -> Result<RyaTypeModel, Seq<char>> {
    let n = b.len();
    if n < 2 || b[n - 2] != TYPE_DELIM_BYTE || b[n - 1] != DATETIME_LITERAL_MARKER {
        Err("Bytes not deserializable as a dateTime literal"@)
    } else if !valid_utf8(b.take(n - 2)) {
        Err(utf8_error_text(b.take(n - 2)))
    } else {
        Ok(RyaTypeModel { data_type: Some(XSD_DATETIME@), data: decode_utf8(b.take(n - 2)), language: None })
    }
}

/// Reads stored dateTime bytes, as `deserialize_datetime_spec` states it.
pub fn deserialize(bytes: &[u8]) -> (r: Result<RyaType, String>)
    ensures
        match deserialize_datetime_spec(bytes@) {
            Ok(t) => r matches Ok(x) && x@ == t,
            Err(e) => r matches Err(x) && x@ == e,
        },
{
    let n = bytes.len();
    if n < 2 || bytes[n - 2] != TYPE_DELIM_BYTE || bytes[n - 1] != DATETIME_LITERAL_MARKER {
        return Err(crate::text::to_owned("Bytes not deserializable as a dateTime literal"));
    }
    let head = sub_bytes(bytes, 0, n - 2);
    assert(head@ =~= bytes@.take(n - 2));
    match utf8_decode(head.as_slice()) {
        Ok(data) => Ok(RyaType::custom(XSD_DATETIME, data.as_str())),
        Err(e) => Err(e),
    }
}

/// Stores a literal and reads it back.
pub fn serialize_and_deserialize_with_offset(rya_type: &RyaType, default_offset_minutes: i32) -> (r: Result<RyaType, String>)
    requires
        serialize_datetime_spec(rya_type@, default_offset_minutes as int) is Some,
    ensures
        match serialize_datetime_spec(rya_type@, default_offset_minutes as int) {
            Some(Ok(b)) => match deserialize_datetime_spec(b) {
                Ok(t) => r matches Ok(x) && x@ == t,
                Err(e) => r matches Err(x) && x@ == e,
            },
            Some(Err(e)) => r matches Err(x) && x@ == e,
            None => false,
        },
{
    match serialize_with_offset(rya_type, default_offset_minutes) {
        Ok(b) => deserialize(b.as_slice()),
        Err(e) => Err(e),
    }
}

/// A dateTime or date literal that can be stored reads back as the `xsd:dateTime` literal of
/// its UTC text.
pub proof fn law_datetime_roundtrip(t: RyaTypeModel, default_offset: int)
    requires
        serialize_datetime_spec(t, default_offset) matches Some(Ok(_)),
    ensures
        normalize_spec(t.data, default_offset) matches Some(Ok(n)) && deserialize_datetime_spec(
            serialize_datetime_spec(t, default_offset)->0->Ok_0,
        ) == Ok::<RyaTypeModel, Seq<char>>(
            RyaTypeModel { data_type: Some(XSD_DATETIME@), data: n, language: None },
        ),
{
    let n = normalize_spec(t.data, default_offset)->0->Ok_0;
    let b = encode_utf8(n) + seq![TYPE_DELIM_BYTE, DATETIME_LITERAL_MARKER];
    assert(b.take(b.len() - 2) =~= encode_utf8(n));
    vstd::utf8::encode_utf8_valid_utf8(n);
    vstd::utf8::encode_utf8_decode_utf8(n);
}

/// The test oracle for milliseconds without a zone: a UTC text of the first three days of
/// February 2002 whose seconds read `02.222`.
pub open spec fn rya44_oracle_spec(v: Seq<char>) -> bool {
    (starts_with_seq(v, "2002-02-01T"@) || starts_with_seq(v, "2002-02-02T"@) || starts_with_seq(
        v,
        "2002-02-03T"@,
    )) && v.len() > 0 && v.last() == 'Z' && crate::text::contains_seq(v, ":02.222"@)
}

/// Whether a text meets the test oracle for milliseconds without a zone.
pub fn matches_milliseconds_no_zone_rya44_oracle(value: &str) -> (r: bool)
    ensures
        r == rya44_oracle_spec(value@),
{
    let cs = chars_of(value);
    let n = cs.len();
    (crate::text::starts_with(value, "2002-02-01T") || crate::text::starts_with(value, "2002-02-02T")
        || crate::text::starts_with(value, "2002-02-03T")) && n > 0 && cs[n - 1] == 'Z'
        && crate::text::contains(value, ":02.222")
}

} // verus!
