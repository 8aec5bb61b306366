//! Calendar timestamps of the form `YYYY-MM-DDThh:mm:ss[.f...][Z|+hh:mm|-hh:mm]`,
//! read as microseconds since 1970-01-01T00:00:00Z.

use vstd::prelude::*;
use crate::primitives::{fraction_to_micros, fraction_value, lemma_decimal_value_push, pow10};
use crate::text::{decimal_value, digits_end, is_digit, lemma_digits_end, skip_digits};

verus! {

/// A year with a 29th of February.
pub open spec fn is_leap_year(year: int) -> bool {
    year % 4 == 0 && (year % 100 != 0 || year % 400 == 0)
}

pub open spec fn days_in_year(year: int) -> int {
    if is_leap_year(year) {
        366
    } else {
        365
    }
}

pub open spec fn days_in_month(year: int, month: int) -> int {
    if month == 2 {
        if is_leap_year(year) {
            29
        } else {
            28
        }
    } else if month == 4 || month == 6 || month == 9 || month == 11 {
        30
    } else {
        31
    }
}

/// Days from the first day of year 0 to the first day of `year`, in the
/// proleptic Gregorian calendar.
pub open spec fn days_before_year(year: int) -> int
    decreases year,
{
    if year <= 0 {
        0
    } else {
        days_before_year(year - 1) + days_in_year(year - 1)
    }
}

/// Days from the first day of `year` to the first day of its month `month`.
pub open spec fn days_before_month(year: int, month: int) -> int
    decreases month,
{
    if month <= 1 {
        0
    } else {
        days_before_month(year, month - 1) + days_in_month(year, month - 1)
    }
}

/// Days from 1970-01-01 to the given day; negative before it.
pub open spec fn days_from_epoch(year: int, month: int, day: int) -> int {
    days_before_year(year) - days_before_year(1970) + days_before_month(year, month) + day - 1
}

/// Days before each month of a year that is no leap year.
pub open spec fn month_offset(month: int) -> int {
    if month <= 1 {
        0
    } else if month == 2 {
        31
    } else if month == 3 {
        59
    } else if month == 4 {
        90
    } else if month == 5 {
        120
    } else if month == 6 {
        151
    } else if month == 7 {
        181
    } else if month == 8 {
        212
    } else if month == 9 {
        243
    } else if month == 10 {
        273
    } else if month == 11 {
        304
    } else {
        334
    }
}

/// The days before a year, without recursion: 365 for each year and one
/// more for each leap year among them.
pub proof fn lemma_days_before_year(year: int)
    requires
        year >= 0,
    ensures
        days_before_year(year) == 365 * year + (year + 3) / 4 - (year + 99) / 100 + (year + 399)
            / 400,
    decreases year,
{
    if year > 0 {
        let prev = year - 1;
        lemma_days_before_year(prev);
        assert((prev + 4) / 4 - (prev + 3) / 4 == if prev % 4 == 0 { 1int } else { 0int });
        assert((prev + 100) / 100 - (prev + 99) / 100 == if prev % 100 == 0 { 1int } else { 0int });
        assert((prev + 400) / 400 - (prev + 399) / 400 == if prev % 400 == 0 { 1int } else { 0int });
        assert(prev % 400 == 0 ==> prev % 100 == 0);
        assert(prev % 100 == 0 ==> prev % 4 == 0);
    }
}

/// The days before each month of a year, without recursion.
pub proof fn lemma_days_before_month(year: int, month: int)
    requires
        1 <= month <= 12,
    ensures
        days_before_month(year, month) == month_offset(month) + if month > 2 && is_leap_year(
            year,
        ) {
            1int
        } else {
            0int
        },
{
    reveal_with_fuel(days_before_month, 13);
}

/// The number written by the `width` digits at `at`, where `width`
/// digits stand there.
pub open spec fn fixed_number(line: Seq<char>, at: int, width: int) -> Option<int> {
    if 0 <= at && at + width <= line.len() && (forall|i: int|
        at <= i < at + width ==> is_digit(#[trigger] line[i])) {
        Some(decimal_value(line.subrange(at, at + width)) as int)
    } else {
        None
    }
}

/// The fields of a timestamp up to its seconds, as written.
pub struct CivilTime {
    pub year: int,
    pub month: int,
    pub day: int,
    pub hour: int,
    pub minute: int,
    pub second: int,
}

impl CivilTime {
    /// The fields name a day of the calendar and a second of that day.
    pub open spec fn valid(self) -> bool {
        &&& 1 <= self.month <= 12
        &&& 1 <= self.day <= days_in_month(self.year, self.month)
        &&& 0 <= self.hour <= 23
        &&& 0 <= self.minute <= 59
        &&& 0 <= self.second <= 59
    }

    /// Seconds from 1970-01-01T00:00:00 to this time, in the same zone.
    pub open spec fn seconds_from_epoch(self) -> int {
        days_from_epoch(self.year, self.month, self.day) * 86_400 + self.hour * 3_600
            + self.minute * 60 + self.second
    }
}

/// Length of the part `YYYY-MM-DDThh:mm:ss`.
pub const CIVIL_LEN: usize = 19;

/// The fields of the `YYYY-MM-DDThh:mm:ss` that starts at `at`, where
/// digits and separators stand in their places.
pub open spec fn civil_time_at(line: Seq<char>, at: int) -> Option<CivilTime> {
    if at < 0 || at + 19 > line.len() {
        None
    } else if line[at + 4] != '-' || line[at + 7] != '-' || line[at + 10] != 'T' || line[at + 13]
        != ':' || line[at + 16] != ':' {
        None
    } else {
        match (
            fixed_number(line, at, 4),
            fixed_number(line, at + 5, 2),
            fixed_number(line, at + 8, 2),
            fixed_number(line, at + 11, 2),
            fixed_number(line, at + 14, 2),
            fixed_number(line, at + 17, 2),
        ) {
            (Some(year), Some(month), Some(day), Some(hour), Some(minute), Some(second)) => Some(
                CivilTime { year, month, day, hour, minute, second },
            ),
            _ => None,
        }
    }
}

/// Where the fraction of a second that may follow the seconds at `at` ends.
/// `None` where a point stands there with no digit behind it.
pub open spec fn fraction_end(line: Seq<char>, at: int) -> Option<int> {
    if at < line.len() && line[at] == '.' {
        if digits_end(line, at + 1) == at + 1 {
            None
        } else {
            Some(digits_end(line, at + 1))
        }
    } else {
        Some(at)
    }
}

/// The microseconds written by the fraction of a second in `at..end`.
pub open spec fn fraction_micros(line: Seq<char>, at: int, end: int) -> int {
    if end > at {
        fraction_value(line.subrange(at + 1, end), 6) as int
    } else {
        0
    }
}

/// The zone that ends the line at `at`, as minutes east of Greenwich: none
/// written or `Z` for zero, else `+hh:mm` or `-hh:mm`. `None` where anything
/// else stands there.
pub open spec fn zone_minutes_at(line: Seq<char>, at: int) -> Option<int> {
    if at == line.len() {
        Some(0)
    } else if at + 1 == line.len() && line[at] == 'Z' {
        Some(0)
    } else if at + 6 == line.len() && (line[at] == '+' || line[at] == '-') && line[at + 3] == ':' {
        match (fixed_number(line, at + 1, 2), fixed_number(line, at + 4, 2)) {
            (Some(hours), Some(minutes)) => if hours <= 23 && minutes <= 59 {
                if line[at] == '+' {
                    Some(hours * 60 + minutes)
                } else {
                    Some(-(hours * 60 + minutes))
                }
            } else {
                None
            },
            _ => None,
        }
    } else {
        None
    }
}

/// The timestamp that fills the line from `offset` on, in microseconds since
/// 1970-01-01T00:00:00Z. `None` where the text is no timestamp of the form
/// above, names no day of the calendar, or names a time before 1970.
/// Digits beyond the sixth of the fraction are dropped.
pub open spec fn iso_8601_at(line: Seq<char>, offset: int) -> Option<u64> {
    match civil_time_at(line, offset) {
        Some(civil) => match fraction_end(line, offset + 19) {
            Some(end) => match zone_minutes_at(line, end) {
                Some(zone) => {
                    let micros = (civil.seconds_from_epoch() - zone * 60) * 1_000_000
                        + fraction_micros(line, offset + 19, end);
                    if civil.valid() && 0 <= micros <= u64::MAX {
                        Some(micros as u64)
                    } else {
                        None
                    }
                },
                None => None,
            },
            None => None,
        },
        None => None,
    }
}

/// Reads the `width` digits at `at`.
fn parse_fixed(line: &[char], at: usize, width: usize) -> (out: Option<u64>)
    requires
        1 <= width <= 4,
        at + width <= usize::MAX,
    ensures
        out matches Some(v) ==> v < 10_000 && (width == 2 ==> v < 100),
        match out {
            Some(v) => fixed_number(line@, at as int, width as int) == Some(v as int),
            None => fixed_number(line@, at as int, width as int) is None,
        },
{
    if at + width > line.len() {
        return None;
    }
    let mut acc: u64 = 0;
    let mut k: usize = 0;
    assert(line@.subrange(at as int, at as int).len() == 0);
    proof {
        reveal_with_fuel(pow10, 6);
    }
    while k < width
        invariant
            1 <= width <= 4,
            at + width <= line@.len(),
            at + width <= usize::MAX,
            k <= width,
            forall|i: int| at <= i < at + k ==> is_digit(line@[i]),
            acc == decimal_value(line@.subrange(at as int, at + k)),
            0 <= acc < pow10(k as nat),
        decreases width - k,
    {
        let c = line[at + k];
        if !('0' <= c && c <= '9') {
            return None;
        }
        proof {
            reveal_with_fuel(pow10, 6);
            lemma_decimal_value_push(line@, at as int, at + k);
        }
        acc = acc * 10 + (c as u32 - '0' as u32) as u64;
        k = k + 1;
    }
    Some(acc)
}

/// The fields of a timestamp as read, before they are checked.
struct CivilFields {
    year: u64,
    month: u64,
    day: u64,
    hour: u64,
    minute: u64,
    second: u64,
}

impl View for CivilFields {
    type V = CivilTime;

    closed spec fn view(&self) -> CivilTime {
        CivilTime {
            year: self.year as int,
            month: self.month as int,
            day: self.day as int,
            hour: self.hour as int,
            minute: self.minute as int,
            second: self.second as int,
        }
    }
}

impl CivilFields {
    /// Each field is within what its digits can write.
    spec fn bounded(self) -> bool {
        &&& self.year < 10_000
        &&& self.month < 100
        &&& self.day < 100
        &&& self.hour < 100
        &&& self.minute < 100
        &&& self.second < 100
    }
}

/// Reads the fields of the `YYYY-MM-DDThh:mm:ss` at `at`.
fn parse_civil(line: &[char], at: usize) -> (out: Option<CivilFields>)
    ensures
        match out {
            Some(fields) => civil_time_at(line@, at as int) == Some(fields@) && fields.bounded()
                && at + 19 <= line@.len(),
            None => civil_time_at(line@, at as int) is None,
        },
{
    if line.len() < CIVIL_LEN || at > line.len() - CIVIL_LEN {
        return None;
    }
    if line[at + 4] != '-' || line[at + 7] != '-' || line[at + 10] != 'T' || line[at + 13] != ':'
        || line[at + 16] != ':' {
        return None;
    }
    let year = match parse_fixed(line, at, 4) { Some(v) => v, None => { return None; } };
    let month = match parse_fixed(line, at + 5, 2) { Some(v) => v, None => { return None; } };
    let day = match parse_fixed(line, at + 8, 2) { Some(v) => v, None => { return None; } };
    let hour = match parse_fixed(line, at + 11, 2) { Some(v) => v, None => { return None; } };
    let minute = match parse_fixed(line, at + 14, 2) { Some(v) => v, None => { return None; } };
    let second = match parse_fixed(line, at + 17, 2) { Some(v) => v, None => { return None; } };
    Some(CivilFields { year, month, day, hour, minute, second })
}

fn leap_year(year: u64) -> (leap: bool)
    ensures
        leap == is_leap_year(year as int),
{
    year % 4 == 0 && (year % 100 != 0 || year % 400 == 0)
}

fn month_length(year: u64, month: u64) -> (days: u64)
    ensures
        days == days_in_month(year as int, month as int),
{
    if month == 2 {
        if leap_year(year) {
            29
        } else {
            28
        }
    } else if month == 4 || month == 6 || month == 9 || month == 11 {
        30
    } else {
        31
    }
}

/// Days from the first day of year 0 to the first day of the given month.
fn days_to_month(year: u64, month: u64) -> (days: u64)
    requires
        year < 10_000,
        1 <= month <= 12,
    ensures
        days == days_before_year(year as int) + days_before_month(year as int, month as int),
        days <= 3_660_000,
{
    proof {
        lemma_days_before_year(year as int);
        lemma_days_before_month(year as int, month as int);
    }
    let before_year: u64 = 365 * year + (year + 3) / 4 - (year + 99) / 100 + (year + 399) / 400;
    let before_month: u64 = if month == 1 {
        0
    } else if month == 2 {
        31
    } else if month == 3 {
        59
    } else if month == 4 {
        90
    } else if month == 5 {
        120
    } else if month == 6 {
        151
    } else if month == 7 {
        181
    } else if month == 8 {
        212
    } else if month == 9 {
        243
    } else if month == 10 {
        273
    } else if month == 11 {
        304
    } else {
        334
    };
    let leap_day: u64 = if month > 2 && leap_year(year) { 1 } else { 0 };
    before_year + before_month + leap_day
}

/// Days from the first day of year 0 to 1970-01-01.
pub const EPOCH_DAYS: i64 = 719_528;

/// Checks that the fields name a day and a second, and counts the seconds
/// from the epoch in the zone as written.
fn civil_seconds(fields: &CivilFields) -> (out: Option<i64>)
    requires
        fields.bounded(),
    ensures
        match out {
            Some(seconds) => fields@.valid() && seconds == fields@.seconds_from_epoch()
                && -63_000_000_000 <= seconds <= 260_000_000_000,
            None => !fields@.valid(),
        },
{
    if fields.month < 1 || fields.month > 12 || fields.hour > 23 || fields.minute > 59
        || fields.second > 59 {
        return None;
    }
    if fields.day < 1 || fields.day > month_length(fields.year, fields.month) {
        return None;
    }
    proof {
        lemma_days_before_year(1970);
    }
    let days: i64 = days_to_month(fields.year, fields.month) as i64 + fields.day as i64 - 1
        - EPOCH_DAYS;
    let second_of_day: i64 = (fields.hour * 3_600 + fields.minute * 60 + fields.second) as i64;
    Some(days * 86_400 + second_of_day)
}

/// Reads the zone that ends the line at `at`, in minutes east of Greenwich.
fn parse_zone(line: &[char], at: usize) -> (out: Option<i64>)
    requires
        at <= line@.len(),
    ensures
        match out {
            Some(minutes) => zone_minutes_at(line@, at as int) == Some(minutes as int) && -1_440
                < minutes < 1_440,
            None => zone_minutes_at(line@, at as int) is None,
        },
{
    if at == line.len() {
        return Some(0);
    }
    if line.len() - at == 1 {
        return if line[at] == 'Z' { Some(0) } else { None };
    }
    if line.len() - at != 6 || (line[at] != '+' && line[at] != '-') || line[at + 3] != ':' {
        return None;
    }
    let hours = match parse_fixed(line, at + 1, 2) { Some(v) => v, None => { return None; } };
    let minutes = match parse_fixed(line, at + 4, 2) { Some(v) => v, None => { return None; } };
    if hours > 23 || minutes > 59 {
        return None;
    }
    let east: i64 = (hours * 60 + minutes) as i64;
    if line[at] == '+' {
        Some(east)
    } else {
        Some(-east)
    }
}

/// Reads the timestamp that fills the line from `offset` on.
pub fn parse_iso_8601_date(line: &[char], offset: usize) -> (out: Option<u64>)
    ensures
        out == iso_8601_at(line@, offset as int),
{
    let fields = match parse_civil(line, offset) {
        Some(fields) => fields,
        None => {
            return None;
        },
    };
    let seconds = match civil_seconds(&fields) {
        Some(seconds) => seconds,
        None => {
            return None;
        },
    };
    let len = line.len();
    let at = offset + CIVIL_LEN;
    let end = if at < len && line[at] == '.' {
        let end = skip_digits(line, at + 1);
        if end == at + 1 {
            return None;
        }
        proof {
            lemma_digits_end(line@, at + 1);
        }
        end
    } else {
        at
    };
    let fraction: u64 = if end > at { fraction_to_micros(line, at + 1, end) } else { 0 };
    let zone = match parse_zone(line, end) {
        Some(zone) => zone,
        None => {
            return None;
        },
    };
    let micros: i64 = (seconds - zone * 60) * 1_000_000 + fraction as i64;
    if micros < 0 {
        None
    } else {
        Some(micros as u64)
    }
}

} // verus!
