//! The timestamp prefix grammar and its calendar arithmetic.
//!
//! A timestamp is the 19 bytes `YYYY-MM-DD_hh-mm-ss` (24-hour clock, UTC):
//! four year digits, then `-`, two month digits, `-`, two day digits, `_`,
//! two hour digits, `-`, two minute digits, `-`, two second digits. Beyond
//! the shape, the fields must name a real instant of the proleptic
//! Gregorian calendar. A parsed timestamp converts to whole seconds since
//! the Unix epoch (1970-01-01 00:00:00 UTC); timestamps before the epoch
//! convert to negative values.

use vstd::prelude::*;

verus! {

/// Byte of the ASCII digit `0`.
pub const DIGIT_ZERO: u8 = 48;

/// Byte of the ASCII digit `9`.
pub const DIGIT_NINE: u8 = 57;

/// Byte of the ASCII `-` between date fields and between time fields.
pub const HYPHEN: u8 = 45;

/// Byte of the ASCII `_` between the date and the time.
pub const UNDERSCORE: u8 = 95;

/// A parsed timestamp: a calendar date with a time of day.
#[derive(Clone, Copy, PartialEq, Eq, Structural, Debug)]
pub struct Timestamp {
    pub year: u16,
    pub month: u8,
    pub day: u8,
    pub hour: u8,
    pub minute: u8,
    pub second: u8,
}

impl Timestamp {
    /// The fields name a real instant: a date of the proleptic Gregorian
    /// calendar in years 0 through 9999, and a time of day on the 24-hour
    /// clock.
    pub open spec fn wf(self) -> bool {
        &&& self.year <= 9999
        &&& 1 <= self.month <= 12
        &&& 1 <= self.day <= spec_days_in_month(self.year as int, self.month as int)
        &&& self.hour <= 23
        &&& self.minute <= 59
        &&& self.second <= 59
    }
}

pub open spec fn spec_is_leap_year(y: int) -> bool {
    y % 4 == 0 && (y % 100 != 0 || y % 400 == 0)
}

pub open spec fn spec_days_in_year(y: int) -> int {
    if spec_is_leap_year(y) {
        366
    } else {
        365
    }
}

pub open spec fn spec_days_in_month(y: int, m: int) -> int {
    if m == 2 {
        if spec_is_leap_year(y) {
            29
        } else {
            28
        }
    } else if m == 4 || m == 6 || m == 9 || m == 11 {
        30
    } else {
        31
    }
}

/// Days from the epoch day 1970-01-01 to the first day of year `y`:
/// negative for years before 1970.
pub open spec fn spec_days_before_year(y: int) -> int
    decreases (if y >= 1970 { y - 1970 } else { 1970 - y }),
{
    if y > 1970 {
        spec_days_before_year(y - 1) + spec_days_in_year(y - 1)
    } else if y < 1970 {
        spec_days_before_year(y + 1) - spec_days_in_year(y)
    } else {
        0
    }
}

/// Days from the first day of year `y` to the first day of its month `m`.
pub open spec fn spec_days_before_month(y: int, m: int) -> int
    decreases m,
{
    if m <= 1 {
        0
    } else {
        spec_days_before_month(y, m - 1) + spec_days_in_month(y, m - 1)
    }
}

/// Days from the epoch day 1970-01-01 to the date `y`-`m`-`d`.
pub open spec fn spec_days_from_epoch(y: int, m: int, d: int) -> int {
    spec_days_before_year(y) + spec_days_before_month(y, m) + (d - 1)
}

/// Whole seconds from the Unix epoch to the instant `ts` names.
pub open spec fn spec_epoch_seconds(ts: Timestamp) -> int {
    spec_days_from_epoch(ts.year as int, ts.month as int, ts.day as int) * 86400
        + ts.hour as int * 3600 + ts.minute as int * 60 + ts.second as int
}

pub open spec fn spec_is_digit(b: u8) -> bool {
    DIGIT_ZERO <= b <= DIGIT_NINE
}

pub open spec fn spec_digit_val(b: u8) -> int {
    b - DIGIT_ZERO
}

/// The shape of the grammar: 19 bytes, digits and separators in their
/// fixed places.
pub open spec fn spec_format_ok(s: Seq<u8>) -> bool {
    &&& s.len() == 19
    &&& spec_is_digit(s[0]) && spec_is_digit(s[1]) && spec_is_digit(s[2]) && spec_is_digit(s[3])
    &&& s[4] == HYPHEN
    &&& spec_is_digit(s[5]) && spec_is_digit(s[6])
    &&& s[7] == HYPHEN
    &&& spec_is_digit(s[8]) && spec_is_digit(s[9])
    &&& s[10] == UNDERSCORE
    &&& spec_is_digit(s[11]) && spec_is_digit(s[12])
    &&& s[13] == HYPHEN
    &&& spec_is_digit(s[14]) && spec_is_digit(s[15])
    &&& s[16] == HYPHEN
    &&& spec_is_digit(s[17]) && spec_is_digit(s[18])
}

pub open spec fn spec_year_of(s: Seq<u8>) -> int {
    spec_digit_val(s[0]) * 1000 + spec_digit_val(s[1]) * 100 + spec_digit_val(s[2]) * 10
        + spec_digit_val(s[3])
}

pub open spec fn spec_month_of(s: Seq<u8>) -> int {
    spec_digit_val(s[5]) * 10 + spec_digit_val(s[6])
}

pub open spec fn spec_day_of(s: Seq<u8>) -> int {
    spec_digit_val(s[8]) * 10 + spec_digit_val(s[9])
}

pub open spec fn spec_hour_of(s: Seq<u8>) -> int {
    spec_digit_val(s[11]) * 10 + spec_digit_val(s[12])
}

pub open spec fn spec_minute_of(s: Seq<u8>) -> int {
    spec_digit_val(s[14]) * 10 + spec_digit_val(s[15])
}

pub open spec fn spec_second_of(s: Seq<u8>) -> int {
    spec_digit_val(s[17]) * 10 + spec_digit_val(s[18])
}

/// The timestamp the bytes spell, meaningful when `spec_format_ok(s)`.
pub open spec fn spec_timestamp_of(s: Seq<u8>) -> Timestamp {
    Timestamp {
        year: spec_year_of(s) as u16,
        month: spec_month_of(s) as u8,
        day: spec_day_of(s) as u8,
        hour: spec_hour_of(s) as u8,
        minute: spec_minute_of(s) as u8,
        second: spec_second_of(s) as u8,
    }
}

/// The bytes spell a timestamp: they have the grammar's shape and the
/// fields name a real instant.
pub open spec fn spec_valid_timestamp(s: Seq<u8>) -> bool {
    &&& spec_format_ok(s)
    &&& 1 <= spec_month_of(s) <= 12
    &&& 1 <= spec_day_of(s) <= spec_days_in_month(spec_year_of(s), spec_month_of(s))
    &&& spec_hour_of(s) <= 23
    &&& spec_minute_of(s) <= 59
    &&& spec_second_of(s) <= 59
}

pub fn is_leap_year(y: u16) -> (r: bool)
    ensures
        r == spec_is_leap_year(y as int),
{
    y % 4 == 0 && (y % 100 != 0 || y % 400 == 0)
}

pub fn days_in_month(y: u16, m: u8) -> (d: u8)
    requires
        1 <= m <= 12,
    ensures
        d == spec_days_in_month(y as int, m as int),
{
    if m == 2 {
        if is_leap_year(y) {
            29
        } else {
            28
        }
    } else if m == 4 || m == 6 || m == 9 || m == 11 {
        30
    } else {
        31
    }
}

fn days_in_year(y: u16) -> (d: u16)
    ensures
        d == spec_days_in_year(y as int),
{
    if is_leap_year(y) {
        366
    } else {
        365
    }
}

/// Days from 1970-01-01 to the first day of `year`, negative for earlier
/// years. Stays within about 3.7 million either way for years 0 to 9999.
fn days_before_year(year: u16) -> (d: i64)
    requires
        year <= 9999,
    ensures
        d == spec_days_before_year(year as int),
        -721240 <= d <= 2938898,
{
    let mut acc: i64 = 0;
    if year >= 1970 {
        let mut y: u16 = 1970;
        while y < year
            invariant
                1970 <= y <= year,
                year <= 9999,
                acc == spec_days_before_year(y as int),
                0 <= acc <= 366 * (y - 1970),
            decreases year - y,
        {
            acc = acc + days_in_year(y) as i64;
            y = y + 1;
        }
    } else {
        let mut y: u16 = 1970;
        while y > year
            invariant
                year <= y <= 1970,
                acc == spec_days_before_year(y as int),
                -366 * (1970 - y) <= acc <= 0,
            decreases y,
        {
            y = y - 1;
            acc = acc - days_in_year(y) as i64;
        }
    }
    acc
}

/// Days from the first day of `year` to the first day of its month
/// `month`.
fn days_before_month(year: u16, month: u8) -> (d: u16)
    requires
        1 <= month <= 12,
    ensures
        d == spec_days_before_month(year as int, month as int),
        d <= 366,
{
    let mut acc: u16 = 0;
    let mut m: u8 = 1;
    while m < month
        invariant
            1 <= m <= month,
            month <= 12,
            acc == spec_days_before_month(year as int, m as int),
            acc <= 31 * (m - 1),
        decreases month - m,
    {
        acc = acc + days_in_month(year, m) as u16;
        m = m + 1;
    }
    acc
}

/// Whole seconds from the Unix epoch (1970-01-01 00:00:00 UTC) to the
/// instant `ts` names; negative for instants before the epoch. Years 0
/// through 9999 keep the value within a fraction of the `i64` range.
pub fn epoch_seconds(ts: Timestamp) -> (r: i64)
    requires
        ts.wf(),
    ensures
        r == spec_epoch_seconds(ts),
        -62_315_136_000 <= r <= 253_955_088_000,
{
    let days: i64 = days_before_year(ts.year) + days_before_month(ts.year, ts.month) as i64 + (
    ts.day as i64 - 1);
    days * 86400 + ts.hour as i64 * 3600 + ts.minute as i64 * 60 + ts.second as i64
}

/// The value of one ASCII digit, or `None` for any other byte.
fn digit_val(b: u8) -> (r: Option<u8>)
    ensures
        r is Some <==> spec_is_digit(b),
        r matches Some(v) ==> v == spec_digit_val(b),
{
    if DIGIT_ZERO <= b && b <= DIGIT_NINE {
        Some(b - DIGIT_ZERO)
    } else {
        None
    }
}

/// Parses the fixed `YYYY-MM-DD_hh-mm-ss` grammar. Returns the timestamp
/// exactly when the bytes spell one; any other input is rejected.
pub fn parse_timestamp(s: &[u8]) -> (r: Option<Timestamp>)
    ensures
        r is Some <==> spec_valid_timestamp(s@),
        r matches Some(ts) ==> ts == spec_timestamp_of(s@) && ts.wf(),
{
    if s.len() != 19 {
        return None;
    }
    if s[4] != HYPHEN || s[7] != HYPHEN || s[10] != UNDERSCORE || s[13] != HYPHEN || s[16]
        != HYPHEN {
        return None;
    }
    let y0 = match digit_val(s[0]) {
        Some(v) => v,
        None => return None,
    };
    let y1 = match digit_val(s[1]) {
        Some(v) => v,
        None => return None,
    };
    let y2 = match digit_val(s[2]) {
        Some(v) => v,
        None => return None,
    };
    let y3 = match digit_val(s[3]) {
        Some(v) => v,
        None => return None,
    };
    let m0 = match digit_val(s[5]) {
        Some(v) => v,
        None => return None,
    };
    let m1 = match digit_val(s[6]) {
        Some(v) => v,
        None => return None,
    };
    let d0 = match digit_val(s[8]) {
        Some(v) => v,
        None => return None,
    };
    let d1 = match digit_val(s[9]) {
        Some(v) => v,
        None => return None,
    };
    let h0 = match digit_val(s[11]) {
        Some(v) => v,
        None => return None,
    };
    let h1 = match digit_val(s[12]) {
        Some(v) => v,
        None => return None,
    };
    let mi0 = match digit_val(s[14]) {
        Some(v) => v,
        None => return None,
    };
    let mi1 = match digit_val(s[15]) {
        Some(v) => v,
        None => return None,
    };
    let s0 = match digit_val(s[17]) {
        Some(v) => v,
        None => return None,
    };
    let s1 = match digit_val(s[18]) {
        Some(v) => v,
        None => return None,
    };
    let year: u16 = y0 as u16 * 1000 + y1 as u16 * 100 + y2 as u16 * 10 + y3 as u16;
    let month: u8 = m0 * 10 + m1;
    let day: u8 = d0 * 10 + d1;
    let hour: u8 = h0 * 10 + h1;
    let minute: u8 = mi0 * 10 + mi1;
    let second: u8 = s0 * 10 + s1;
    if month < 1 || month > 12 {
        return None;
    }
    if day < 1 || day > days_in_month(year, month) {
        return None;
    }
    if hour > 23 || minute > 59 || second > 59 {
        return None;
    }
    Some(Timestamp { year, month, day, hour, minute, second })
}

} // verus!
