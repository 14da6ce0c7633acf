//! The fixed wire timestamp format and the local-time calendar model.
//!
//! A wire timestamp is the 16-character pattern `YYYYMMDDTHHMMSSZ`, read as
//! an instant in UTC.  Decoding stores the local wall-clock reading of that
//! instant: the time zone contributes one offset (seconds east of UTC), and
//! the calendar arithmetic that applies it is verified here.

use vstd::prelude::*;

verus! {

/// One wall-clock reading: a calendar date and a time of day.
#[derive(Debug, Clone, Copy, PartialEq, Eq, Structural)]
pub struct WallClock {
    pub year: i32,
    pub month: u8,
    pub day: u8,
    pub hour: u8,
    pub minute: u8,
    pub second: u8,
}

pub open spec fn is_leap_year(y: int) -> bool {
    (y % 4 == 0 && y % 100 != 0) || y % 400 == 0
}

pub open spec fn days_in_month(y: int, m: int) -> int {
    if m == 2 {
        if is_leap_year(y) {
            29
        } else {
            28
        }
    } else if m == 4 || m == 6 || m == 9 || m == 11 {
        30
    } else {
        31
    }
}

/// The fields form a real calendar date and time of day.
pub open spec fn valid_clock(w: WallClock) -> bool {
    &&& 1 <= w.month <= 12
    &&& 1 <= w.day <= days_in_month(w.year as int, w.month as int)
    &&& 0 <= w.hour < 24
    &&& 0 <= w.minute < 60
    &&& 0 <= w.second < 60
}

fn leap_year(y: i32) -> (r: bool)
    requires
        y >= 0,
    ensures
        r == is_leap_year(y as int),
{
    (y % 4 == 0 && y % 100 != 0) || y % 400 == 0
}

fn month_days(y: i32, m: u8) -> (r: u8)
    requires
        y >= 0,
    ensures
        r as int == days_in_month(y as int, m as int),
{
    if m == 2 {
        if leap_year(y) {
            29
        } else {
            28
        }
    } else if m == 4 || m == 6 || m == 9 || m == 11 {
        30
    } else {
        31
    }
}

pub open spec fn is_digit(c: char) -> bool {
    '0' as u32 <= c as u32 <= '9' as u32
}

pub open spec fn digit_val(c: char) -> int {
    c as u32 - '0' as u32
}

pub open spec fn num2(s: Seq<char>, i: int) -> int {
    digit_val(s[i]) * 10 + digit_val(s[i + 1])
}

pub open spec fn num4(s: Seq<char>, i: int) -> int {
    num2(s, i) * 100 + num2(s, i + 2)
}

/// The string has the shape of the wire pattern `YYYYMMDDTHHMMSSZ`.
pub open spec fn wire_shaped(s: Seq<char>) -> bool {
    &&& s.len() == 16
    &&& is_digit(s[0])
    &&& is_digit(s[1])
    &&& is_digit(s[2])
    &&& is_digit(s[3])
    &&& is_digit(s[4])
    &&& is_digit(s[5])
    &&& is_digit(s[6])
    &&& is_digit(s[7])
    &&& s[8] == 'T'
    &&& is_digit(s[9])
    &&& is_digit(s[10])
    &&& is_digit(s[11])
    &&& is_digit(s[12])
    &&& is_digit(s[13])
    &&& is_digit(s[14])
    &&& s[15] == 'Z'
}

/// The UTC wall clock that a shaped wire string denotes.
pub open spec fn clock_of_wire(s: Seq<char>) -> WallClock {
    WallClock {
        year: num4(s, 0) as i32,
        month: num2(s, 4) as u8,
        day: num2(s, 6) as u8,
        hour: num2(s, 9) as u8,
        minute: num2(s, 11) as u8,
        second: num2(s, 13) as u8,
    }
}

/// The string is a wire timestamp: shaped like the pattern and naming a
/// real UTC date and time.
pub open spec fn wire_ok(s: Seq<char>) -> bool {
    wire_shaped(s) && valid_clock(clock_of_wire(s))
}

fn digit_of(c: char) -> (r: Option<u8>)
    ensures
        r is Some <==> is_digit(c),
        r is Some ==> r->0 as int == digit_val(c),
{
    let u = c as u32;
    if 48 <= u && u <= 57 {
        Some((u - 48) as u8)
    } else {
        None
    }
}

fn read2(s: &str, i: usize) -> (r: Option<u8>)
    requires
        i + 2 <= s@.len(),
        s@.len() <= usize::MAX,
    ensures
        r is Some <==> is_digit(s@[i as int]) && is_digit(s@[i + 1]),
        r is Some ==> r->0 as int == num2(s@, i as int),
{
    let a = match digit_of(s.get_char(i)) {
        Some(d) => d,
        None => {
            return None;
        },
    };
    let b = match digit_of(s.get_char(i + 1)) {
        Some(d) => d,
        None => {
            return None;
        },
    };
    Some(a * 10 + b)
}

fn read4(s: &str, i: usize) -> (r: Option<u16>)
    requires
        i + 4 <= s@.len(),
        s@.len() <= usize::MAX,
    ensures
        r is Some <==> is_digit(s@[i as int]) && is_digit(s@[i + 1]) && is_digit(s@[i + 2])
            && is_digit(s@[i + 3]),
        r is Some ==> r->0 as int == num4(s@, i as int),
{
    let hi = match read2(s, i) {
        Some(d) => d,
        None => {
            return None;
        },
    };
    let lo = match read2(s, i + 2) {
        Some(d) => d,
        None => {
            return None;
        },
    };
    Some(hi as u16 * 100 + lo as u16)
}

/// Decode the fixed wire pattern into its UTC wall-clock fields.
pub fn parse_wire(s: &str) -> (r: Option<WallClock>)
    ensures
        r is Some <==> wire_ok(s@),
        r is Some ==> r->0 == clock_of_wire(s@),
{
    if s.unicode_len() != 16 {
        return None;
    }
    if s.get_char(8) != 'T' {
        return None;
    }
    if s.get_char(15) != 'Z' {
        return None;
    }
    let year = match read4(s, 0) {
        Some(v) => v,
        None => {
            return None;
        },
    };
    let month = match read2(s, 4) {
        Some(v) => v,
        None => {
            return None;
        },
    };
    let day = match read2(s, 6) {
        Some(v) => v,
        None => {
            return None;
        },
    };
    let hour = match read2(s, 9) {
        Some(v) => v,
        None => {
            return None;
        },
    };
    let minute = match read2(s, 11) {
        Some(v) => v,
        None => {
            return None;
        },
    };
    let second = match read2(s, 13) {
        Some(v) => v,
        None => {
            return None;
        },
    };
    let w = WallClock {
        year: year as i32,
        month,
        day,
        hour,
        minute,
        second,
    };
    assert(wire_shaped(s@));
    assert(w == clock_of_wire(s@));
    if month < 1 || month > 12 {
        return None;
    }
    if day < 1 || day > month_days(year as i32, month) {
        return None;
    }
    if hour > 23 || minute > 59 || second > 59 {
        return None;
    }
    Some(w)
}

/// Seconds into its day of a wall-clock reading.
pub open spec fn tod_seconds(w: WallClock) -> int {
    w.hour * 3600 + w.minute * 60 + w.second
}

/// The calendar day after the given one; the time of day is kept.
pub open spec fn spec_next_day(w: WallClock) -> WallClock {
    if w.day < days_in_month(w.year as int, w.month as int) {
        WallClock { day: (w.day + 1) as u8, ..w }
    } else if w.month < 12 {
        WallClock { month: (w.month + 1) as u8, day: 1, ..w }
    } else {
        WallClock { year: (w.year + 1) as i32, month: 1, day: 1, ..w }
    }
}

/// The calendar day before the given one; the time of day is kept.
pub open spec fn spec_prev_day(w: WallClock) -> WallClock {
    if w.day > 1 {
        WallClock { day: (w.day - 1) as u8, ..w }
    } else if w.month > 1 {
        WallClock {
            month: (w.month - 1) as u8,
            day: days_in_month(w.year as int, w.month - 1) as u8,
            ..w
        }
    } else {
        WallClock { year: (w.year - 1) as i32, month: 12, day: 31, ..w }
    }
}

/// The same date carrying the given time of day.
pub open spec fn with_tod(w: WallClock, t: int) -> WallClock {
    WallClock {
        hour: (t / 3600) as u8,
        minute: ((t % 3600) / 60) as u8,
        second: (t % 60) as u8,
        ..w
    }
}

/// The local wall clock that an offset (seconds east of UTC) gives for a
/// UTC reading.
pub open spec fn local_of(utc: WallClock, off: int) -> WallClock {
    let t = tod_seconds(utc) + off;
    if t < 0 {
        with_tod(spec_prev_day(utc), t + 86400)
    } else if t >= 86400 {
        with_tod(spec_next_day(utc), t - 86400)
    } else {
        with_tod(utc, t)
    }
}

fn next_day(w: WallClock) -> (r: WallClock)
    requires
        valid_clock(w),
        0 <= w.year <= 9999,
    ensures
        r == spec_next_day(w),
        valid_clock(r),
        0 <= r.year <= 10000,
{
    if w.day < month_days(w.year, w.month) {
        WallClock { day: w.day + 1, ..w }
    } else if w.month < 12 {
        WallClock { month: w.month + 1, day: 1, ..w }
    } else {
        WallClock { year: w.year + 1, month: 1, day: 1, ..w }
    }
}

fn prev_day(w: WallClock) -> (r: WallClock)
    requires
        valid_clock(w),
        0 <= w.year <= 9999,
    ensures
        r == spec_prev_day(w),
        valid_clock(r),
        -1 <= r.year <= 9999,
{
    if w.day > 1 {
        WallClock { day: w.day - 1, ..w }
    } else if w.month > 1 {
        WallClock { month: w.month - 1, day: month_days(w.year, w.month - 1), ..w }
    } else {
        WallClock { year: w.year - 1, month: 12, day: 31, ..w }
    }
}

fn with_tod_x(w: WallClock, t: i32) -> (r: WallClock)
    requires
        0 <= t < 86400,
    ensures
        r == with_tod(w, t as int),
        w.month == r.month && w.day == r.day && w.year == r.year,
        0 <= r.hour < 24 && 0 <= r.minute < 60 && 0 <= r.second < 60,
{
    proof {
        assert(0 <= t / 3600 < 24) by (nonlinear_arith)
            requires
                0 <= t < 86400,
        ;
        assert(0 <= (t % 3600) / 60 < 60) by (nonlinear_arith)
            requires
                0 <= t,
        ;
        assert(0 <= t % 60 < 60) by (nonlinear_arith)
            requires
                0 <= t,
        ;
    }
    WallClock {
        hour: (t / 3600) as u8,
        minute: ((t % 3600) / 60) as u8,
        second: (t % 60) as u8,
        ..w
    }
}

/// Apply a time-zone offset to a UTC reading.
pub fn apply_offset(utc: WallClock, off: i32) -> (r: WallClock)
    requires
        valid_clock(utc),
        0 <= utc.year <= 9999,
        -86400 < off < 86400,
    ensures
        r == local_of(utc, off as int),
        valid_clock(r),
        -1 <= r.year <= 10000,
{
    let t: i32 = utc.hour as i32 * 3600 + utc.minute as i32 * 60 + utc.second as i32 + off;
    if t < 0 {
        let base = prev_day(utc);
        with_tod_x(base, t + 86400)
    } else if t >= 86400 {
        let base = next_day(utc);
        with_tod_x(base, t - 86400)
    } else {
        with_tod_x(utc, t)
    }
}

/// One decoded instant: the UTC reading from the wire, the offset its time
/// zone gave for it, and the local wall clock the two determine.
#[derive(Debug, Clone, Copy, PartialEq, Eq, Structural)]
pub struct Timestamp {
    pub utc: WallClock,
    pub local: WallClock,
    pub offset_seconds: i32,
}

/// Internal consistency of a decoded instant.
pub open spec fn timestamp_wf(t: Timestamp) -> bool {
    &&& valid_clock(t.utc)
    &&& 0 <= t.utc.year <= 9999
    &&& -86400 < t.offset_seconds < 86400
    &&& t.local == local_of(t.utc, t.offset_seconds as int)
}

/// Relies on chrono — `NaiveDate::from_ymd_opt`, `NaiveDate::and_hms_opt`
/// and `TimeZone::offset_from_utc_datetime` for `Local` — for the one fact
/// nothing here can compute: the offset the process time zone applies at a
/// given UTC instant.  chrono's `FixedOffset` keeps its seconds strictly
/// between -86400 and 86400.
#[verifier::external_body]
pub(crate) fn local_offset_seconds(w: &WallClock) -> (r: i32)
    requires
        valid_clock(*w),
        0 <= w.year <= 9999,
    ensures
        -86400 < r < 86400,
{
    let dt = chrono::NaiveDate::from_ymd_opt(w.year, w.month as u32, w.day as u32)
        .unwrap()
        .and_hms_opt(w.hour as u32, w.minute as u32, w.second as u32)
        .unwrap();
    chrono::TimeZone::offset_from_utc_datetime(&chrono::Local, &dt).local_minus_utc()
}

impl Timestamp {
    /// Build the instant for a UTC reading under a fixed offset.
    pub fn from_utc(utc: WallClock, offset_seconds: i32) -> (r: Timestamp)
        requires
            valid_clock(utc),
            0 <= utc.year <= 9999,
            -86400 < offset_seconds < 86400,
        ensures
            r.utc == utc,
            r.offset_seconds == offset_seconds,
            timestamp_wf(r),
    {
        Timestamp { utc, local: apply_offset(utc, offset_seconds), offset_seconds }
    }

    /// Decode a wire timestamp under a caller-supplied offset.
    pub fn deserialize_with_offset(s: &str, offset_seconds: i32) -> (r: Option<Timestamp>)
        requires
            -86400 < offset_seconds < 86400,
        ensures
            r is Some <==> wire_ok(s@),
            r is Some ==> r->0.utc == clock_of_wire(s@) && r->0.offset_seconds == offset_seconds
                && timestamp_wf(r->0),
    {
        match parse_wire(s) {
            Some(w) => Some(Self::from_utc(w, offset_seconds)),
            None => None,
        }
    }

    /// Decode a wire timestamp; the process time zone chooses the offset.
    pub fn deserialize(s: &str) -> (r: Option<Timestamp>)
        ensures
            r is Some <==> wire_ok(s@),
            r is Some ==> r->0.utc == clock_of_wire(s@) && timestamp_wf(r->0),
    {
        match parse_wire(s) {
            Some(w) => Some(Self::from_utc(w, local_offset_seconds(&w))),
            None => None,
        }
    }
}

} // verus!
