use chrono::{Datelike, Timelike};
use vstd::prelude::*;
use vstd::string::*;

use crate::text::{push_zero_padded, zero_padded};

verus! {

/// The earliest and latest years a date-time may have.
pub const MIN_YEAR: i32 = -262143;

pub const MAX_YEAR: i32 = 262142;

/// Offset of the wall-clock zone in which clients write `scheduled_at`
/// (Asia/Seoul, +09:00), in seconds.
pub const KST_OFFSET_SECS: u32 = 32400;

/// A calendar date and time of day, without a time zone.
#[derive(Clone, Copy, Debug, PartialEq, Eq, Structural)]
pub struct CivilDateTime {
    pub year: i32,
    pub month: u32,
    pub day: u32,
    pub hour: u32,
    pub minute: u32,
    pub second: u32,
}

pub open spec fn is_leap_year(y: int) -> bool {
    (y % 4 == 0 && y % 100 != 0) || y % 400 == 0
}

pub open spec fn days_in_month(y: int, m: int) -> int {
    if m == 2 {
        if is_leap_year(y) {
            29
        } else {
            28
        }
    } else if m == 4 || m == 6 || m == 9 || m == 11 {
        30
    } else {
        31
    }
}

/// Days of year `y` before the first of month `m`.
pub open spec fn days_before_month(y: int, m: int) -> int {
    let base: int = if m == 1 {
        0
    } else if m == 2 {
        31
    } else if m == 3 {
        59
    } else if m == 4 {
        90
    } else if m == 5 {
        120
    } else if m == 6 {
        151
    } else if m == 7 {
        181
    } else if m == 8 {
        212
    } else if m == 9 {
        243
    } else if m == 10 {
        273
    } else if m == 11 {
        304
    } else {
        334
    };
    if m > 2 && is_leap_year(y) {
        base + 1
    } else {
        base
    }
}

/// Days from 0001-01-01 to the first of January of year `y` (negative
/// before it), in the proleptic Gregorian calendar.
pub open spec fn days_before_year(y: int) -> int {
    365 * (y - 1) + (y - 1) / 4 - (y - 1) / 100 + (y - 1) / 400
}

impl CivilDateTime {
    /// A real calendar date within the supported years, and a time of day.
    pub open spec fn wf(self) -> bool {
        &&& MIN_YEAR <= self.year <= MAX_YEAR
        &&& 1 <= self.month <= 12
        &&& 1 <= self.day <= days_in_month(self.year as int, self.month as int)
        &&& self.hour < 24
        &&& self.minute < 60
        &&& self.second < 60
    }

    /// Days since 0001-01-01.
    pub open spec fn day_number(self) -> int {
        days_before_year(self.year as int) + days_before_month(self.year as int, self.month as int)
            + self.day - 1
    }

    /// Seconds since 0001-01-01 00:00:00: the instant this date-time names
    /// on a clock that has no zone offset.
    pub open spec fn seconds(self) -> int {
        self.day_number() * 86400 + self.hour * 3600 + self.minute * 60 + self.second
    }
}

/// The same instant read on a clock 9 hours behind, if that still falls in
/// the supported years.
pub open spec fn kst_to_utc_spec(d: CivilDateTime) -> Option<CivilDateTime> {
    if d.hour >= 9 {
        Some(CivilDateTime { hour: (d.hour - 9) as u32, ..d })
    } else if d.day > 1 {
        Some(CivilDateTime { day: (d.day - 1) as u32, hour: (d.hour + 15) as u32, ..d })
    } else if d.month > 1 {
        Some(
            CivilDateTime {
                month: (d.month - 1) as u32,
                day: days_in_month(d.year as int, d.month - 1) as u32,
                hour: (d.hour + 15) as u32,
                ..d
            },
        )
    } else if d.year > MIN_YEAR {
        Some(
            CivilDateTime {
                year: (d.year - 1) as i32,
                month: 12,
                day: 31,
                hour: (d.hour + 15) as u32,
                ..d
            },
        )
    } else {
        None
    }
}

proof fn lemma_year_length(y: int)
    ensures
        days_before_year(y + 1) - days_before_year(y) == (if is_leap_year(y) {
            366int
        } else {
            365int
        }),
{
    let z = y - 1;
    assert(y / 4 - z / 4 == (if y % 4 == 0 {
        1int
    } else {
        0int
    }));
    assert(y / 100 - z / 100 == (if y % 100 == 0 {
        1int
    } else {
        0int
    }));
    assert(y / 400 - z / 400 == (if y % 400 == 0 {
        1int
    } else {
        0int
    }));
}

/// Converting a wall-clock time in +09:00 to UTC gives a valid date-time
/// exactly 9 hours (32400 seconds) earlier; it fails only when that instant
/// falls before the earliest supported year.
pub proof fn lemma_kst_to_utc_is_nine_hours_earlier(d: CivilDateTime)
    requires
        d.wf(),
    ensures
        kst_to_utc_spec(d) matches Some(u) ==> u.wf() && u.seconds() == d.seconds() - KST_OFFSET_SECS,
        kst_to_utc_spec(d) is None <==> (d.year == MIN_YEAR && d.month == 1 && d.day == 1
            && d.hour < 9),
{
    if d.hour < 9 && d.day == 1 && d.month == 1 && d.year > MIN_YEAR {
        lemma_year_length(d.year - 1);
    }
}

/// The instant as UTC, when `d` is read in +09:00.
pub fn kst_to_utc(d: CivilDateTime) -> (r: Option<CivilDateTime>)
    requires
        d.wf(),
    ensures
        r == kst_to_utc_spec(d),
        r matches Some(u) ==> u.wf() && u.seconds() == d.seconds() - KST_OFFSET_SECS,
{
    proof {
        lemma_kst_to_utc_is_nine_hours_earlier(d);
    }
    if d.hour >= 9 {
        Some(CivilDateTime { hour: d.hour - 9, ..d })
    } else if d.day > 1 {
        Some(CivilDateTime { day: d.day - 1, hour: d.hour + 15, ..d })
    } else if d.month > 1 {
        Some(
            CivilDateTime {
                month: d.month - 1,
                day: month_length(d.year, d.month - 1),
                hour: d.hour + 15,
                ..d
            },
        )
    } else if d.year > MIN_YEAR {
        Some(CivilDateTime { year: d.year - 1, month: 12, day: 31, hour: d.hour + 15, ..d })
    } else {
        None
    }
}

pub fn leap_year(y: i32) -> (r: bool)
    requires
        MIN_YEAR <= y <= MAX_YEAR,
    ensures
        r == is_leap_year(y as int),
{
    // Shifting by a multiple of 400 years keeps the answer and makes the
    // operand non-negative.
    let p: u32 = (y + 400000) as u32;
    proof {
        let q = y as int + 400000;
        vstd::arithmetic::div_mod::lemma_mod_multiples_vanish(100000, y as int, 4);
        vstd::arithmetic::div_mod::lemma_mod_multiples_vanish(4000, y as int, 100);
        vstd::arithmetic::div_mod::lemma_mod_multiples_vanish(1000, y as int, 400);
        assert(q == 4 * 100000 + y as int);
        assert(q == 100 * 4000 + y as int);
        assert(q == 400 * 1000 + y as int);
    }
    (p % 4 == 0 && p % 100 != 0) || p % 400 == 0
}

pub fn month_length(y: i32, m: u32) -> (r: u32)
    requires
        MIN_YEAR <= y <= MAX_YEAR,
        1 <= m <= 12,
    ensures
        r as int == days_in_month(y as int, m as int),
{
    if m == 2 {
        if leap_year(y) {
            29
        } else {
            28
        }
    } else if m == 4 || m == 6 || m == 9 || m == 11 {
        30
    } else {
        31
    }
}

/// The year as the wire format writes it: four digits, zero-padded, for
/// years 0 to 9999; a sign and at least four digits otherwise.
pub open spec fn year_text(y: int) -> Seq<char> {
    if 0 <= y <= 9999 {
        zero_padded(y as nat, 4)
    } else if y < 0 {
        seq!['-'] + zero_padded((-y) as nat, 4)
    } else {
        seq!['+'] + zero_padded(y as nat, 4)
    }
}

/// `YYYY-MM-DD HH:MM:SS`
pub open spec fn wire_text(d: CivilDateTime) -> Seq<char> {
    year_text(d.year as int) + seq!['-'] + zero_padded(d.month as nat, 2) + seq!['-']
        + zero_padded(d.day as nat, 2) + seq![' '] + zero_padded(d.hour as nat, 2) + seq![':']
        + zero_padded(d.minute as nat, 2) + seq![':'] + zero_padded(d.second as nat, 2)
}

/// The date-time in the wire format `YYYY-MM-DD HH:MM:SS`.
pub fn format_wire(d: CivilDateTime) -> (r: String)
    ensures
        r@ == wire_text(d),
{
    let mut s = String::new();
    if 0 <= d.year && d.year <= 9999 {
        push_zero_padded(&mut s, d.year as u64, 4);
    } else if d.year < 0 {
        s.append("-");
        let m: u64 = if d.year == i32::MIN {
            2147483648u64
        } else {
            (-d.year) as u64
        };
        push_zero_padded(&mut s, m, 4);
    } else {
        s.append("+");
        push_zero_padded(&mut s, d.year as u64, 4);
    }
    s.append("-");
    push_zero_padded(&mut s, d.month as u64, 2);
    s.append("-");
    push_zero_padded(&mut s, d.day as u64, 2);
    s.append(" ");
    push_zero_padded(&mut s, d.hour as u64, 2);
    s.append(":");
    push_zero_padded(&mut s, d.minute as u64, 2);
    s.append(":");
    push_zero_padded(&mut s, d.second as u64, 2);
    proof {
        reveal_strlit("-");
        reveal_strlit("+");
        reveal_strlit(" ");
        reveal_strlit(":");
        assert(s@ =~= wire_text(d));
    }
    s
}

/// What chrono's `NaiveDateTime::parse_from_str(s, "%Y-%m-%d %H:%M:%S")`
/// yields for the text `s`.
pub uninterp spec fn parsed_wire_datetime(s: Seq<char>) -> Option<CivilDateTime>;

/// Relies on chrono's `NaiveDateTime::parse_from_str` with the wire format:
/// the outcome depends on the text alone, and a parsed value is a real
/// calendar date within chrono's years with a time of day (a leap second
/// reads as second 59).
#[verifier::external_body]
fn parse_wire_datetime(s: &str) -> (r: Option<CivilDateTime>)
    ensures
        r == parsed_wire_datetime(s@),
        r matches Some(d) ==> d.wf(),
{
    match chrono::NaiveDateTime::parse_from_str(s, "%Y-%m-%d %H:%M:%S") {
        Ok(dt) => Some(
            CivilDateTime {
                year: dt.year(),
                month: dt.month(),
                day: dt.day(),
                hour: dt.hour(),
                minute: dt.minute(),
                second: dt.second(),
            },
        ),
        Err(_) => None,
    }
}

/// Relies on chrono's `Utc::now`: the current UTC date and time, a valid
/// calendar date-time.
#[verifier::external_body]
fn utc_now() -> (r: CivilDateTime)
    ensures
        r.wf(),
{
    let now = chrono::Utc::now();
    CivilDateTime {
        year: now.year(),
        month: now.month(),
        day: now.day(),
        hour: now.hour(),
        minute: now.minute(),
        second: now.second(),
    }
}

/// The requested date-time of a `scheduled_at` value, as parsed.
pub open spec fn requested_time(scheduled: Option<Seq<char>>) -> Option<CivilDateTime> {
    match scheduled {
        Some(s) => if s.len() > 0 {
            parsed_wire_datetime(s)
        } else {
            None
        },
        None => None,
    }
}

/// The stored UTC text for a request: the parsed wall-clock time moved from
/// +09:00 to UTC, or `now` when there is no usable time.
pub open spec fn stored_schedule_text(parsed: Option<CivilDateTime>, now: CivilDateTime) -> Seq<
    char,
> {
    match parsed {
        Some(d) => match kst_to_utc_spec(d) {
            Some(u) => wire_text(u),
            None => wire_text(now),
        },
        None => wire_text(now),
    }
}

/// The stored UTC text for a parsed `scheduled_at` (see
/// `stored_schedule_text`), with `now` the current UTC time.
pub fn schedule_text(parsed: Option<CivilDateTime>, now: CivilDateTime) -> (r: String)
    requires
        parsed matches Some(d) ==> d.wf(),
    ensures
        r@ == stored_schedule_text(parsed, now),
{
    match parsed {
        Some(d) => match kst_to_utc(d) {
            Some(u) => format_wire(u),
            None => format_wire(now),
        },
        None => format_wire(now),
    }
}

/// Converts a client's `scheduled_at` (wall-clock `YYYY-MM-DD HH:MM:SS` in
/// +09:00) to the UTC text the store compares. A missing, empty or
/// unparseable value gives the current UTC time.
pub fn parse_scheduled_at(scheduled: Option<&str>) -> (r: String)
    ensures
        exists|now: CivilDateTime|
            now.wf() && r@ == stored_schedule_text(
                requested_time(
                    match scheduled {
                        Some(s) => Some(s@),
                        None => None,
                    },
                ),
                now,
            ),
{
    let now = utc_now();
    let parsed = match scheduled {
        Some(s) => if s.unicode_len() > 0 {
            parse_wire_datetime(s)
        } else {
            None
        },
        None => None,
    };
    let r = schedule_text(parsed, now);
    proof {
        let sv = match scheduled {
            Some(s) => Some(s@),
            None => None::<Seq<char>>,
        };
        assert(parsed == requested_time(sv));
        assert(now.wf() && r@ == stored_schedule_text(requested_time(sv), now));
    }
    r
}

/// For every text that parses as a date-time in +09:00, the stored value is
/// that instant 9 hours earlier, written in UTC; the current time is stored
/// only when the instant precedes the earliest supported year.
pub proof fn lemma_scheduled_time_is_nine_hours_earlier(s: Seq<char>, now: CivilDateTime)
    requires
        s.len() > 0,
        parsed_wire_datetime(s) is Some,
        parsed_wire_datetime(s).unwrap().wf(),
    ensures
        ({
            let d = parsed_wire_datetime(s).unwrap();
            match kst_to_utc_spec(d) {
                Some(u) => u.wf() && u.seconds() == d.seconds() - KST_OFFSET_SECS && stored_schedule_text(
                    requested_time(Some(s)),
                    now,
                ) == wire_text(u),
                None => stored_schedule_text(requested_time(Some(s)), now) == wire_text(now),
            }
        }),
{
    lemma_kst_to_utc_is_nine_hours_earlier(parsed_wire_datetime(s).unwrap());
}

} // verus!
