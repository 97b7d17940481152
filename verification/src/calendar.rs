//! Calendar dates and local date-times, computed by `chrono`.

use vstd::prelude::*;
use chrono::{Datelike, TimeZone, Timelike};

verus! {

#[verifier::external_type_specification]
#[verifier::external_body]
pub struct ExNaiveDateTime(chrono::NaiveDateTime);

/// A leap year of the proleptic Gregorian calendar.
pub open spec fn is_leap_year(year: int) -> bool {
    year % 4 == 0 && (year % 100 != 0 || year % 400 == 0)
}

/// The number of days of a month.
pub open spec fn days_in_month(year: int, month: int) -> int {
    if month == 2 {
        if is_leap_year(year) {
            29
        } else {
            28
        }
    } else if month == 4 || month == 6 || month == 9 || month == 11 {
        30
    } else {
        31
    }
}

/// Whether year/month/day name a day of the proleptic Gregorian calendar
/// within `chrono`'s range of years, -262143 to 262142
/// (`NaiveDate::from_ymd_opt` returns `Some`).
pub open spec fn is_calendar_date(year: int, month: int, day: int) -> bool {
    &&& -262143 <= year <= 262142
    &&& 1 <= month <= 12
    &&& 1 <= day <= days_in_month(year, month)
}

/// Law: weekdays follow one another as the days do. Every date's weekday
/// name is one of the seven, 1970-01-01 was a Thursday, the day after a
/// date has the next name in the week (Sunday followed by Monday), and dates
/// a week apart share their name.
pub proof fn law_weekdays_follow_the_days(a: (int, int, int), b: (int, int, int))
    ensures
        weekday_names().contains(weekday_name_of(a.0, a.1, a.2)),
        weekday_name_of(1970, 1, 1) == "Thursday"@,
        day_number(b.0, b.1, b.2) == day_number(a.0, a.1, a.2) + 7 ==> weekday_name_of(b.0, b.1, b.2)
            == weekday_name_of(a.0, a.1, a.2),
        day_number(b.0, b.1, b.2) == day_number(a.0, a.1, a.2) + 1 ==> weekday_name_of(b.0, b.1, b.2)
            == weekday_names()[((day_number(a.0, a.1, a.2) + 3) % 7 + 1) % 7],
{
    let i = (day_number(a.0, a.1, a.2) + 3) % 7;
    assert(0 <= i < 7);
    assert(weekday_names()[i] == weekday_name_of(a.0, a.1, a.2));
    assert(day_number(1970, 1, 1) == 0);
    let x = day_number(a.0, a.1, a.2) + 3;
    assert((x + 7) % 7 == x % 7);
    assert((x + 1) % 7 == (x % 7 + 1) % 7);
}

/// `NaiveDate::format("%Y-%m-%d")` of a date.
pub uninterp spec fn iso_date_text(year: int, month: int, day: int) -> Seq<char>;

/// The English names of the weekdays, from Monday.
pub open spec fn weekday_names() -> Seq<Seq<char>> {
    seq!["Monday"@, "Tuesday"@, "Wednesday"@, "Thursday"@, "Friday"@, "Saturday"@, "Sunday"@]
}

/// `NaiveDate::format("%A")` of a date: the English name of its weekday
/// (1970-01-01 was a Thursday).
pub open spec fn weekday_name_of(year: int, month: int, day: int) -> Seq<char> {
    weekday_names()[(day_number(year, month, day) + 3) % 7]
}

/// `NaiveDate::parse_from_str(text, "%Y-%m-%d")`, as year/month/day.
pub uninterp spec fn parsed_iso_date(text: Seq<char>) -> Option<(int, int, int)>;

/// `NaiveDate::checked_add_signed(TimeDelta::days(days))`, as year/month/day:
/// the day of chrono's range `days` days later, if there is one.
pub open spec fn date_plus_days(year: int, month: int, day: int, days: int) -> Option<
    (int, int, int),
> {
    if exists|t: (int, int, int)|
        is_calendar_date(t.0, t.1, t.2) && #[trigger] day_number(t.0, t.1, t.2) == day_number(
            year,
            month,
            day,
        ) + days {
        Some(
            choose|t: (int, int, int)|
                is_calendar_date(t.0, t.1, t.2) && #[trigger] day_number(t.0, t.1, t.2)
                    == day_number(year, month, day) + days,
        )
    } else {
        None
    }
}

/// The largest number of days `TimeDelta::days` accepts: `i64::MAX / 1000`
/// seconds in whole days.
pub const MAX_DELTA_DAYS: i64 = 106_751_991_167;

/// A day of the calendar, as `chrono::NaiveDate` holds it.
#[derive(Clone, Copy, Debug)]
pub struct Date {
    year: i32,
    month: u32,
    day: u32,
}

impl View for Date {
    type V = (int, int, int);

    closed spec fn view(&self) -> (int, int, int) {
        (self.year as int, self.month as int, self.day as int)
    }
}

/// The number of days from 1970-01-01 to a day of the proleptic Gregorian
/// calendar (negative before it).
pub open spec fn day_number(year: int, month: int, day: int) -> int {
    let y = if month <= 2 {
        year - 1
    } else {
        year
    };
    let era = y / 400;
    let yoe = y - era * 400;
    let mp = (month + 9) % 12;
    let doy = (153 * mp + 2) / 5 + day - 1;
    let doe = yoe * 365 + yoe / 4 - yoe / 100 + doy;
    era * 146097 + doe - 719468
}

/// The `%Y-%m-%d` text of a date, as `chrono` writes it.
pub open spec fn date_text(d: (int, int, int)) -> Seq<char> {
    iso_date_text(d.0, d.1, d.2)
}

/// Zero-padded decimal digits of `n`, `width` of them.
pub open spec fn padded_digits(n: int, width: nat) -> Seq<char>
    decreases width,
{
    if width == 0 {
        Seq::<char>::empty()
    } else {
        padded_digits(n / 10, (width - 1) as nat).push(((n % 10) + '0' as int) as char)
    }
}

/// `NaiveDate::from_ymd_opt(..).is_some()`: whether the date exists.
#[verifier::external_body]
fn naive_date_exists(year: i32, month: u32, day: u32) -> (r: bool)
    ensures
        r == is_calendar_date(year as int, month as int, day as int),
{
    chrono::NaiveDate::from_ymd_opt(year, month, day).is_some()
}

/// `NaiveDate::format("%Y-%m-%d")`. For years 0 to 9999 the text is the
/// year in four digits, the month and the day in two, joined by `-`, as
/// chrono's documentation of `%Y`, `%m` and `%d` gives it.
#[verifier::external_body]
fn format_iso_date(year: i32, month: u32, day: u32) -> (r: String)
    requires
        is_calendar_date(year as int, month as int, day as int),
    ensures
        r@ == iso_date_text(year as int, month as int, day as int),
        0 <= year <= 9999 ==> r@ == padded_digits(year as int, 4) + seq!['-'] + padded_digits(
            month as int,
            2,
        ) + seq!['-'] + padded_digits(day as int, 2),
{
    chrono::NaiveDate::from_ymd_opt(year, month, day).unwrap().format("%Y-%m-%d").to_string()
}

/// `NaiveDate::format("%A")`: the English name of the date's weekday.
#[verifier::external_body]
fn format_weekday(year: i32, month: u32, day: u32) -> (r: String)
    requires
        is_calendar_date(year as int, month as int, day as int),
    ensures
        r@ == weekday_name_of(year as int, month as int, day as int),
{
    chrono::NaiveDate::from_ymd_opt(year, month, day).unwrap().format("%A").to_string()
}

/// `NaiveDate::parse_from_str(text, "%Y-%m-%d")`; a date it returns exists.
#[verifier::external_body]
fn parse_naive_date(text: &str) -> (r: Option<(i32, u32, u32)>)
    ensures
        match r {
            Some(t) => parsed_iso_date(text@) == Some((t.0 as int, t.1 as int, t.2 as int))
                && is_calendar_date(t.0 as int, t.1 as int, t.2 as int),
            None => parsed_iso_date(text@) is None,
        },
{
    match chrono::NaiveDate::parse_from_str(text, "%Y-%m-%d") {
        Ok(d) => Some((d.year(), d.month(), d.day())),
        Err(_) => None,
    }
}

/// `NaiveDate::checked_add_signed(TimeDelta::days(days))`; a date it returns
/// exists. `TimeDelta::days` panics where the days exceed `i64::MAX / 1000`
/// seconds, the bound of a `TimeDelta`.
#[verifier::external_body]
fn add_days_naive(year: i32, month: u32, day: u32, days: i64) -> (r: Option<(i32, u32, u32)>)
    requires
        is_calendar_date(year as int, month as int, day as int),
        -(MAX_DELTA_DAYS as int) <= days <= MAX_DELTA_DAYS,
    ensures
        match r {
            Some(t) => date_plus_days(year as int, month as int, day as int, days as int) == Some(
                (t.0 as int, t.1 as int, t.2 as int),
            ) && is_calendar_date(t.0 as int, t.1 as int, t.2 as int),
            None => date_plus_days(year as int, month as int, day as int, days as int) is None,
        },
{
    chrono::NaiveDate::from_ymd_opt(year, month, day)
        .unwrap()
        .checked_add_signed(chrono::TimeDelta::days(days))
        .map(|d| (d.year(), d.month(), d.day()))
}

impl Date {
    #[verifier::type_invariant]
    closed spec fn in_calendar(self) -> bool {
        is_calendar_date(self.year as int, self.month as int, self.day as int)
    }

    /// The date with the given year, month and day, if it exists.
    pub fn from_ymd_opt(year: i32, month: u32, day: u32) -> (r: Option<Date>)
        ensures
            r is Some <==> is_calendar_date(year as int, month as int, day as int),
            r matches Some(d) ==> d@ == (year as int, month as int, day as int),
    {
        if naive_date_exists(year, month, day) {
            Some(Date { year, month, day })
        } else {
            None
        }
    }

    pub fn year(&self) -> (r: i32)
        ensures
            r as int == self@.0,
    {
        self.year
    }

    pub fn month(&self) -> (r: u32)
        ensures
            r as int == self@.1,
    {
        self.month
    }

    pub fn day(&self) -> (r: u32)
        ensures
            r as int == self@.2,
    {
        self.day
    }

    /// The `%Y-%m-%d` text of the date.
    pub fn to_iso_string(&self) -> (r: String)
        ensures
            r@ == date_text(self@),
            0 <= self@.0 <= 9999 ==> r@ == padded_digits(self@.0, 4) + seq!['-'] + padded_digits(
                self@.1,
                2,
            ) + seq!['-'] + padded_digits(self@.2, 2),
    {
        proof {
            use_type_invariant(self);
        }
        format_iso_date(self.year, self.month, self.day)
    }

    /// The English name of the date's weekday.
    pub fn weekday_name(&self) -> (r: String)
        ensures
            r@ == weekday_name_of(self@.0, self@.1, self@.2),
    {
        proof {
            use_type_invariant(self);
        }
        format_weekday(self.year, self.month, self.day)
    }

    /// Parses `%Y-%m-%d` text as chrono does.
    pub fn parse_iso(text: &str) -> (r: Option<Date>)
        ensures
            r is Some <==> parsed_iso_date(text@) is Some,
            r matches Some(d) ==> parsed_iso_date(text@) == Some(d@),
    {
        match parse_naive_date(text) {
            Some(t) => Some(Date { year: t.0, month: t.1, day: t.2 }),
            None => None,
        }
    }

    /// The date `days` days later (earlier if negative), if within range.
    pub fn checked_add_days(&self, days: i64) -> (r: Option<Date>)
        requires
            -(MAX_DELTA_DAYS as int) <= days <= MAX_DELTA_DAYS,
        ensures
            r is Some <==> date_plus_days(self@.0, self@.1, self@.2, days as int) is Some,
            r matches Some(d) ==> date_plus_days(self@.0, self@.1, self@.2, days as int) == Some(
                d@,
            ),
    {
        proof {
            use_type_invariant(self);
        }
        match add_days_naive(self.year, self.month, self.day, days) {
            Some(t) => Some(Date { year: t.0, month: t.1, day: t.2 }),
            None => None,
        }
    }
}

} // verus!

verus! {

/// Nanoseconds in a second.
pub const NANOS_PER_SEC: i64 = 1_000_000_000;

/// Seconds in a day.
pub const SECS_PER_DAY: i64 = 86_400;

/// A bound on the Unix timestamps of chrono's date-times: chrono's dates lie
/// within the years -262143 to 262142, less than 10^13 seconds from 1970.
pub const TIMESTAMP_BOUND: i64 = 10_000_000_000_000;

/// What the logic reads of a local date-time.
pub struct LocalTimeView {
    /// Whole seconds since 1970-01-01T00:00:00Z.
    pub timestamp: int,
    /// Nanoseconds past `timestamp`.
    pub nanosecond: int,
    /// The local calendar date.
    pub date: (int, int, int),
    /// The local hour.
    pub hour: int,
    /// The local minute.
    pub minute: int,
    /// The local second.
    pub second: int,
    /// The local offset: seconds east of UTC.
    pub offset: int,
}

impl LocalTimeView {
    /// The fields are within their ranges, the time is no leap second, and
    /// the local date and time of day are those of the instant at the offset.
    pub open spec fn wf(self) -> bool {
        &&& -TIMESTAMP_BOUND <= self.timestamp <= TIMESTAMP_BOUND
        &&& 0 <= self.nanosecond < NANOS_PER_SEC
        &&& 0 <= self.hour < 24
        &&& 0 <= self.minute < 60
        &&& 0 <= self.second < 60
        &&& -SECS_PER_DAY < self.offset < SECS_PER_DAY
        &&& self.local_reading_ok()
    }

    /// The local date is day number `(timestamp + offset) / 86400` and the
    /// time of day the rest of that division.
    pub open spec fn local_reading_ok(self) -> bool {
        let local = self.timestamp + self.offset;
        &&& day_number(self.date.0, self.date.1, self.date.2) == local / SECS_PER_DAY as int
        &&& self.hour * 3600 + self.minute * 60 + self.second == local % SECS_PER_DAY as int
    }

    /// The time as nanoseconds since 1970-01-01T00:00:00Z.
    pub open spec fn instant(self) -> int {
        self.timestamp * NANOS_PER_SEC + self.nanosecond
    }
}

/// The last second of chrono's range of date-times: 262142-12-31T23:59:59Z.
pub const LATEST_TIMESTAMP: i64 = 8_210_266_876_799;

/// The first second of chrono's range of date-times: -262143-01-01T00:00:00Z.
pub const EARLIEST_TIMESTAMP: i64 = -8_334_601_228_800;

/// The latest timestamp whose local reading, at any offset chrono allows
/// (less than a day), still lies in chrono's range: one day before its end.
pub const SAFE_TIMESTAMP: i64 = 8_210_266_790_399;

/// The earliest such timestamp: one day after the start of chrono's range.
pub const SAFE_TIMESTAMP_MIN: i64 = -8_334_601_142_400;

/// A point in time together with its reading on the local wall clock and the
/// local offset, as a `chrono::DateTime<Local>` presents them.
#[derive(Clone, Copy, Debug)]
pub struct LocalTime {
    utc: chrono::NaiveDateTime,
    timestamp: i64,
    nanosecond: u32,
    date: Date,
    hour: u32,
    minute: u32,
    second: u32,
    offset: i32,
}

impl View for LocalTime {
    type V = LocalTimeView;

    closed spec fn view(&self) -> LocalTimeView {
        LocalTimeView {
            timestamp: self.timestamp as int,
            nanosecond: self.nanosecond as int,
            date: self.date@,
            hour: self.hour as int,
            minute: self.minute as int,
            second: self.second as int,
            offset: self.offset as int,
        }
    }
}

impl LocalTime {
    /// Whole seconds since 1970-01-01T00:00:00Z.
    pub fn timestamp(&self) -> (r: i64)
        ensures
            r == self@.timestamp,
    {
        self.timestamp
    }

    /// Nanoseconds past the whole second.
    pub fn nanosecond(&self) -> (r: u32)
        ensures
            r == self@.nanosecond,
    {
        self.nanosecond
    }

    /// The local calendar date.
    pub fn date(&self) -> (r: Date)
        ensures
            r@ == self@.date,
    {
        self.date
    }

    /// The local hour.
    pub fn hour(&self) -> (r: u32)
        ensures
            r == self@.hour,
    {
        self.hour
    }

    /// The local minute.
    pub fn minute(&self) -> (r: u32)
        ensures
            r == self@.minute,
    {
        self.minute
    }

    /// The local second.
    pub fn second(&self) -> (r: u32)
        ensures
            r == self@.second,
    {
        self.second
    }

    /// The local offset, in seconds east of UTC.
    pub fn offset(&self) -> (r: i32)
        ensures
            r == self@.offset,
    {
        self.offset
    }

    /// Whether `self` comes strictly before `other`.
    pub fn is_before(&self, other: &LocalTime) -> (r: bool)
        requires
            self@.wf(),
            other@.wf(),
        ensures
            r == (self@.instant() < other@.instant()),
    {
        self.timestamp < other.timestamp || (self.timestamp == other.timestamp && self.nanosecond
            < other.nanosecond)
    }

    /// Whole milliseconds from `self` to a later time `other`
    /// (`(other - self).num_milliseconds()`).
    pub fn millis_until(&self, other: &LocalTime) -> (r: i64)
        requires
            self@.wf(),
            other@.wf(),
            self@.instant() <= other@.instant(),
        ensures
            r as int == (other@.instant() - self@.instant()) / 1_000_000,
    {
        let secs = other.timestamp - self.timestamp;
        let nanos = other.nanosecond as i64 - self.nanosecond as i64;
        let ghost total = other@.instant() - self@.instant();
        assert(total == secs * NANOS_PER_SEC + nanos);
        if nanos >= 0 {
            assert(total / 1_000_000 == secs * 1000 + nanos / 1_000_000) by (nonlinear_arith)
                requires
                    total == secs * 1_000_000_000 + nanos,
                    0 <= nanos < 1_000_000_000,
            ;
            secs * 1000 + nanos / 1_000_000
        } else {
            assert(secs >= 1) by (nonlinear_arith)
                requires
                    total == secs * 1_000_000_000 + nanos,
                    -1_000_000_000 < nanos < 0,
                    total >= 0,
            ;
            let borrowed = nanos + NANOS_PER_SEC;
            assert(total / 1_000_000 == (secs - 1) * 1000 + borrowed / 1_000_000)
                by (nonlinear_arith)
                requires
                    total == (secs - 1) * 1_000_000_000 + borrowed,
                    0 <= borrowed < 1_000_000_000,
            ;
            (secs - 1) * 1000 + borrowed / 1_000_000
        }
    }
}

/// `chrono::Local::now()`: the current time. chrono panics if the system
/// clock reads before 1970; otherwise the time is within its range and its
/// nanoseconds come from `SystemTime`, below one second.
#[verifier::external_body]
fn local_now() -> (r: LocalTime)
    ensures
        r@.wf(),
        r@.timestamp >= 0,
{
    let dt = chrono::Local::now();
    LocalTime {
        utc: dt.naive_utc(),
        timestamp: dt.timestamp(),
        nanosecond: dt.timestamp_subsec_nanos(),
        date: Date { year: dt.year(), month: dt.month(), day: dt.day() },
        hour: dt.hour(),
        minute: dt.minute(),
        second: dt.second(),
        offset: dt.offset().local_minus_utc(),
    }
}

/// `DateTime<Local>::with_hour`: the same local date and wall-clock reading
/// with the hour replaced. `None` for an hour above 23, and where the local
/// time does not exist or is ambiguous (which depends on the time zone).
/// Both times lie on one local date and chrono's offsets are below a day,
/// so they are less than three days apart.
#[verifier::external_body]
fn local_with_hour(t: &LocalTime, hour: u32) -> (r: Option<LocalTime>)
    requires
        t@.wf(),
    ensures
        hour >= 24 ==> r is None,
        r matches Some(u) ==> u@.wf() && u@.date == t@.date && u@.hour == hour && u@.minute
            == t@.minute && u@.second == t@.second && u@.nanosecond == t@.nanosecond && t@.timestamp - 3 * SECS_PER_DAY
            <= u@.timestamp <= t@.timestamp + 3 * SECS_PER_DAY,
{
    let offset = chrono::FixedOffset::east_opt(t.offset).unwrap();
    let local = chrono::DateTime::<chrono::Local>::from_naive_utc_and_offset(t.utc, offset);
    local.with_hour(hour).map(|dt| LocalTime {
        utc: dt.naive_utc(),
        timestamp: dt.timestamp(),
        nanosecond: dt.timestamp_subsec_nanos(),
        date: Date { year: dt.year(), month: dt.month(), day: dt.day() },
        hour: dt.hour(),
        minute: dt.minute(),
        second: dt.second(),
        offset: dt.offset().local_minus_utc(),
    })
}

/// `DateTime<Local>::with_minute`: the same local date and wall-clock reading
/// with the minute replaced. `None` for a minute above 59, and where the
/// local time does not exist or is ambiguous (which depends on the time zone).
/// Both times lie on one local date and chrono's offsets are below a day,
/// so they are less than three days apart.
#[verifier::external_body]
fn local_with_minute(t: &LocalTime, minute: u32) -> (r: Option<LocalTime>)
    requires
        t@.wf(),
    ensures
        minute >= 60 ==> r is None,
        r matches Some(u) ==> u@.wf() && u@.date == t@.date && u@.hour == t@.hour && u@.minute
            == minute && u@.second == t@.second && u@.nanosecond == t@.nanosecond && t@.timestamp - 3 * SECS_PER_DAY
            <= u@.timestamp <= t@.timestamp + 3 * SECS_PER_DAY,
{
    let offset = chrono::FixedOffset::east_opt(t.offset).unwrap();
    let local = chrono::DateTime::<chrono::Local>::from_naive_utc_and_offset(t.utc, offset);
    local.with_minute(minute).map(|dt| LocalTime {
        utc: dt.naive_utc(),
        timestamp: dt.timestamp(),
        nanosecond: dt.timestamp_subsec_nanos(),
        date: Date { year: dt.year(), month: dt.month(), day: dt.day() },
        hour: dt.hour(),
        minute: dt.minute(),
        second: dt.second(),
        offset: dt.offset().local_minus_utc(),
    })
}

/// `DateTime<Local>::with_second`: the same local date and wall-clock reading
/// with the second replaced. `None` for a second above 59, and where the
/// local time does not exist or is ambiguous (which depends on the time zone).
/// Both times lie on one local date and chrono's offsets are below a day,
/// so they are less than three days apart.
#[verifier::external_body]
fn local_with_second(t: &LocalTime, second: u32) -> (r: Option<LocalTime>)
    requires
        t@.wf(),
    ensures
        second >= 60 ==> r is None,
        r matches Some(u) ==> u@.wf() && u@.date == t@.date && u@.hour == t@.hour && u@.minute
            == t@.minute && u@.second == second && u@.nanosecond == t@.nanosecond && t@.timestamp
            - 3 * SECS_PER_DAY <= u@.timestamp <= t@.timestamp + 3 * SECS_PER_DAY,
{
    let offset = chrono::FixedOffset::east_opt(t.offset).unwrap();
    let local = chrono::DateTime::<chrono::Local>::from_naive_utc_and_offset(t.utc, offset);
    local.with_second(second).map(|dt| LocalTime {
        utc: dt.naive_utc(),
        timestamp: dt.timestamp(),
        nanosecond: dt.timestamp_subsec_nanos(),
        date: Date { year: dt.year(), month: dt.month(), day: dt.day() },
        hour: dt.hour(),
        minute: dt.minute(),
        second: dt.second(),
        offset: dt.offset().local_minus_utc(),
    })
}

/// `DateTime<Local>::with_nanosecond(0)`: the same local date and wall-clock
/// reading at the start of its second. `None` where that local time does not
/// exist or is ambiguous (which depends on the time zone). Both times lie on
/// one local date and chrono's offsets are below a day, so they are less than
/// three days apart.
#[verifier::external_body]
fn local_at_whole_second(t: &LocalTime) -> (r: Option<LocalTime>)
    requires
        t@.wf(),
    ensures
        r matches Some(u) ==> u@.wf() && u@.date == t@.date && u@.hour == t@.hour && u@.minute
            == t@.minute && u@.second == t@.second && u@.nanosecond == 0 && t@.timestamp - 3
            * SECS_PER_DAY <= u@.timestamp <= t@.timestamp + 3 * SECS_PER_DAY,
{
    let offset = chrono::FixedOffset::east_opt(t.offset).unwrap();
    let local = chrono::DateTime::<chrono::Local>::from_naive_utc_and_offset(t.utc, offset);
    local.with_nanosecond(0).map(|dt| LocalTime {
        utc: dt.naive_utc(),
        timestamp: dt.timestamp(),
        nanosecond: dt.timestamp_subsec_nanos(),
        date: Date { year: dt.year(), month: dt.month(), day: dt.day() },
        hour: dt.hour(),
        minute: dt.minute(),
        second: dt.second(),
        offset: dt.offset().local_minus_utc(),
    })
}

/// `DateTime<Local>::checked_add_signed(TimeDelta::seconds(secs))`: the time
/// `secs` seconds later. chrono returns `None` only where the UTC time leaves
/// its range; `requires` keeps the result a day inside it, so that its local
/// reading (offsets are below a day) is a date chrono holds.
/// `TimeDelta::seconds` panics beyond `i64::MAX / 1000` seconds.
#[verifier::external_body]
fn local_plus_seconds(t: &LocalTime, secs: i64) -> (r: Option<LocalTime>)
    requires
        t@.wf(),
        -(i64::MAX / 1000) <= secs <= i64::MAX / 1000,
        SAFE_TIMESTAMP_MIN <= t@.timestamp + secs <= SAFE_TIMESTAMP,
    ensures
        r matches Some(u) ==> u@.wf() && u@.timestamp == t@.timestamp + secs && u@.nanosecond
            == t@.nanosecond,
        r is Some,
{
    let offset = chrono::FixedOffset::east_opt(t.offset).unwrap();
    let local = chrono::DateTime::<chrono::Local>::from_naive_utc_and_offset(t.utc, offset);
    local.checked_add_signed(chrono::TimeDelta::seconds(secs)).map(|dt| LocalTime {
        utc: dt.naive_utc(),
        timestamp: dt.timestamp(),
        nanosecond: dt.timestamp_subsec_nanos(),
        date: Date { year: dt.year(), month: dt.month(), day: dt.day() },
        hour: dt.hour(),
        minute: dt.minute(),
        second: dt.second(),
        offset: dt.offset().local_minus_utc(),
    })
}

/// `DateTime<FixedOffset>::to_rfc3339` of the instant `timestamp` seconds and
/// `nanosecond` nanoseconds after 1970-01-01T00:00:00Z, seen at the offset
/// `offset` (seconds east of UTC).
pub uninterp spec fn rfc3339_text(timestamp: int, nanosecond: int, offset: int) -> Seq<char>;

/// `DateTime::to_rfc3339` of the time at its stored local offset (the
/// offset a `DateTime<Local>` carries). chrono writes the local date and
/// time first: for years 0 to 9999 the year in four digits, month and day in
/// two, `T`, hour and minute in two, each followed by `-`, `-`, `T`, `:`,
/// `:`; then the seconds, any fraction, and the offset. The local date, hour
/// and minute of a `LocalTime` are those of the same instant at the same
/// offset, since each `LocalTime` is read off one chrono date-time.
#[verifier::external_body]
fn local_rfc3339(t: &LocalTime) -> (r: String)
    requires
        -SECS_PER_DAY < t@.offset < SECS_PER_DAY,
    ensures
        r@ == rfc3339_text(t@.timestamp, t@.nanosecond, t@.offset),
        0 <= t@.date.0 <= 9999 ==> r@.len() >= 17 && r@.subrange(0, 17) == rfc3339_prefix(t@),
{
    chrono::FixedOffset::east_opt(t.offset).unwrap().from_utc_datetime(&t.utc).to_rfc3339()
}

/// The first characters chrono writes of a time in RFC 3339 form, for years
/// 0 to 9999: `YYYY-MM-DDTHH:MM:`.
pub open spec fn rfc3339_prefix(t: LocalTimeView) -> Seq<char> {
    padded_digits(t.date.0, 4) + seq!['-'] + padded_digits(t.date.1, 2) + seq!['-']
        + padded_digits(t.date.2, 2) + seq!['T'] + padded_digits(t.hour, 2) + seq![':']
        + padded_digits(t.minute, 2) + seq![':']
}

impl LocalTime {
    /// The fields are those of one chrono date-time: every `LocalTime` is
    /// built by a wrapper in this file from one `DateTime<Local>`, which
    /// sets `utc` to its UTC reading and the other fields to its timestamp,
    /// nanoseconds, offset and local reading. The wrappers that read `utc`
    /// rely on that; only the viewed fields are checked here.
    #[verifier::type_invariant]
    closed spec fn consistent(self) -> bool {
        self@.wf()
    }

    /// The time in RFC 3339 form, with its local offset.
    pub fn to_rfc3339(&self) -> (r: String)
        ensures
            r@ == rfc3339_text(self@.timestamp, self@.nanosecond, self@.offset),
            0 <= self@.date.0 <= 9999 ==> r@.len() >= 17 && r@.subrange(0, 17) == rfc3339_prefix(
                self@,
            ),
    {
        proof {
            use_type_invariant(self);
        }
        local_rfc3339(self)
    }

    /// The current local time.
    pub fn now() -> (r: LocalTime)
        ensures
            r@.wf(),
    {
        local_now()
    }

    /// The same local date and minute with the hour replaced, where that
    /// local time exists.
    pub fn with_hour(&self, hour: u32) -> (r: Option<LocalTime>)
        requires
            self@.wf(),
        ensures
            hour >= 24 ==> r is None,
            r matches Some(u) ==> u@.wf() && u@.date == self@.date && u@.hour == hour && u@.minute
                == self@.minute && u@.second == self@.second && u@.nanosecond == self@.nanosecond && self@.timestamp - 3
                * SECS_PER_DAY <= u@.timestamp <= self@.timestamp + 3 * SECS_PER_DAY,
    {
        local_with_hour(self, hour)
    }

    /// The same local date and hour with the minute replaced, where that
    /// local time exists.
    pub fn with_minute(&self, minute: u32) -> (r: Option<LocalTime>)
        requires
            self@.wf(),
        ensures
            minute >= 60 ==> r is None,
            r matches Some(u) ==> u@.wf() && u@.date == self@.date && u@.hour == self@.hour
                && u@.minute == minute && u@.second == self@.second && u@.nanosecond == self@.nanosecond && self@.timestamp - 3
                * SECS_PER_DAY <= u@.timestamp <= self@.timestamp + 3 * SECS_PER_DAY,
    {
        local_with_minute(self, minute)
    }

    /// The same local date, hour and minute with the second replaced, where
    /// that local time exists.
    pub fn with_second(&self, second: u32) -> (r: Option<LocalTime>)
        requires
            self@.wf(),
        ensures
            second >= 60 ==> r is None,
            r matches Some(u) ==> u@.wf() && u@.date == self@.date && u@.hour == self@.hour
                && u@.minute == self@.minute && u@.second == second && u@.nanosecond
                == self@.nanosecond && self@.timestamp - 3 * SECS_PER_DAY <= u@.timestamp
                <= self@.timestamp + 3 * SECS_PER_DAY,
    {
        local_with_second(self, second)
    }

    /// The same local reading at the start of its second
    /// (`with_nanosecond(0)`), where that local time exists.
    pub fn at_whole_second(&self) -> (r: Option<LocalTime>)
        requires
            self@.wf(),
        ensures
            r matches Some(u) ==> u@.wf() && u@.date == self@.date && u@.hour == self@.hour
                && u@.minute == self@.minute && u@.second == self@.second && u@.nanosecond == 0
                && self@.timestamp - 3 * SECS_PER_DAY <= u@.timestamp <= self@.timestamp + 3
                * SECS_PER_DAY,
    {
        local_at_whole_second(self)
    }

    /// The time `secs` seconds later (earlier if negative). The result must
    /// lie a day inside chrono's range, where its local reading is a date
    /// chrono holds.
    pub fn checked_add_seconds(&self, secs: i64) -> (r: Option<LocalTime>)
        requires
            self@.wf(),
            -(i64::MAX / 1000) <= secs <= i64::MAX / 1000,
            SAFE_TIMESTAMP_MIN <= self@.timestamp + secs <= SAFE_TIMESTAMP,
        ensures
            r matches Some(u) ==> u@.wf() && u@.instant() == self@.instant() + secs * NANOS_PER_SEC,
            r is Some,
    {
        local_plus_seconds(self, secs)
    }
}

} // verus!
