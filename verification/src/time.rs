//! Instants, Beijing wall-clock values and spans of time.
//!
//! An instant is a Unix timestamp; the Beijing (`Asia/Shanghai`) calendar
//! date and wall-clock time of an instant, and the instant of a Beijing
//! wall-clock value, come from `chrono` and `chrono-tz`.

use chrono::{DateTime, Datelike, NaiveDate, NaiveTime, TimeZone, Timelike, Utc};
use chrono_tz::Asia::Shanghai;
use vstd::prelude::*;

verus! {

/// An instant, as whole seconds since 1970-01-01T00:00:00Z and the
/// nanoseconds past that second.
#[derive(Clone, Copy, Debug, PartialEq, Eq, Structural)]
pub struct UtcTime {
    pub secs: i64,
    pub nanos: u32,
}

/// A day of the proleptic Gregorian calendar.
#[derive(Clone, Copy, Debug, PartialEq, Eq, Structural)]
pub struct LocalDate {
    pub year: i32,
    pub month: u32,
    pub day: u32,
}

/// A wall-clock time of day.
#[derive(Clone, Copy, Debug, PartialEq, Eq, Structural)]
pub struct LocalTime {
    pub hour: u32,
    pub minute: u32,
    pub second: u32,
    pub nanosecond: u32,
}

/// A calendar date together with a wall-clock time on it.
#[derive(Clone, Copy, Debug, PartialEq, Eq, Structural)]
pub struct LocalDateTime {
    pub date: LocalDate,
    pub time: LocalTime,
}

/// The instant as a number of nanoseconds since the Unix epoch.
pub open spec fn utc_nanos(t: UtcTime) -> int {
    t.secs * 1_000_000_000 + t.nanos
}

/// The Beijing date and wall-clock time of the instant `secs` seconds and
/// `nanos` nanoseconds after the Unix epoch, as `chrono-tz` computes it for
/// `Asia/Shanghai`; nothing when `chrono` cannot represent the instant.
pub uninterp spec fn beijing_wall_clock(secs: i64, nanos: u32) -> Option<LocalDateTime>;

/// The instant at which Beijing wall clocks show `local`, as `chrono-tz`
/// computes it for `Asia/Shanghai`; nothing when `local` is not a valid
/// date and time or names no single instant.
pub uninterp spec fn beijing_instant(local: LocalDateTime) -> Option<UtcTime>;

/// The Beijing wall clock at instant `t`.
pub open spec fn wall_clock(t: UtcTime) -> Option<LocalDateTime> {
    beijing_wall_clock(t.secs, t.nanos)
}

/// The number of days from 1 March of year 0 to 1 March of year `y`.
pub open spec fn march_year_start(y: int) -> int {
    let era = y / 400;
    let year_of_era = y - era * 400;
    era * 146_097 + year_of_era * 365 + year_of_era / 4 - year_of_era / 100
}

/// The day of a year that begins on 1 March, counted from 0.
pub open spec fn march_day_of_year(month: int, day: int) -> int {
    let shifted_month = if month > 2 {
        month - 3
    } else {
        month + 9
    };
    (153 * shifted_month + 2) / 5 + day - 1
}

/// The number of days from 1970-01-01 to the given day of the proleptic
/// Gregorian calendar.
#[verifier::opaque]
pub open spec fn days_from_civil(year: int, month: int, day: int) -> int {
    let y = if month <= 2 {
        year - 1
    } else {
        year
    };
    march_year_start(y) + march_day_of_year(month, day) - 719_468
}

proof fn lemma_march_years(y: int)
    ensures
        march_year_start(y) - march_year_start(y - 1) == if is_leap_year(y) {
            366int
        } else {
            365int
        },
{
    let e = (y - 1) / 400;
    let a = (y - 1) - e * 400;
    assert(0 <= a < 400);
    if a < 399 {
        assert(y / 400 == e);
        assert(y % 4 == 0 <==> (a + 1) % 4 == 0);
        assert(y % 100 == 0 <==> (a + 1) % 100 == 0);
        assert(y % 400 != 0);
        assert((a + 1) / 4 - a / 4 == if (a + 1) % 4 == 0 { 1int } else { 0int });
        assert((a + 1) / 100 - a / 100 == if (a + 1) % 100 == 0 { 1int } else { 0int });
    } else {
        assert(y / 400 == e + 1);
        assert(y % 400 == 0);
    }
}

/// The day before a date is one day earlier in the count of days.
pub proof fn lemma_previous_day_is_one_day_earlier(d: LocalDate)
    requires
        previous_date(d) is Some,
    ensures
        days_from_civil(
            previous_date(d)->0.year as int,
            previous_date(d)->0.month as int,
            previous_date(d)->0.day as int,
        ) + 1 == days_from_civil(d.year as int, d.month as int, d.day as int),
{
    reveal(days_from_civil);
    if d.day == 1 && d.month == 3 {
        lemma_march_years(d.year as int);
    }
}

/// The last day that `chrono` represents comes long after the far future.
pub proof fn lemma_last_day_is_far_away()
    ensures
        days_from_civil(max_year(), 12, 31) > 95_000_000,
{
    reveal(days_from_civil);
}

/// The first day that `chrono` represents comes long before 1970.
pub proof fn lemma_first_day_is_long_ago()
    ensures
        days_from_civil(min_year(), 1, 1) < -95_000_000,
{
    reveal(days_from_civil);
}

/// A wall-clock value with a representable date and a time of day that is
/// not a leap second.
pub open spec fn plain_wall_clock(l: LocalDateTime) -> bool {
    &&& valid_date(l.date)
    &&& l.time.hour < 24 && l.time.minute < 60 && l.time.second < 60
    &&& l.time.nanosecond < 1_000_000_000
}

/// The whole seconds of a wall-clock value, counted from 1970-01-01 00:00
/// on the same clock.
pub open spec fn local_seconds(l: LocalDateTime) -> int {
    days_from_civil(l.date.year as int, l.date.month as int, l.date.day as int) * 86_400
        + l.time.hour * 3_600 + l.time.minute * 60 + l.time.second
}

/// The instant (1991-09-14T17:00:00Z) from which `Asia/Shanghai` keeps
/// UTC+8 with no daylight saving time in the time-zone data of `chrono-tz`.
pub open spec fn last_shanghai_change() -> int {
    684_867_600
}

/// The offset of Beijing time from UTC, in seconds, since that instant.
pub open spec fn beijing_offset() -> int {
    28_800
}

/// Whether Beijing wall clocks show `l` at instant `t` by an offset of
/// eight hours: `l` reads eight hours later than UTC at `t`.
pub open spec fn eight_hours_ahead(l: LocalDateTime, t: UtcTime) -> bool {
    &&& plain_wall_clock(l)
    &&& local_seconds(l) == t.secs + beijing_offset()
    &&& l.time.nanosecond == t.nanos
}

/// An instant from the last change of the time-zone data on, short of the
/// far future and not inside a leap second.
pub open spec fn after_last_change(t: UtcTime) -> bool {
    last_shanghai_change() <= t.secs <= far_future() && t.nanos < 1_000_000_000
}

/// Whether exactly one instant shows `l` on Beijing wall clocks: `l` was
/// neither skipped nor shown twice.
pub open spec fn shown_once(l: LocalDateTime) -> bool {
    exists|u: UtcTime|
        #[trigger] wall_clock(u) == Some(l) && forall|v: UtcTime|
            #[trigger] wall_clock(v) == Some(l) ==> v == u
}

/// A wall-clock value in the hour that Beijing clocks showed twice at the
/// last change, from 01:00 to 02:00 on 1991-09-15.
pub open spec fn in_repeated_hour(l: LocalDateTime) -> bool {
    &&& plain_wall_clock(l)
    &&& last_shanghai_change() + beijing_offset() <= local_seconds(l)
    &&& local_seconds(l) < last_shanghai_change() + 3_600 + beijing_offset()
}

/// A wall-clock value after that hour.
pub open spec fn after_repeated_hour(l: LocalDateTime) -> bool {
    &&& plain_wall_clock(l)
    &&& last_shanghai_change() + 3_600 + beijing_offset() <= local_seconds(l)
}

/// The largest timestamp for which the facts below are stated, far inside
/// the range of `chrono` (about the year 255,000).
pub open spec fn far_future() -> int {
    8_000_000_000_000
}

/// Calls `DateTime::<Utc>::from_timestamp` and `DateTime::with_timezone`
/// with `chrono_tz::Asia::Shanghai`, and reads the local date and time of
/// the result. The contract names the result only: which instants `chrono`
/// represents, and the offsets before the last change of the time-zone
/// data, are left unsaid. From that change on the data gives `Asia/Shanghai`
/// one fixed offset of eight hours, which the contract states: the wall
/// clock of such an instant (short of the far future, and not in a leap
/// second) reads eight hours later than UTC.
#[verifier::external_body]
fn shanghai_wall_clock(t: UtcTime) -> (r: Option<LocalDateTime>)
    ensures
        r == beijing_wall_clock(t.secs, t.nanos),
        after_last_change(t) ==> r is Some,
        r matches Some(l) ==> (after_last_change(t) ==> eight_hours_ahead(l, t)),
{
    let local = DateTime::from_timestamp(t.secs, t.nanos)?.with_timezone(&Shanghai);
    let date = LocalDate { year: local.year(), month: local.month(), day: local.day() };
    let (hour, minute, second) = (local.hour(), local.minute(), local.second());
    Some(LocalDateTime { date, time: LocalTime { hour, minute, second, nanosecond: local.nanosecond() } })
}

/// Calls `TimeZone::from_local_datetime` of `chrono_tz::Asia::Shanghai` on
/// the date and time that `NaiveDate::from_ymd_opt` and
/// `NaiveTime::from_hms_nano_opt` build from `local`, keeps the result only
/// when it is `single()`, and reads its Unix timestamp. Besides naming the
/// result, the contract states that such an instant shows `local` on a
/// Beijing wall clock again (for times that are not a leap second) and that
/// no other instant does, which is what a single local result means; and
/// that when there is none, `local` is shown by no instant or by more than
/// one (a gap or an overlap in the offsets). Of the time-zone data it states the
/// last change: the wall-clock hour from 01:00 on 1991-09-15, which Beijing
/// clocks showed twice, names no single instant, and every later wall-clock
/// value is eight hours ahead of its instant. Which earlier values fell in
/// the gaps and overlaps of daylight saving time is left unsaid.
#[verifier::external_body]
fn shanghai_instant(local: LocalDateTime) -> (r: Option<UtcTime>)
    ensures
        r == beijing_instant(local),
        r matches Some(u) ==> (local.time.nanosecond < 1_000_000_000 ==> wall_clock(u) == Some(local)),
        r matches Some(u) ==> (forall|v: UtcTime| #[trigger] wall_clock(v) == Some(local) ==> v == u),
        r is None ==> (plain_wall_clock(local) ==> !shown_once(local)),
        in_repeated_hour(local) ==> r is None,
        after_repeated_hour(local) ==> r is Some,
        r matches Some(u) ==> (after_repeated_hour(local) ==> eight_hours_ahead(local, u)),
{
    let date = NaiveDate::from_ymd_opt(local.date.year, local.date.month, local.date.day)?;
    let (t, nanos) = (local.time, local.time.nanosecond);
    let time = NaiveTime::from_hms_nano_opt(t.hour, t.minute, t.second, nanos)?;
    let utc = Shanghai.from_local_datetime(&date.and_time(time)).single()?.with_timezone(&Utc);
    Some(UtcTime { secs: utc.timestamp(), nanos: utc.timestamp_subsec_nanos() })
}

/// The wall clock of `t` in Beijing: from 1991-09-14T17:00:00Z on, eight
/// hours ahead of UTC.
pub fn beijing_wall_clock_at(t: UtcTime) -> (r: Option<LocalDateTime>)
    ensures
        r == wall_clock(t),
        after_last_change(t) ==> r is Some,
        r matches Some(l) ==> (after_last_change(t) ==> eight_hours_ahead(l, t)),
{
    shanghai_wall_clock(t)
}

/// The instant at which Beijing wall clocks show `time` on `date`; nothing
/// when that wall-clock value is invalid or does not name a single instant,
/// as in the hour that Beijing clocks showed twice on 1991-09-15. From then
/// on it is the wall-clock value less eight hours.
pub fn beijing_local_to_utc(date: LocalDate, time: LocalTime) -> (r: Option<UtcTime>)
    ensures
        r == beijing_instant(LocalDateTime { date, time }),
        plain_wall_clock(LocalDateTime { date, time }) ==> (r is Some <==> shown_once(
            LocalDateTime { date, time },
        )),
        r matches Some(u) ==> (time.nanosecond < 1_000_000_000 ==> wall_clock(u) == Some(
            LocalDateTime { date, time },
        )),
        in_repeated_hour(LocalDateTime { date, time }) ==> r is None,
        after_repeated_hour(LocalDateTime { date, time }) ==> (r matches Some(u) && eight_hours_ahead(
            LocalDateTime { date, time },
            u,
        )),
{
    shanghai_instant(LocalDateTime { date, time })
}

/// The earliest year of a date that `chrono` represents.
pub open spec fn min_year() -> int {
    -262143
}

/// The latest year of a date that `chrono` represents.
pub open spec fn max_year() -> int {
    262142
}

/// Gregorian leap years.
pub open spec fn is_leap_year(year: int) -> bool {
    (year % 4 == 0 && year % 100 != 0) || year % 400 == 0
}

/// The number of days in `month` of `year`.
pub open spec fn days_in_month(year: int, month: int) -> int {
    if month == 2 {
        if is_leap_year(year) {
            29
        } else {
            28
        }
    } else if month == 4 || month == 6 || month == 9 || month == 11 {
        30
    } else {
        31
    }
}

/// A date that `chrono` represents.
pub open spec fn valid_date(d: LocalDate) -> bool {
    &&& min_year() <= d.year <= max_year()
    &&& 1 <= d.month <= 12
    &&& 1 <= d.day <= days_in_month(d.year as int, d.month as int)
}

/// The calendar day after `d`.
pub open spec fn day_after(d: LocalDate) -> (int, int, int) {
    if d.day < days_in_month(d.year as int, d.month as int) {
        (d.year as int, d.month as int, d.day + 1)
    } else if d.month < 12 {
        (d.year as int, d.month + 1, 1)
    } else {
        (d.year + 1, 1, 1)
    }
}

/// The calendar day before `d`.
pub open spec fn day_before(d: LocalDate) -> (int, int, int) {
    if d.day > 1 {
        (d.year as int, d.month as int, d.day - 1)
    } else if d.month > 1 {
        (d.year as int, d.month - 1, days_in_month(d.year as int, d.month - 1))
    } else {
        (d.year - 1, 12, 31)
    }
}

/// The date with the given year, month and day.
pub open spec fn ymd(v: (int, int, int)) -> LocalDate {
    LocalDate { year: v.0 as i32, month: v.1 as u32, day: v.2 as u32 }
}

/// What `NaiveDate::succ_opt` gives: the next day, when `d` and its
/// successor are representable.
pub open spec fn next_date(d: LocalDate) -> Option<LocalDate> {
    if valid_date(d) && day_after(d).0 <= max_year() {
        Some(ymd(day_after(d)))
    } else {
        None
    }
}

/// What `NaiveDate::pred_opt` gives: the previous day, when `d` and its
/// predecessor are representable.
pub open spec fn previous_date(d: LocalDate) -> Option<LocalDate> {
    if valid_date(d) && day_before(d).0 >= min_year() {
        Some(ymd(day_before(d)))
    } else {
        None
    }
}

/// Calls `NaiveDate::from_ymd_opt` and `NaiveDate::succ_opt`, and reads the
/// year, month and day of the result: the next calendar day, when `d` is a
/// date that chrono represents and so is the day after it.
#[verifier::external_body]
fn chrono_next_day(d: LocalDate) -> (r: Option<LocalDate>)
    ensures
        r == next_date(d),
{
    let next = NaiveDate::from_ymd_opt(d.year, d.month, d.day)?.succ_opt()?;
    Some(LocalDate { year: next.year(), month: next.month(), day: next.day() })
}

/// Calls `NaiveDate::from_ymd_opt` and `NaiveDate::pred_opt`, and reads the
/// year, month and day of the result: the previous calendar day, when `d` is
/// a date that chrono represents and so is the day before it.
#[verifier::external_body]
fn chrono_previous_day(d: LocalDate) -> (r: Option<LocalDate>)
    ensures
        r == previous_date(d),
{
    let previous = NaiveDate::from_ymd_opt(d.year, d.month, d.day)?.pred_opt()?;
    Some(LocalDate { year: previous.year(), month: previous.month(), day: previous.day() })
}

/// The calendar day after `d` (`NaiveDate::succ_opt`).
pub fn succ_date(d: LocalDate) -> (r: Option<LocalDate>)
    ensures
        r == next_date(d),
{
    chrono_next_day(d)
}

/// The calendar day before `d` (`NaiveDate::pred_opt`).
pub fn pred_date(d: LocalDate) -> (r: Option<LocalDate>)
    ensures
        r == previous_date(d),
{
    chrono_previous_day(d)
}

/// Stepping a day forward and then back, or back and then forward, returns
/// to the day one started from.
pub proof fn law_day_steps_undo_each_other(d: LocalDate)
    ensures
        next_date(d) matches Some(n) ==> previous_date(n) == Some(d),
        previous_date(d) matches Some(p) ==> next_date(p) == Some(d),
{
}

/// A day's successor comes after it, and its predecessor before it.
pub proof fn law_day_steps_move_in_order(d: LocalDate)
    ensures
        next_date(d) matches Some(n) ==> date_before(d, n),
        previous_date(d) matches Some(p) ==> date_before(p, d),
{
}

/// Whether date `a` comes before date `b`.
pub open spec fn date_before(a: LocalDate, b: LocalDate) -> bool {
    ||| a.year < b.year
    ||| (a.year == b.year && a.month < b.month)
    ||| (a.year == b.year && a.month == b.month && a.day < b.day)
}

/// The largest length of a span, in milliseconds either way: that of
/// `chrono::TimeDelta`.
pub open spec fn max_span_millis() -> int {
    9_223_372_036_854_775_807
}

/// A signed length of time, with nanosecond resolution, in the range of
/// `chrono::TimeDelta`.
#[derive(Clone, Copy, Debug)]
pub struct TimeSpan {
    nanos: i128,
}

impl TimeSpan {
    #[verifier::type_invariant]
    spec fn in_range(self) -> bool {
        -max_span_millis() * 1_000_000 <= self.nanos <= max_span_millis() * 1_000_000
    }

    /// The length in nanoseconds.
    pub closed spec fn total_nanos(self) -> int {
        self.nanos as int
    }

    /// A span of `minutes` minutes (`TimeDelta::minutes`).
    pub fn minutes(minutes: i64) -> (r: TimeSpan)
        requires
            -max_span_millis() <= minutes * 60_000 <= max_span_millis(),
        ensures
            r.total_nanos() == minutes * 60_000_000_000,
    {
        TimeSpan { nanos: (minutes as i128) * 60_000_000_000 }
    }

    /// The length in nanoseconds, which lies within the range of the type.
    pub fn as_nanos(&self) -> (r: i128)
        ensures
            r == self.total_nanos(),
            -max_span_millis() * 1_000_000 <= r <= max_span_millis() * 1_000_000,
    {
        proof {
            use_type_invariant(self);
        }
        self.nanos
    }

    /// The number of whole seconds in the span, rounded toward zero.
    pub fn as_secs(&self) -> (r: i64)
        ensures
            self.total_nanos() >= 0 ==> r == self.total_nanos() / 1_000_000_000,
            self.total_nanos() < 0 ==> r == -((-self.total_nanos()) / 1_000_000_000),
    {
        proof {
            use_type_invariant(self);
        }
        if self.nanos >= 0 {
            (self.nanos / 1_000_000_000) as i64
        } else {
            -(((-self.nanos) / 1_000_000_000) as i64)
        }
    }
}

} // verus!
