//! The hourly schedule in Beijing time: runs on the hour from 08:00 to 23:00,
//! and an 08:00 catch-up run that covers the night before.

use vstd::prelude::*;

use crate::time::{
    after_last_change, beijing_instant, beijing_local_to_utc, days_from_civil, far_future,
    last_shanghai_change, lemma_previous_day_is_one_day_earlier, local_seconds, min_year,
    plain_wall_clock, eight_hours_ahead, after_repeated_hour, lemma_first_day_is_long_ago, lemma_last_day_is_far_away,
    law_day_steps_undo_each_other, max_year, beijing_wall_clock_at, date_before, next_date, pred_date,
    previous_date, succ_date, valid_date, wall_clock, LocalDate, LocalDateTime, LocalTime, UtcTime,
};

verus! {

/// The span of source activity that one run scans.
#[derive(Clone, Copy, Debug, PartialEq, Eq, Structural)]
pub struct ScanWindow {
    pub start: UtcTime,
    pub end: UtcTime,
}

/// The first scheduled hour of a Beijing day.
pub open spec fn monitor_start_hour() -> int {
    8
}

/// The last scheduled hour of a Beijing day.
pub open spec fn monitor_end_hour() -> int {
    23
}

/// `hour`:00:00 on `date`.
pub open spec fn on_the_hour(date: LocalDate, hour: int) -> LocalDateTime {
    LocalDateTime { date, time: LocalTime { hour: hour as u32, minute: 0, second: 0, nanosecond: 0 } }
}

/// The Beijing wall-clock value of the next run after `now`: 08:00 today
/// before 08:00, the next whole hour from 08:00 until 23:00, and 08:00 of the
/// next day from 23:00 on.
pub open spec fn next_run_wall_clock(now: LocalDateTime) -> Option<LocalDateTime> {
    if now.time.hour < monitor_start_hour() {
        Some(on_the_hour(now.date, monitor_start_hour()))
    } else if now.time.hour < monitor_end_hour() {
        Some(on_the_hour(now.date, now.time.hour + 1))
    } else {
        match next_date(now.date) {
            Some(next) => Some(on_the_hour(next, monitor_start_hour())),
            None => None,
        }
    }
}

/// What `next_scheduled_run` gives for `now`.
pub open spec fn next_run(now: UtcTime) -> Option<UtcTime> {
    match wall_clock(now) {
        Some(local) => match next_run_wall_clock(local) {
            Some(run) => beijing_instant(run),
            None => None,
        },
        None => None,
    }
}

/// Whether time of day `a` comes before `b`.
pub open spec fn time_before(a: LocalTime, b: LocalTime) -> bool {
    ||| a.hour < b.hour
    ||| (a.hour == b.hour && a.minute < b.minute)
    ||| (a.hour == b.hour && a.minute == b.minute && a.second < b.second)
    ||| (a.hour == b.hour && a.minute == b.minute && a.second == b.second && a.nanosecond
        < b.nanosecond)
}

/// Whether wall-clock value `a` comes before `b`.
pub open spec fn wall_clock_before(a: LocalDateTime, b: LocalDateTime) -> bool {
    date_before(a.date, b.date) || (a.date == b.date && time_before(a.time, b.time))
}

/// The Beijing wall-clock value of the next run after the Beijing wall-clock
/// value `now`.
pub fn next_run_after(now: LocalDateTime) -> (r: Option<LocalDateTime>)
    ensures
        r == next_run_wall_clock(now),
{
    let start = LocalTime { hour: 8, minute: 0, second: 0, nanosecond: 0 };
    if now.time.hour < 8 {
        return Some(LocalDateTime { date: now.date, time: start });
    }
    if now.time.hour < 23 {
        let next_hour = LocalTime { hour: now.time.hour + 1, minute: 0, second: 0, nanosecond: 0 };
        return Some(LocalDateTime { date: now.date, time: next_hour });
    }
    match succ_date(now.date) {
        Some(next_day) => Some(LocalDateTime { date: next_day, time: start }),
        None => None,
    }
}

/// The timestamp of the next run after timestamp `secs`, since Beijing time
/// keeps one offset: the next whole hour while it is before 15:00 UTC
/// (23:00 in Beijing), else the next 00:00 UTC (08:00 in Beijing).
pub open spec fn next_run_secs(secs: int) -> int {
    let time_of_day = secs % 86_400;
    if time_of_day < 15 * 3_600 {
        secs - time_of_day % 3_600 + 3_600
    } else {
        secs - time_of_day + 86_400
    }
}

/// The next scheduled run after `now_utc`.
///
/// Its Beijing wall clock shows a whole hour from 08:00 to 23:00, and it is
/// later on that clock than `now_utc`. Since Beijing time last changed, it
/// is the next whole UTC hour up to 15:00 UTC, else the next 00:00 UTC.
pub fn next_scheduled_run(now_utc: UtcTime) -> (r: Option<UtcTime>)
    ensures
        r == next_run(now_utc),
        r matches Some(run) ==> {
            &&& wall_clock(run) matches Some(at)
            &&& monitor_start_hour() <= at.time.hour <= monitor_end_hour()
            &&& at.time.minute == 0 && at.time.second == 0 && at.time.nanosecond == 0
            &&& wall_clock(now_utc) matches Some(now)
            &&& wall_clock_before(now, at)
        },
        after_last_change(now_utc) ==> r == Some(
            UtcTime { secs: next_run_secs(now_utc.secs as int) as i64, nanos: 0 },
        ),
{
    let local = match beijing_wall_clock_at(now_utc) {
        Some(local) => local,
        None => return None,
    };
    proof {
        if after_last_change(now_utc) {
            lemma_next_run_in_utc(now_utc, local);
        }
    }
    match next_run_after(local) {
        Some(run) => beijing_local_to_utc(run.date, run.time),
        None => None,
    }
}

/// The Beijing wall-clock bounds of the catch-up window of a run at `run`:
/// from 00:00 of the previous day to 08:00 of the run's day, when the run is
/// at 08:00:00 exactly.
pub open spec fn catchup_wall_clock(run: LocalDateTime) -> Option<(LocalDateTime, LocalDateTime)> {
    if run.time != (LocalTime { hour: 8, minute: 0, second: 0, nanosecond: 0 }) {
        None
    } else {
        match previous_date(run.date) {
            Some(previous) => Some((on_the_hour(previous, 0), on_the_hour(run.date, 8))),
            None => None,
        }
    }
}

/// What `catchup_window` gives for a run at `run_at`.
pub open spec fn catchup(run_at: UtcTime) -> Option<ScanWindow> {
    match wall_clock(run_at) {
        Some(local) => match catchup_wall_clock(local) {
            Some(bounds) => match (beijing_instant(bounds.0), beijing_instant(bounds.1)) {
                (Some(start), Some(end)) => Some(ScanWindow { start, end }),
                _ => None,
            },
            None => None,
        },
        None => None,
    }
}

/// The Beijing wall-clock bounds of the catch-up window of a run at the
/// Beijing wall-clock value `run`.
pub fn catchup_bounds(run: LocalDateTime) -> (r: Option<(LocalDateTime, LocalDateTime)>)
    ensures
        r == catchup_wall_clock(run),
{
    if !(run.time.hour == 8 && run.time.minute == 0 && run.time.second == 0
        && run.time.nanosecond == 0) {
        return None;
    }
    match pred_date(run.date) {
        Some(previous) => {
            let midnight = LocalTime { hour: 0, minute: 0, second: 0, nanosecond: 0 };
            Some((LocalDateTime { date: previous, time: midnight }, run))
        },
        None => None,
    }
}

/// The window that the 08:00 catch-up run scans: from 00:00 of the previous
/// Beijing day up to 08:00 of the run's day. Runs at any other time have
/// none. Since Beijing time last changed the window ends at the run itself;
/// from two days later on, a run has a window exactly when it is at
/// 00:00:00 UTC, and the window spans the 32 hours before it.
pub fn catchup_window(run_at_utc: UtcTime) -> (r: Option<ScanWindow>)
    ensures
        r == catchup(run_at_utc),
        r matches Some(w) ==> {
            &&& wall_clock(run_at_utc) matches Some(run)
            &&& previous_date(run.date) matches Some(previous)
            &&& wall_clock(w.start) == Some(on_the_hour(previous, 0))
            &&& wall_clock(w.end) == Some(on_the_hour(run.date, 8))
            &&& wall_clock_before(on_the_hour(previous, 0), on_the_hour(run.date, 8))
        },
        after_last_change(run_at_utc) ==> (r matches Some(w) ==> w.end == run_at_utc),
        settled(run_at_utc) ==> (r is Some <==> run_at_utc.secs % 86_400 == 0
            && run_at_utc.nanos == 0),
        settled(run_at_utc) ==> (r matches Some(w) ==> w.start == (UtcTime {
            secs: (run_at_utc.secs - 32 * 3_600) as i64,
            nanos: 0,
        })),
{
    let local = match beijing_wall_clock_at(run_at_utc) {
        Some(local) => local,
        None => return None,
    };
    proof {
        if settled(run_at_utc) {
            lemma_settled_run(run_at_utc, local);
        }
    }
    let (from, to) = match catchup_bounds(local) {
        Some(bounds) => bounds,
        None => return None,
    };
    let start = match beijing_local_to_utc(from.date, from.time) {
        Some(start) => start,
        None => return None,
    };
    let end = match beijing_local_to_utc(to.date, to.time) {
        Some(end) => end,
        None => return None,
    };
    Some(ScanWindow { start, end })
}

/// An instant at least two days after the last change of Beijing time, short
/// of the far future and not inside a leap second.
pub open spec fn settled(t: UtcTime) -> bool {
    &&& last_shanghai_change() + 2 * 86_400 <= t.secs <= far_future()
    &&& t.nanos < 1_000_000_000
}

proof fn lemma_next_run_in_utc(t: UtcTime, local: LocalDateTime)
    requires
        after_last_change(t),
        eight_hours_ahead(local, t),
    ensures
        next_run_wall_clock(local) matches Some(n) && after_repeated_hour(n) && local_seconds(n)
            - 8 * 3_600 == next_run_secs(t.secs as int),
{
    lemma_time_of_day(local);
    let s = t.secs as int;
    let k = s % 86_400;
    let beijing = (s + 8 * 3_600) % 86_400;
    assert(beijing == if k < 16 * 3_600 { k + 8 * 3_600 } else { k - 16 * 3_600 });
    let h = local.time.hour as int;
    assert(h * 3_600 <= beijing < h * 3_600 + 3_600);
    if h < 23 {
        assert(beijing % 3_600 == k % 3_600);
    } else {
        lemma_last_day_is_far_away();
        if next_date(local.date) is Some {
            let next = next_date(local.date)->0;
            law_day_steps_undo_each_other(local.date);
            lemma_previous_day_is_one_day_earlier(next);
        } else {
            assert(local.date == LocalDate { year: max_year() as i32, month: 12, day: 31 });
        }
    }
}

proof fn lemma_settled_run(t: UtcTime, local: LocalDateTime)
    requires
        settled(t),
        eight_hours_ahead(local, t),
    ensures
        local.time == (LocalTime { hour: 8, minute: 0, second: 0, nanosecond: 0 }) <==> (t.secs
            % 86_400 == 0 && t.nanos == 0),
        previous_date(local.date) matches Some(p) && after_repeated_hour(on_the_hour(p, 0))
            && local_seconds(on_the_hour(p, 0)) == local_seconds(local) - local.time.hour * 3_600
            - local.time.minute * 60 - local.time.second - 86_400,
        after_repeated_hour(local),
{
    lemma_time_of_day(local);
    if previous_date(local.date) is None {
        assert(local.date == LocalDate { year: min_year() as i32, month: 1, day: 1 });
        lemma_first_day_is_long_ago();
    }
    lemma_previous_day_is_one_day_earlier(local.date);
}

proof fn lemma_time_of_day(l: LocalDateTime)
    requires
        plain_wall_clock(l),
    ensures
        local_seconds(l) % 86_400 == l.time.hour * 3_600 + l.time.minute * 60 + l.time.second,
        local_seconds(l) - local_seconds(l) % 86_400 == days_from_civil(
            l.date.year as int,
            l.date.month as int,
            l.date.day as int,
        ) * 86_400,
{
    let days = days_from_civil(l.date.year as int, l.date.month as int, l.date.day as int);
    let rest = l.time.hour * 3_600 + l.time.minute * 60 + l.time.second;
    assert(0 <= rest < 86_400);
    assert((days * 86_400 + rest) % 86_400 == rest) by (nonlinear_arith)
        requires
            0 <= rest < 86_400,
    ;
}

/// A whole hour from 08:00 to 23:00 of a representable Beijing day.
pub open spec fn monitored_hour(c: LocalDateTime) -> bool {
    &&& valid_date(c.date)
    &&& monitor_start_hour() <= c.time.hour <= monitor_end_hour()
    &&& c.time.minute == 0 && c.time.second == 0 && c.time.nanosecond == 0
}

proof fn lemma_next_date_is_the_earliest_later_date(d: LocalDate, c: LocalDate)
    requires
        valid_date(c),
        date_before(d, c),
        next_date(d) is Some,
    ensures
        next_date(d)->0 == c || date_before(next_date(d)->0, c),
{
}

/// The next run is a monitored hour after `now`, and the earliest one: no
/// monitored hour lies between `now` and it on the Beijing wall clock. Only
/// on the last day that `chrono` represents, from 23:00, is there none.
pub proof fn law_next_run_is_the_earliest_monitored_hour(now: LocalDateTime, c: LocalDateTime)
    requires
        valid_date(now.date),
        now.time.hour < 24,
        monitored_hour(c),
        wall_clock_before(now, c),
    ensures
        next_run_wall_clock(now) matches Some(n) ==> {
            &&& monitored_hour(n)
            &&& wall_clock_before(now, n)
            &&& n == c || wall_clock_before(n, c)
        },
        next_run_wall_clock(now) is None ==> now.time.hour >= monitor_end_hour() && next_date(
            now.date,
        ) is None,
{
    if now.time.hour >= monitor_end_hour() && next_date(now.date) is Some {
        lemma_next_date_is_the_earliest_later_date(now.date, c.date);
    }
}

} // verus!
