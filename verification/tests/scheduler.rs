use chrono::{DateTime, Duration, Utc};
use codex_reset_watch::scheduler::hourly::{
    catchup_bounds, catchup_window, next_run_after, next_scheduled_run,
};
use codex_reset_watch::scheduler::manual::{ManualRunDecision, ManualRunGate};
use codex_reset_watch::time::{
    beijing_local_to_utc, beijing_wall_clock_at, pred_date, succ_date, LocalDate, LocalDateTime,
    LocalTime, TimeSpan, UtcTime,
};

fn utc(value: DateTime<Utc>) -> UtcTime {
    UtcTime { secs: value.timestamp(), nanos: value.timestamp_subsec_nanos() }
}

fn at(value: &str) -> UtcTime {
    utc(DateTime::parse_from_rfc3339(value).unwrap().with_timezone(&Utc))
}

fn chrono_at(value: &str) -> DateTime<Utc> {
    DateTime::parse_from_rfc3339(value).unwrap().with_timezone(&Utc)
}

fn date(year: i32, month: u32, day: u32) -> LocalDate {
    LocalDate { year, month, day }
}

fn clock(hour: u32, minute: u32, second: u32) -> LocalTime {
    LocalTime { hour, minute, second, nanosecond: 0 }
}

#[test]
fn scheduler_returns_0800_after_075959_beijing_time() {
    assert_eq!(
        next_scheduled_run(at("2026-08-11T23:59:59Z")),
        Some(at("2026-08-12T00:00:00Z"))
    );
}

#[test]
fn scheduler_returns_next_hour_after_exact_0800_run() {
    assert_eq!(
        next_scheduled_run(at("2026-08-12T00:00:00Z")),
        Some(at("2026-08-12T01:00:00Z"))
    );
}

#[test]
fn scheduler_returns_next_day_0800_after_2300() {
    assert_eq!(
        next_scheduled_run(at("2026-08-12T15:00:00Z")),
        Some(at("2026-08-13T00:00:00Z"))
    );
}

#[test]
fn catchup_window_crosses_month_and_year_boundaries() {
    let month = catchup_window(at("2026-03-01T00:00:00Z")).unwrap();
    assert_eq!(month.start, at("2026-02-27T16:00:00Z"));
    assert_eq!(month.end, at("2026-03-01T00:00:00Z"));

    let year = catchup_window(at("2027-01-01T00:00:00Z")).unwrap();
    assert_eq!(year.start, at("2026-12-30T16:00:00Z"));
    assert_eq!(year.end, at("2027-01-01T00:00:00Z"));
}

#[test]
fn beijing_local_time_is_converted_to_utc() {
    let value = beijing_local_to_utc(date(2026, 8, 12), clock(8, 0, 0)).unwrap();
    let value = DateTime::from_timestamp(value.secs, value.nanos).unwrap();

    assert_eq!(value.to_rfc3339(), "2026-08-12T00:00:00+00:00");
}

#[test]
fn scheduler_manual_gate_reuses_active_run_and_rate_limits_new_runs() {
    let mut gate = ManualRunGate::new(TimeSpan::minutes(5));
    let started_at = chrono_at("2026-08-12T00:00:00Z");

    assert_eq!(
        gate.request(utc(started_at), "run-1".to_string()),
        ManualRunDecision::Accepted { run_id: "run-1".to_string() }
    );
    assert_eq!(
        gate.request(utc(started_at + Duration::minutes(1)), "run-2".to_string()),
        ManualRunDecision::Reused { run_id: "run-1".to_string() }
    );

    gate.finish("run-1");
    assert_eq!(
        gate.request(utc(started_at + Duration::minutes(2)), "run-2".to_string()),
        ManualRunDecision::RateLimited { retry_after_seconds: 180 }
    );
    assert_eq!(
        gate.request(utc(started_at + Duration::minutes(5)), "run-3".to_string()),
        ManualRunDecision::Accepted { run_id: "run-3".to_string() }
    );
}

#[test]
fn scheduled_runs_fall_on_monitored_hours() {
    assert_eq!(next_scheduled_run(at("2026-08-11T16:00:00Z")), Some(at("2026-08-12T00:00:00Z")));
    assert_eq!(next_scheduled_run(at("2026-08-12T00:30:00.5Z")), Some(at("2026-08-12T01:00:00Z")));
    assert_eq!(next_scheduled_run(at("2026-08-12T14:59:59Z")), Some(at("2026-08-12T15:00:00Z")));
    assert_eq!(next_scheduled_run(at("2026-08-12T15:59:59Z")), Some(at("2026-08-13T00:00:00Z")));
    assert_eq!(next_scheduled_run(at("2026-12-31T15:30:00Z")), Some(at("2027-01-01T00:00:00Z")));
    let mut now = at("2026-08-11T16:00:00Z");
    for _ in 0..40 {
        let run = next_scheduled_run(now).unwrap();
        let wall = beijing_wall_clock_at(run).unwrap();
        assert!((8..=23).contains(&wall.time.hour));
        assert_eq!((wall.time.minute, wall.time.second, wall.time.nanosecond), (0, 0, 0));
        assert!(run.secs > now.secs);
        now = run;
    }
}

#[test]
fn only_the_0800_run_has_a_catchup_window() {
    assert_eq!(catchup_window(at("2026-08-12T01:00:00Z")), None);
    assert_eq!(catchup_window(at("2026-08-12T00:00:01Z")), None);
    assert_eq!(catchup_window(at("2026-08-12T00:00:00.000000001Z")), None);
    let leap = catchup_window(at("2024-03-01T00:00:00Z")).unwrap();
    assert_eq!(leap.start, at("2024-02-28T16:00:00Z"));
}

#[test]
fn wall_clock_of_an_instant_is_beijing_time() {
    let wall = beijing_wall_clock_at(at("2026-08-11T23:59:59.25Z")).unwrap();
    assert_eq!(wall.date, date(2026, 8, 12));
    assert_eq!(wall.time, LocalTime { hour: 7, minute: 59, second: 59, nanosecond: 250_000_000 });
    assert_eq!(beijing_wall_clock_at(UtcTime { secs: i64::MAX, nanos: 0 }), None);
}

#[test]
fn invalid_or_skipped_wall_clock_values_have_no_instant() {
    assert_eq!(beijing_local_to_utc(date(2026, 2, 30), clock(8, 0, 0)), None);
    assert_eq!(beijing_local_to_utc(date(2026, 2, 1), clock(24, 0, 0)), None);
    // Clocks in China skipped 02:00-03:00 on 1986-05-04.
    assert_eq!(beijing_local_to_utc(date(1986, 5, 4), clock(2, 30, 0)), None);
}

#[test]
fn calendar_days_step_across_months_years_and_leap_days() {
    assert_eq!(succ_date(date(2024, 2, 28)), Some(date(2024, 2, 29)));
    assert_eq!(succ_date(date(2023, 2, 28)), Some(date(2023, 3, 1)));
    assert_eq!(succ_date(date(2026, 12, 31)), Some(date(2027, 1, 1)));
    assert_eq!(succ_date(date(2026, 4, 31)), None);
    assert_eq!(succ_date(date(262142, 12, 31)), None);
    assert_eq!(pred_date(date(2024, 3, 1)), Some(date(2024, 2, 29)));
    assert_eq!(pred_date(date(1900, 3, 1)), Some(date(1900, 2, 28)));
    assert_eq!(pred_date(date(2000, 3, 1)), Some(date(2000, 2, 29)));
    assert_eq!(pred_date(date(2027, 1, 1)), Some(date(2026, 12, 31)));
    assert_eq!(pred_date(date(-262143, 1, 1)), None);
}

#[test]
fn manual_gate_edge_cases() {
    let start = chrono_at("2026-08-12T00:00:00Z");
    let mut gate = ManualRunGate::new(TimeSpan::minutes(5));
    assert!(matches!(gate.request(utc(start), "a".to_string()), ManualRunDecision::Accepted { .. }));
    gate.finish("b");
    assert_eq!(
        gate.request(utc(start), "c".to_string()),
        ManualRunDecision::Reused { run_id: "a".to_string() }
    );
    gate.finish("a");
    assert_eq!(
        gate.request(utc(start - Duration::seconds(10)), "c".to_string()),
        ManualRunDecision::RateLimited { retry_after_seconds: 300 }
    );
    assert_eq!(
        gate.request(utc(start + Duration::milliseconds(1)), "c".to_string()),
        ManualRunDecision::RateLimited { retry_after_seconds: 300 }
    );
    assert_eq!(
        gate.request(utc(start + Duration::milliseconds(299_001)), "c".to_string()),
        ManualRunDecision::RateLimited { retry_after_seconds: 1 }
    );
    assert_eq!(
        gate.request(utc(start + Duration::nanoseconds(299_999_999_999)), "c".to_string()),
        ManualRunDecision::RateLimited { retry_after_seconds: 0 }
    );
    assert_eq!(
        gate.request(utc(start + Duration::minutes(5)), "d".to_string()),
        ManualRunDecision::Accepted { run_id: "d".to_string() }
    );
}

#[test]
fn time_spans_count_whole_seconds_toward_zero() {
    assert_eq!(TimeSpan::minutes(10).as_secs(), 600);
    assert_eq!(TimeSpan::minutes(-2).as_secs(), -120);
    assert_eq!(TimeSpan::minutes(1).as_nanos(), 60_000_000_000);
}

#[test]
fn waiting_the_told_time_starts_a_new_run() {
    let start = chrono_at("2026-08-12T00:00:00Z");
    let mut gate = ManualRunGate::new(TimeSpan::minutes(5));
    assert!(matches!(gate.request(utc(start), "a".to_string()), ManualRunDecision::Accepted { .. }));
    gate.finish("a");
    let asked = start + Duration::milliseconds(61_500);
    let ManualRunDecision::RateLimited { retry_after_seconds } =
        gate.request(utc(asked), "b".to_string())
    else {
        panic!("expected a refusal");
    };
    assert_eq!(retry_after_seconds, 239);
    gate.finish("z");
    assert!(matches!(
        gate.request(utc(asked + Duration::seconds(100)), "c".to_string()),
        ManualRunDecision::RateLimited { .. }
    ));
    assert_eq!(
        gate.request(utc(asked + Duration::seconds(retry_after_seconds as i64)), "d".to_string()),
        ManualRunDecision::Accepted { run_id: "d".to_string() }
    );
}

#[test]
fn accepted_runs_are_a_cooldown_apart() {
    let start = chrono_at("2026-08-12T00:00:00Z");
    let mut gate = ManualRunGate::new(TimeSpan::minutes(5));
    let mut accepted = Vec::new();
    for second in (0..1800).step_by(45) {
        let now = start + Duration::seconds(second);
        if let ManualRunDecision::Accepted { run_id } = gate.request(utc(now), format!("run-{second}")) {
            accepted.push(now);
            if second % 2 == 0 {
                gate.finish(&run_id);
            }
        } else if second % 90 == 0 {
            gate.finish(&format!("run-{}", second - 90));
        }
    }
    assert!(accepted.len() >= 2);
    for pair in accepted.windows(2) {
        assert!(pair[1] - pair[0] >= Duration::minutes(5));
    }
}

#[test]
fn next_run_on_the_beijing_wall_clock() {
    let at_clock = |d: LocalDate, t: LocalTime| LocalDateTime { date: d, time: t };
    assert_eq!(
        next_run_after(at_clock(date(2026, 8, 12), clock(7, 59, 59))),
        Some(at_clock(date(2026, 8, 12), clock(8, 0, 0)))
    );
    assert_eq!(
        next_run_after(at_clock(date(2026, 8, 12), clock(8, 0, 0))),
        Some(at_clock(date(2026, 8, 12), clock(9, 0, 0)))
    );
    assert_eq!(
        next_run_after(at_clock(date(2026, 8, 12), clock(22, 59, 59))),
        Some(at_clock(date(2026, 8, 12), clock(23, 0, 0)))
    );
    assert_eq!(
        next_run_after(at_clock(date(2026, 12, 31), clock(23, 0, 0))),
        Some(at_clock(date(2027, 1, 1), clock(8, 0, 0)))
    );
    assert_eq!(next_run_after(at_clock(date(262142, 12, 31), clock(23, 30, 0))), None);
}

#[test]
fn catchup_bounds_on_the_beijing_wall_clock() {
    let at_clock = |d: LocalDate, t: LocalTime| LocalDateTime { date: d, time: t };
    assert_eq!(
        catchup_bounds(at_clock(date(2026, 3, 1), clock(8, 0, 0))),
        Some((at_clock(date(2026, 2, 28), clock(0, 0, 0)), at_clock(date(2026, 3, 1), clock(8, 0, 0))))
    );
    assert_eq!(
        catchup_bounds(at_clock(date(2027, 1, 1), clock(8, 0, 0))),
        Some((at_clock(date(2026, 12, 31), clock(0, 0, 0)), at_clock(date(2027, 1, 1), clock(8, 0, 0))))
    );
    assert_eq!(catchup_bounds(at_clock(date(2026, 3, 1), clock(9, 0, 0))), None);
    assert_eq!(
        catchup_bounds(at_clock(date(2026, 3, 1), LocalTime { hour: 8, minute: 0, second: 0, nanosecond: 1 })),
        None
    );
}

#[test]
fn beijing_is_eight_hours_ahead_since_1991() {
    assert_eq!(beijing_local_to_utc(date(2026, 8, 12), clock(8, 0, 0)), Some(UtcTime { secs: 1_786_492_800, nanos: 0 }));
    assert_eq!(
        beijing_local_to_utc(date(1991, 9, 15), clock(2, 0, 0)),
        Some(UtcTime { secs: 684_900_000 - 28_800, nanos: 0 })
    );
    // The hour from 01:00 on 1991-09-15 was shown twice.
    assert_eq!(beijing_local_to_utc(date(1991, 9, 15), clock(1, 30, 0)), None);
    let wall = beijing_wall_clock_at(UtcTime { secs: 684_867_600, nanos: 0 }).unwrap();
    assert_eq!(wall.date, date(1991, 9, 15));
    assert_eq!(wall.time, clock(1, 0, 0));
}

#[test]
fn no_monitored_hour_is_skipped() {
    let mut now = at("2026-08-11T16:30:00Z");
    let mut hours = Vec::new();
    for _ in 0..17 {
        let run = next_scheduled_run(now).unwrap();
        hours.push(beijing_wall_clock_at(run).unwrap().time.hour);
        now = run;
    }
    assert_eq!(hours, vec![8, 9, 10, 11, 12, 13, 14, 15, 16, 17, 18, 19, 20, 21, 22, 23, 8]);
}

fn expected_next_run(secs: i64) -> i64 {
    let time_of_day = secs.rem_euclid(86_400);
    if time_of_day < 15 * 3_600 {
        secs - time_of_day % 3_600 + 3_600
    } else {
        secs - time_of_day + 86_400
    }
}

#[test]
fn next_run_in_utc_is_the_next_hour_up_to_1500_else_midnight() {
    let start = at("2026-08-11T00:00:00Z").secs;
    for step in 0..(2 * 24 * 4) {
        let now = UtcTime { secs: start + step * 900 + 7, nanos: 0 };
        let run = next_scheduled_run(now).unwrap();
        assert_eq!(run, UtcTime { secs: expected_next_run(now.secs), nanos: 0 });
    }
    assert_eq!(next_scheduled_run(at("2026-08-12T14:59:59Z")), Some(at("2026-08-12T15:00:00Z")));
    assert_eq!(next_scheduled_run(at("2026-08-12T15:30:00Z")), Some(at("2026-08-13T00:00:00Z")));
}

#[test]
fn catchup_window_exists_at_utc_midnight_and_spans_32_hours() {
    let start = at("2026-02-26T00:00:00Z").secs;
    for step in 0..(3 * 24) {
        let run = UtcTime { secs: start + step * 3_600, nanos: 0 };
        match catchup_window(run) {
            Some(window) => {
                assert_eq!(run.secs % 86_400, 0);
                assert_eq!(window.end, run);
                assert_eq!(window.start, UtcTime { secs: run.secs - 32 * 3_600, nanos: 0 });
            }
            None => assert_ne!(run.secs % 86_400, 0),
        }
    }
}
