use std::time::Duration;

use portside_tui::calendar::{now_local, Date, Moment};
use portside_tui::errors::AppError;
use portside_tui::models::{split_by_day, Session, SessionStatus};

fn date(year: i32, month: u8, day: u8) -> Date {
    Date::from_calendar_date(year, month, day).unwrap()
}

/// The moment `year-month-day hour:minute:second` at UTC.
fn utc(year: i32, month: u8, day: u8, hour: u8, minute: u8, second: u8) -> Moment {
    Moment::at(date(year, month, day), hour, minute, second, 0)
}

fn nanos(d: Duration) -> u128 {
    d.as_nanos()
}

fn wait_a_little() {
    let start = std::time::Instant::now();
    while start.elapsed() < Duration::from_millis(20) {}
}

#[test]
fn split_by_day_returns_empty_for_non_positive_interval() {
    let t = utc(2026, 8, 9, 10, 0, 0);
    assert!(split_by_day(t, t).is_empty());
    let earlier = Moment::new(t.unix_timestamp_nanos() - 1_000_000_000, 0).unwrap();
    assert!(split_by_day(t, earlier).is_empty());
}

#[test]
fn split_by_day_within_a_single_day_is_one_entry() {
    let from = utc(2026, 8, 9, 10, 0, 0);
    let to = utc(2026, 8, 9, 10, 5, 0);
    assert_eq!(split_by_day(from, to), vec![(from.date(), nanos(Duration::from_secs(300)))]);
}

#[test]
fn split_by_day_spans_a_single_midnight() {
    let from = utc(2026, 8, 9, 23, 55, 0);
    let to = utc(2026, 8, 10, 0, 10, 0);
    assert_eq!(
        split_by_day(from, to),
        vec![
            (from.date(), nanos(Duration::from_secs(5 * 60))),
            (to.date(), nanos(Duration::from_secs(10 * 60))),
        ]
    );
}

#[test]
fn split_by_day_spans_multiple_midnights() {
    let from = utc(2026, 8, 9, 23, 0, 0);
    let to = utc(2026, 8, 11, 1, 0, 0);
    assert_eq!(
        split_by_day(from, to),
        vec![
            (from.date(), nanos(Duration::from_secs(3600))),
            (utc(2026, 8, 10, 0, 0, 0).date(), nanos(Duration::from_secs(86_400))),
            (to.date(), nanos(Duration::from_secs(3600))),
        ]
    );
}

#[test]
fn freeze_attributes_time_to_the_day_worked_not_the_session_creation_day() {
    let mut session = Session::new("resumed-topic".to_string());
    session.started_at = Moment::new(
        session.started_at.unix_timestamp_nanos() - 5 * 86_400 * 1_000_000_000,
        session.started_at.offset_seconds(),
    )
    .unwrap();
    session.freeze();
    session.start_running();
    wait_a_little();

    let splits = session.freeze();

    assert_eq!(splits.len(), 1);
    let (day, secs) = splits[0];
    assert_eq!(day, now_local().date());
    assert_ne!(day, session.started_at.date());
    assert!(secs > 0);
}

#[test]
fn live_today_secs_is_zero_when_not_running() {
    let mut session = Session::new("topic".to_string());
    session.freeze();
    assert_eq!(session.live_today_secs(), 0);
}

#[test]
fn live_today_secs_reflects_the_current_running_segment() {
    let session = Session::new("topic".to_string());
    wait_a_little();
    assert!(session.live_today_secs() > 0);
}

#[test]
fn split_by_day_at_an_offset_cuts_at_local_midnight() {
    // 22:30 UTC is 00:30 the next day at +02:00.
    let from = Moment::at(date(2026, 8, 9), 23, 30, 0, 7200);
    let to = Moment::new(from.unix_timestamp_nanos() + 3_600_000_000_000, 7200).unwrap();
    assert_eq!(
        split_by_day(from, to),
        vec![
            (date(2026, 8, 9), nanos(Duration::from_secs(1800))),
            (date(2026, 8, 10), nanos(Duration::from_secs(1800))),
        ]
    );
}

#[test]
fn split_chunks_add_up_to_the_interval() {
    let from = utc(2026, 8, 1, 7, 13, 0);
    let to = utc(2026, 8, 4, 21, 2, 9);
    let total: u128 = split_by_day(from, to).iter().map(|(_, n)| *n).sum();
    assert_eq!(total as i128, to.unix_timestamp_nanos() - from.unix_timestamp_nanos());
}

#[test]
fn status_names_round_trip() {
    for s in [
        SessionStatus::Running,
        SessionStatus::Paused,
        SessionStatus::OnBreak,
        SessionStatus::Completed,
    ] {
        assert_eq!(SessionStatus::parse(s.as_str()).unwrap(), s);
    }
    assert_eq!(SessionStatus::OnBreak.as_str(), "on_break");
}

#[test]
fn unknown_status_is_an_error() {
    assert_eq!(
        SessionStatus::parse("sleeping").unwrap_err(),
        AppError::InvalidCommand("unknown session status stored in database: sleeping".to_string())
    );
}

#[test]
fn paused_session_does_not_accrue_time() {
    let mut session = Session::new("topic".to_string());
    session.freeze();
    session.status = SessionStatus::Paused;
    let before = session.live_elapsed();
    wait_a_little();
    assert_eq!(session.live_elapsed(), before);
}

#[test]
fn stored_session_counts_negative_totals_as_zero() {
    let start = utc(2026, 8, 9, 10, 0, 0);
    let s = Session::from_stored("t".to_string(), start, -5, SessionStatus::Paused);
    assert_eq!(s.elapsed, 0);
    let s = Session::from_stored("t".to_string(), start, 90, SessionStatus::Paused);
    assert_eq!(s.elapsed_secs(), 90);
}

#[test]
fn freezing_twice_keeps_the_time_and_records_nothing_more() {
    let mut session = Session::new("topic".to_string());
    wait_a_little();
    let first = session.freeze();
    let banked = session.elapsed;
    assert!(banked > 0);
    assert!(!first.is_empty());
    wait_a_little();
    let second = session.freeze();
    assert!(second.is_empty());
    assert_eq!(session.elapsed, banked);
    assert_eq!(session.status, SessionStatus::Running);
}
