use std::sync::mpsc;
use std::time::Instant;

use portside_tui::calendar::{parse_rfc3339, Date, Moment};
use portside_tui::components::history::{
    all_zero, bar_minutes, heatmap_column_count, month_abbrev, peak_and_total,
};
use portside_tui::components::now_playing::{gauge_label, position_given, title_line};
use portside_tui::media::{first_mpris_player, latest, now_playing_from_player, MediaWatcher, NowPlayingInfo};
use portside_tui::models::{session_from_row, RowError, SessionStatus};

fn date(y: i32, m: u8, d: u8) -> Date {
    Date::from_calendar_date(y, m, d).unwrap()
}

fn info(playing: bool, elapsed_secs: u128, duration_secs: u128) -> NowPlayingInfo {
    NowPlayingInfo {
        title: "Song".to_string(),
        artist: "Band".to_string(),
        playing,
        elapsed: elapsed_secs * 1_000_000_000,
        duration: duration_secs * 1_000_000_000,
        fetched_at: Instant::now(),
    }
}

#[test]
fn first_player_is_the_first_mpris_name() {
    let names = vec![
        "org.freedesktop.DBus".to_string(),
        "org.mpris.MediaPlayer2.spotify".to_string(),
        "org.mpris.MediaPlayer2.vlc".to_string(),
    ];
    assert_eq!(first_mpris_player(&names), Some("org.mpris.MediaPlayer2.spotify".to_string()));
    assert_eq!(first_mpris_player(&vec!["org.mpris.MediaPlayer".to_string()]), None);
}

#[test]
fn player_properties_become_a_snapshot() {
    let at = Instant::now();
    let s = now_playing_from_player(
        "Playing",
        Some("Title".to_string()),
        Some(vec!["A".to_string(), "B".to_string()]),
        Some(180_000_000),
        -5,
        at,
    )
    .unwrap();
    assert_eq!(s.title, "Title");
    assert_eq!(s.artist, "A");
    assert!(s.playing);
    assert_eq!(s.elapsed, 0);
    assert_eq!(s.duration, 180_000_000_000);
    let paused = now_playing_from_player("Paused", Some("T".to_string()), None, None, 2_000_000, at).unwrap();
    assert!(!paused.playing);
    assert_eq!(paused.artist, "");
    assert_eq!(paused.elapsed, 2_000_000_000);
    assert_eq!(paused.duration, 0);
    assert!(now_playing_from_player("Playing", Some(String::new()), None, None, 0, at).is_none());
    assert!(now_playing_from_player("Playing", None, None, None, 0, at).is_none());
}

#[test]
fn watcher_keeps_only_the_newest_snapshot() {
    let (tx, rx) = mpsc::channel();
    let watcher = MediaWatcher::from_receiver(rx);
    assert!(watcher.try_recv().is_none());
    tx.send(None).unwrap();
    tx.send(Some(info(true, 1, 10))).unwrap();
    let got = watcher.try_recv().unwrap().unwrap();
    assert_eq!(got.elapsed, 1_000_000_000);
    assert!(watcher.try_recv().is_none());
    assert_eq!(latest(vec![1, 2, 3]), Some(3));
    assert_eq!(latest::<u8>(vec![]), None);
}

#[test]
fn playing_position_moves_on_but_stops_at_the_end() {
    assert_eq!(position_given(&info(true, 10, 60), 5_000_000_000), 15_000_000_000);
    assert_eq!(position_given(&info(true, 58, 60), 5_000_000_000), 60_000_000_000);
    assert_eq!(position_given(&info(false, 10, 60), 5_000_000_000), 10_000_000_000);
}

#[test]
fn now_playing_lines() {
    assert_eq!(title_line(&info(true, 0, 0), 10), "\u{25b6} Song");
    assert_eq!(title_line(&info(false, 0, 0), 5), "\u{23f8} So\u{2026}");
    assert_eq!(gauge_label(75_000_000_000, 200_500_000_000), "1:15/3:20");
}

#[test]
fn stored_rows_read_back_as_sessions() {
    let s = session_from_row("maths".to_string(), "2026-08-09T10:00:00+02:00", 90, "on_break").unwrap();
    assert_eq!(s.topic, "maths");
    assert_eq!(s.status, SessionStatus::OnBreak);
    assert_eq!(s.elapsed_secs(), 90);
    assert_eq!(s.started_at.offset_seconds(), 7200);
    assert_eq!(s.started_at, Moment::at(date(2026, 8, 9), 10, 0, 0, 7200));
    assert_eq!(session_from_row("t".to_string(), "yesterday", 0, "paused").unwrap_err(), RowError::StartedAt);
    assert!(matches!(
        session_from_row("t".to_string(), "2026-08-09T10:00:00Z", 0, "bogus"),
        Err(RowError::Status(_))
    ));
}

#[test]
fn start_times_round_trip_through_rfc3339() {
    let m = Moment::at(date(2026, 8, 9), 23, 5, 7, -18000);
    let text = m.to_rfc3339().unwrap();
    assert_eq!(text, "2026-08-09T23:05:07-05:00");
    assert_eq!(parse_rfc3339(&text), Some(m));
    assert_eq!(parse_rfc3339("2026-13-01T00:00:00Z"), None);
}

#[test]
fn chart_helpers() {
    let s = vec![(date(2026, 8, 1), 30), (date(2026, 8, 2), 90), (date(2026, 8, 3), -10)];
    assert_eq!(peak_and_total(&s), (90, 110));
    assert_eq!(peak_and_total(&[]), (0, 0));
    assert_eq!(peak_and_total(&[(date(2026, 8, 1), -4)]), (-4, -4));
    assert!(!all_zero(&s));
    assert!(all_zero(&[(date(2026, 8, 1), 0)]));
    assert_eq!(bar_minutes(-120), 0);
    assert_eq!(bar_minutes(179), 2);
    assert_eq!(month_abbrev(1), "Jan");
    assert_eq!(month_abbrev(9), "Sep");
    assert_eq!(month_abbrev(12), "Dec");
    // 40 columns fit in (83 - 3) / 2; 14 days only fill 2 whole weeks plus one partial.
    assert_eq!(heatmap_column_count(83, 14), 3);
    assert_eq!(heatmap_column_count(9, 371), 3);
    assert_eq!(heatmap_column_count(4, 0), 1);
}
