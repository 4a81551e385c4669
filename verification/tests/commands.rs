use std::time::Duration;

use portside_tui::calendar::{parse_hm, Date, Moment};
use portside_tui::fixed_queue::FixedQueue;
use portside_tui::commands::{
    parse, parse_at, parse_checked, parse_start_time, start_moment, tokenize, Command,
};
use portside_tui::errors::AppError;
use portside_tui::history::{today_local, HistoryView};

fn secs(d: Duration) -> u64 {
    d.as_secs()
}

#[test]
fn parses_topic_with_multi_word_name() {
    assert_eq!(
        parse("topic linear algebra").unwrap(),
        Command::Topic("linear algebra".to_string())
    );
}

#[test]
fn topic_without_name_is_invalid() {
    assert!(parse("topic").is_err());
    assert!(parse("topic   ").is_err());
}

#[test]
fn parses_simple_verbs() {
    assert_eq!(parse("pause").unwrap(), Command::Pause);
    assert_eq!(parse("resume").unwrap(), Command::Resume);
    assert_eq!(parse("play").unwrap(), Command::Resume);
    assert_eq!(parse("break").unwrap(), Command::ToggleBreak(None));
    assert_eq!(parse("sessions").unwrap(), Command::Sessions);
    assert_eq!(parse("complete").unwrap(), Command::Complete);
    assert_eq!(parse("end").unwrap(), Command::Complete);
    assert_eq!(parse("done").unwrap(), Command::Complete);
    assert_eq!(parse("quit").unwrap(), Command::Quit);
    assert_eq!(parse("q").unwrap(), Command::Quit);
}

#[test]
fn parses_resume_previous_with_and_without_id() {
    assert_eq!(parse("resume-previous").unwrap(), Command::ResumePrevious(None));
    assert_eq!(parse("resume-previous 42").unwrap(), Command::ResumePrevious(Some(42)));
    assert!(parse("resume-previous abc").is_err());
}

#[test]
fn parses_timed_break_durations() {
    assert_eq!(
        parse("break 5m").unwrap(),
        Command::ToggleBreak(Some(secs(Duration::from_secs(300))))
    );
    assert_eq!(
        parse("break 30s").unwrap(),
        Command::ToggleBreak(Some(secs(Duration::from_secs(30))))
    );
    assert_eq!(
        parse("break 5").unwrap(),
        Command::ToggleBreak(Some(secs(Duration::from_secs(300))))
    );
    assert_eq!(
        parse("break 1h").unwrap(),
        Command::ToggleBreak(Some(secs(Duration::from_secs(3600))))
    );
    assert_eq!(
        parse("break 1h30m").unwrap(),
        Command::ToggleBreak(Some(secs(Duration::from_secs(5400))))
    );
    assert!(parse("break abc").is_err());
}

#[test]
fn parses_history_command_with_and_without_view() {
    assert_eq!(parse("history").unwrap(), Command::History(None));
    assert_eq!(parse("hist").unwrap(), Command::History(None));
    assert_eq!(parse("history daily").unwrap(), Command::History(Some(HistoryView::Daily)));
    assert_eq!(parse("history weekly").unwrap(), Command::History(Some(HistoryView::Weekly)));
    assert_eq!(
        parse("history cumulative").unwrap(),
        Command::History(Some(HistoryView::Cumulative))
    );
    assert!(parse("history nonsense").is_err());
}

#[test]
fn parses_discord_toggle() {
    assert_eq!(parse("discord on").unwrap(), Command::Discord(true));
    assert_eq!(parse("discord off").unwrap(), Command::Discord(false));
    assert!(parse("discord").is_err());
    assert!(parse("discord maybe").is_err());
}

#[test]
fn parses_theme_command() {
    assert_eq!(parse("theme solarized").unwrap(), Command::Theme("solarized".to_string()));
    assert!(parse("theme").is_err());
    assert!(parse("theme   ").is_err());
}

#[test]
fn parses_add_command_with_bare_word_args() {
    let cmd = parse("add writing 09:00 45m").unwrap();
    assert_eq!(
        cmd,
        Command::Add {
            topic: "writing".to_string(),
            start: parse_start_time("09:00").unwrap(),
            duration: secs(Duration::from_secs(45 * 60)),
        }
    );
}

#[test]
fn parses_add_command_with_quoted_args() {
    let cmd = parse(r#"add "deep work" "2026-08-15 09:00" 1h"#).unwrap();
    assert_eq!(
        cmd,
        Command::Add {
            topic: "deep work".to_string(),
            start: parse_start_time("2026-08-15 09:00").unwrap(),
            duration: secs(Duration::from_secs(3600)),
        }
    );
}

#[test]
fn add_bare_time_defaults_to_today() {
    let cmd = parse("add writing 09:00 45m").unwrap();
    let Command::Add { start, .. } = cmd else {
        panic!("expected Command::Add");
    };
    assert_eq!(start.date(), today_local());
}

#[test]
fn add_rejects_wrong_arg_count() {
    assert!(parse("add writing 2026-08-15 09:00").is_err());
    assert!(parse("add writing 2026-08-15 09:00 45m extra").is_err());
}

#[test]
fn add_rejects_unterminated_quote() {
    assert!(parse(r#"add "unterminated writing 2026-08-15 09:00 45m"#).is_err());
}

#[test]
fn add_rejects_invalid_start_or_duration() {
    assert!(parse("add writing not-a-time 45m").is_err());
    assert!(parse("add writing 2026-08-15 09:00 not-a-duration").is_err());
}

#[test]
fn parses_remove_command() {
    assert_eq!(parse("remove 42").unwrap(), Command::Remove(42));
    assert_eq!(parse("rm 42").unwrap(), Command::Remove(42));
    assert!(parse("remove").is_err());
    assert!(parse("remove abc").is_err());
}

#[test]
fn unknown_and_empty_commands_are_invalid() {
    assert!(parse("").is_err());
    assert!(parse("   ").is_err());
    assert!(parse("frobnicate").is_err());
}

#[test]
fn trims_surrounding_whitespace() {
    assert_eq!(parse("  pause  ").unwrap(), Command::Pause);
}

#[test]
fn invalid_duration_message_names_the_argument() {
    assert_eq!(
        parse("break 5x").unwrap_err(),
        AppError::InvalidCommand("invalid duration: 5x".to_string())
    );
}

#[test]
fn unterminated_quote_message() {
    assert_eq!(
        parse(r#"add "open"#).unwrap_err(),
        AppError::InvalidCommand("unterminated quote".to_string())
    );
}

#[test]
fn overflowing_duration_is_reported_by_parse_checked() {
    assert!(parse_checked("break 99999999999999999h").is_none());
    assert_eq!(parse_checked("pause"), Some(Ok(Command::Pause)));
}

#[test]
fn combined_duration_units_add_up() {
    assert_eq!(parse("break 1h2m3s").unwrap(), Command::ToggleBreak(Some(3723)));
    assert!(parse("break 5m3").is_err());
    assert!(parse("break h").is_err());
}

fn chars(s: &str) -> Vec<char> {
    s.chars().collect()
}

#[test]
fn quoted_tokens_joined_by_spaces_tokenize_back() {
    let tokens = vec!["deep work", "", "x"];
    let line: Vec<String> = tokens.iter().map(|t| format!("\"{}\"", t)).collect();
    let back = tokenize(&chars(&line.join(" "))).unwrap();
    let expected: Vec<Vec<char>> = tokens.iter().map(|t| chars(t)).collect();
    assert_eq!(back, expected);
}

#[test]
fn bare_minutes_and_unit_parts_read_as_seconds() {
    assert_eq!(parse("break 5").unwrap(), Command::ToggleBreak(Some(300)));
    assert_eq!(parse("break 5m").unwrap(), Command::ToggleBreak(Some(300)));
    assert_eq!(parse("break 30s").unwrap(), Command::ToggleBreak(Some(30)));
    assert_eq!(parse("break 1h").unwrap(), Command::ToggleBreak(Some(3600)));
    assert_eq!(parse("break  1h30m ").unwrap(), Command::ToggleBreak(Some(5400)));
}

#[test]
fn add_start_is_read_for_the_given_day_and_offset() {
    let today = Date::from_calendar_date(2026, 8, 20).unwrap();
    let cmd = parse_at("add writing 09:00 45m", today, 7200).unwrap();
    let start = start_moment("09:00", today, 7200).unwrap();
    assert_eq!(
        cmd,
        Command::Add { topic: "writing".to_string(), start, duration: 2700 }
    );
    assert_eq!(start, Moment::at(today, 9, 0, 0, 7200));
    assert_eq!(start.date(), today);
    assert_eq!(start.offset_seconds(), 7200);
    // 09:00 at UTC+2 is 07:00 UTC.
    let midnight_utc = Moment::at(today, 0, 0, 0, 0).unix_timestamp_nanos();
    assert_eq!(start.unix_timestamp_nanos() - midnight_utc, 7 * 3600 * 1_000_000_000);

    let dated = parse_at(r#"add "deep work" "2026-08-15 09:00" 1h"#, today, -3600).unwrap();
    let day = Date::from_calendar_date(2026, 8, 15).unwrap();
    assert_eq!(
        dated,
        Command::Add {
            topic: "deep work".to_string(),
            start: Moment::at(day, 9, 0, 0, -3600),
            duration: 3600,
        }
    );
    assert!(start_moment("9am", today, 0).is_err());
}

#[test]
fn bare_start_times_read_as_time_reads_them() {
    let format = time::format_description::parse("[hour]:[minute]").unwrap();
    for text in [
        "09:00", "9:00", "23:59", "24:00", "12:60", "00:00", "12:30 ", " 12:30", "1230", "12-30",
        "ab:cd", "12:3", "123:00", "", "１２:３０",
    ] {
        let expected = time::Time::parse(text, &format).ok().map(|t| (t.hour(), t.minute()));
        assert_eq!(parse_hm(text), expected, "{text:?}");
    }
    assert_eq!(parse_hm("09:05"), Some((9, 5)));
}

#[test]
fn unquoted_text_tokenizes_as_whitespace_splitting() {
    let text = "  deep\twork  2026-08-15\n 1h ";
    let expected: Vec<Vec<char>> = text.split_whitespace().map(|w| w.chars().collect()).collect();
    assert_eq!(tokenize(&text.chars().collect()).unwrap(), expected);
}

#[test]
fn a_queue_filled_by_pushes_holds_the_last_values() {
    let mut q: FixedQueue<u32, 3> = FixedQueue::new();
    assert!(q.is_empty());
    for k in 1..=5u32 {
        q.push(k);
        let held = (k as usize).min(3);
        assert_eq!(q.len(), held);
        let items: Vec<u32> = (0..held).map(|i| *q.index(i)).collect();
        let expected: Vec<u32> = ((k + 1 - held as u32)..=k).collect();
        assert_eq!(items, expected);
    }
}
