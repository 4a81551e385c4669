use std::time::Duration;

use portside_tui::action::{Action, KeyCode, KeyPress, Mode};
use portside_tui::calendar::{Date, Moment};
use portside_tui::components::clock::clock_text;
use portside_tui::components::command_line::CommandLineComponent;
use portside_tui::components::now_playing::{format_mmss, truncate};
use portside_tui::components::session_list::{
    detail_view, format_hhmmss, parse_tags, Pane, SessionListComponent,
};
use portside_tui::components::status_bar::StatusBar;
use portside_tui::components::timer::{format_hms, TimerComponent};
use portside_tui::models::{Session, SessionStatus};

fn key(code: KeyCode) -> KeyPress {
    KeyPress { code, ctrl: false, alt: false, shift: false }
}

fn press(c: &mut SessionListComponent, code: KeyCode) -> Option<Action> {
    c.handle_action(&Action::Key(key(code)))
}

#[test]
fn insert_and_backspace_track_cursor() {
    let mut c = CommandLineComponent::default();
    c.insert_char('p');
    c.insert_char('a');
    c.insert_char('u');
    assert_eq!(c.buffer_text(), "pau");
    assert_eq!(c.cursor_index(), 3);
    c.backspace();
    assert_eq!(c.buffer_text(), "pa");
    assert_eq!(c.cursor_index(), 2);
}

#[test]
fn insert_in_middle_respects_cursor_position() {
    let mut c = CommandLineComponent::default();
    for ch in "pase".chars() {
        c.insert_char(ch);
    }
    c.move_left();
    c.move_left();
    c.insert_char('u');
    assert_eq!(c.buffer_text(), "pause");
}

#[test]
fn enter_emits_submit_and_resets() {
    let mut c = CommandLineComponent::default();
    for ch in "pause".chars() {
        c.insert_char(ch);
    }
    let action = c.handle_action(&Action::Key(key(KeyCode::Enter)));
    assert!(matches!(action, Some(Action::SubmitCommand(s)) if s == "pause"));
    assert_eq!(c.buffer_text(), "");
    assert_eq!(c.cursor_index(), 0);
}

#[test]
fn truncate_leaves_short_text_untouched() {
    assert_eq!(truncate("short", 20), "short");
}

#[test]
fn truncate_ellipsizes_long_text() {
    assert_eq!(truncate("a very long song title indeed", 10), "a very lo…");
}

#[test]
fn formats_hours_minutes_seconds() {
    assert_eq!(format_hms(Duration::from_secs(0).as_secs()), "00:00:00");
    assert_eq!(format_hms(Duration::from_secs(59).as_secs()), "00:00:59");
    assert_eq!(format_hms(Duration::from_secs(60).as_secs()), "00:01:00");
    assert_eq!(format_hms(Duration::from_secs(3661).as_secs()), "01:01:01");
    assert_eq!(format_hms(Duration::from_secs(360_000).as_secs()), "100:00:00");
}

#[test]
fn command_line_strips_leading_colons_and_walks_history() {
    let mut c = CommandLineComponent::new();
    c.handle_action(&Action::EnterCommandMode);
    for ch in "::pause".chars() {
        c.insert_char(ch);
    }
    let action = c.handle_action(&Action::Key(key(KeyCode::Enter)));
    assert!(matches!(action, Some(Action::SubmitCommand(s)) if s == "pause"));
    assert_eq!(c.history_len(), 1);
    c.handle_action(&Action::Key(key(KeyCode::Up)));
    assert_eq!(c.buffer_text(), "pause");
    let esc = c.handle_action(&Action::Key(key(KeyCode::Esc)));
    assert!(matches!(esc, Some(Action::ExitCommandMode)));
}

#[test]
fn mmss_and_hhmmss_formats() {
    assert_eq!(format_mmss(0), "0:00");
    assert_eq!(format_mmss(754), "12:34");
    assert_eq!(format_hhmmss(3725), "01:02:05");
}

#[test]
fn truncate_to_zero_is_empty() {
    assert_eq!(truncate("abc", 0), "");
    assert_eq!(truncate("abc", 3), "abc");
    assert_eq!(truncate("abcd", 3), "ab…");
}

#[test]
fn status_bar_labels_and_hints() {
    assert_eq!(StatusBar::label(Mode::Normal), " NORMAL ");
    assert_eq!(StatusBar::label(Mode::SessionList), " SESSIONS ");
    assert_eq!(StatusBar::hints(Mode::CommandLine), "Enter submit  Esc cancel");
}

#[test]
fn timer_shows_status_and_zero_digits_without_a_session() {
    assert_eq!(TimerComponent::status_text(SessionStatus::OnBreak), "On break");
    assert_eq!(TimerComponent::digits(None), "00:00:00");
    assert_eq!(TimerComponent::digits(Some(3661)), "01:01:01");
}

#[test]
fn clock_shows_local_time_of_day() {
    let d = Date::from_calendar_date(2026, 8, 9).unwrap();
    assert_eq!(clock_text(Moment::at(d, 7, 5, 9, 0)), "07:05:09");
    assert_eq!(clock_text(Moment::at(d, 23, 59, 0, -3600)), "23:59:00");
}

fn row(id: i64, topic: &str) -> (i64, Session) {
    let start = Moment::at(Date::from_calendar_date(2026, 8, 9).unwrap(), 9, 0, 0, 0);
    let mut s = Session::from_stored(topic.to_string(), start, 60, SessionStatus::Paused);
    s.description = Some(format!("about {topic}"));
    s.tags = vec!["rust".to_string(), "study".to_string()];
    (id, s)
}

#[test]
fn session_list_selection_wraps_both_ways() {
    let mut c = SessionListComponent::default();
    c.handle_action(&Action::SessionsLoaded(vec![row(7, "a"), row(8, "b"), row(9, "c")]));
    assert_eq!(c.selected_id(), Some(7));
    press(&mut c, KeyCode::Up);
    assert_eq!(c.selected_id(), Some(9));
    press(&mut c, KeyCode::Char('j'));
    assert_eq!(c.selected_id(), Some(7));
    press(&mut c, KeyCode::Down);
    assert_eq!(c.selected_id(), Some(8));
    assert!(matches!(press(&mut c, KeyCode::Enter), Some(Action::SessionSelected(8))));
    assert!(matches!(press(&mut c, KeyCode::Esc), Some(Action::CloseSessionList)));
}

#[test]
fn session_list_reload_keeps_the_selected_id() {
    let mut c = SessionListComponent::default();
    c.handle_action(&Action::SessionsLoaded(vec![row(1, "a"), row(2, "b")]));
    press(&mut c, KeyCode::Down);
    assert_eq!(c.selected_id(), Some(2));
    c.handle_action(&Action::SessionsLoaded(vec![row(3, "c"), row(2, "b"), row(1, "a")]));
    assert_eq!(c.selected_index(), Some(1));
    c.handle_action(&Action::SessionsLoaded(vec![row(5, "e")]));
    assert_eq!(c.selected_id(), Some(5));
    c.handle_action(&Action::SessionsLoaded(vec![]));
    assert_eq!(c.selected_id(), None);
}

#[test]
fn session_list_scrolls_sideways_without_going_negative() {
    let mut c = SessionListComponent::new();
    press(&mut c, KeyCode::Char('h'));
    assert_eq!(c.scroll_offset(), 0);
    press(&mut c, KeyCode::Right);
    press(&mut c, KeyCode::Char('l'));
    assert_eq!(c.scroll_offset(), 2);
    press(&mut c, KeyCode::Left);
    assert_eq!(c.scroll_offset(), 1);
}

#[test]
fn session_list_detail_edits_description_and_tags() {
    let mut c = SessionListComponent::default();
    c.handle_action(&Action::SessionsLoaded(vec![row(4, "writing")]));
    press(&mut c, KeyCode::Char('i'));
    assert_eq!(c.pane(), Pane::Detail);

    press(&mut c, KeyCode::Char('d'));
    assert_eq!(c.pane(), Pane::EditDescription);
    assert_eq!(c.editing_lines(), vec!["about writing".to_string()]);
    let saved = press(&mut c, KeyCode::Enter);
    match saved {
        Some(Action::SetSessionDescription { id, text }) => {
            assert_eq!(id, Some(4));
            assert_eq!(text, "about writing");
        }
        other => panic!("unexpected {other:?}"),
    }
    assert_eq!(c.pane(), Pane::Detail);

    press(&mut c, KeyCode::Char('t'));
    assert_eq!(c.editing_lines(), vec!["rust, study".to_string()]);
    press(&mut c, KeyCode::End);
    for ch in ", , Deep Work ".chars() {
        press(&mut c, KeyCode::Char(ch));
    }
    match press(&mut c, KeyCode::Enter) {
        Some(Action::SetSessionTags { id, tags }) => {
            assert_eq!(id, Some(4));
            assert_eq!(tags, vec!["rust".to_string(), "study".to_string(), "Deep Work".to_string()]);
        }
        other => panic!("unexpected {other:?}"),
    }

    press(&mut c, KeyCode::Char('d'));
    assert!(press(&mut c, KeyCode::Esc).is_none());
    assert_eq!(c.pane(), Pane::Detail);
    press(&mut c, KeyCode::Esc);
    assert_eq!(c.pane(), Pane::List);
}

#[test]
fn session_list_detail_needs_a_selection() {
    let mut c = SessionListComponent::default();
    press(&mut c, KeyCode::Char('i'));
    assert_eq!(c.pane(), Pane::List);
    assert!(press(&mut c, KeyCode::Enter).is_none());
}

#[test]
fn session_list_cursor_follows_the_edited_field() {
    let mut c = SessionListComponent::default();
    c.handle_action(&Action::SessionsLoaded(vec![row(4, "writing")]));
    assert_eq!(c.cursor(), None);
    press(&mut c, KeyCode::Char('i'));
    c.record_detail_rows(5, 8);
    press(&mut c, KeyCode::Char('t'));
    assert_eq!(c.cursor(), Some((0, 8)));
    press(&mut c, KeyCode::Char('x'));
    assert_eq!(c.cursor(), Some((1, 8)));
}

#[test]
fn tags_are_split_trimmed_and_blank_ones_dropped() {
    assert_eq!(parse_tags(&" a ,b,, c d ,".to_string()), vec!["a", "b", "c d"]);
    assert!(parse_tags(&"".to_string()).is_empty());
    assert!(parse_tags(&" , ,".to_string()).is_empty());
}

#[test]
fn down_undoes_up_in_the_command_history() {
    let mut c = CommandLineComponent::new();
    for cmd in ["pause", "resume"] {
        for ch in cmd.chars() {
            c.insert_char(ch);
        }
        c.handle_action(&Action::Key(key(KeyCode::Enter)));
    }
    c.handle_action(&Action::Key(key(KeyCode::Up)));
    assert_eq!(c.buffer_text(), "resume");
    c.handle_action(&Action::Key(key(KeyCode::Up)));
    assert_eq!(c.buffer_text(), "pause");
    c.handle_action(&Action::Key(key(KeyCode::Down)));
    assert_eq!(c.buffer_text(), "resume");
    c.handle_action(&Action::Key(key(KeyCode::Down)));
    assert_eq!(c.buffer_text(), "");
}

#[test]
fn up_undoes_down_in_the_session_list() {
    let mut c = SessionListComponent::default();
    c.handle_action(&Action::SessionsLoaded(vec![row(1, "a"), row(2, "b")]));
    for _ in 0..3 {
        press(&mut c, KeyCode::Down);
        press(&mut c, KeyCode::Up);
        assert_eq!(c.selected_id(), Some(1));
    }
}

#[test]
fn detail_view_shows_fields_placeholders_and_hints() {
    let start = Moment::new(0, 0).unwrap();
    let mut s = Session::from_stored("t".to_string(), start, 60, SessionStatus::Paused);
    let d = detail_view(&s, Pane::Detail);
    assert_eq!((d.description.as_str(), d.description_dim), ("No description", true));
    assert_eq!((d.tags.as_str(), d.tags_dim), ("No tags", true));
    assert_eq!(d.hint, "d: edit description   t: edit tags   Esc: back");
    assert_eq!((d.description_row, d.tags_row), (5, 8));

    s.description = Some("reading".to_string());
    s.tags = vec!["rust".to_string(), "book".to_string()];
    let d = detail_view(&s, Pane::Detail);
    assert_eq!((d.description.as_str(), d.description_dim), ("reading", false));
    assert_eq!((d.tags.as_str(), d.tags_dim), ("rust, book", false));

    let d = detail_view(&s, Pane::EditTags);
    assert_eq!(d.description, "reading");
    assert_eq!((d.tags.as_str(), d.tags_dim), ("", false));
    assert_eq!(d.hint, "Enter: save   Esc: cancel");
    let d = detail_view(&s, Pane::EditDescription);
    assert_eq!(d.description, "");
    assert_eq!(d.tags, "rust, book");
}

#[test]
fn session_list_editing_keys_change_the_text_as_stated() {
    let mut c = SessionListComponent::default();
    c.handle_action(&Action::SessionsLoaded(vec![row(4, "writing")]));
    press(&mut c, KeyCode::Char('i'));
    press(&mut c, KeyCode::Char('d'));
    assert_eq!(c.editing_lines(), vec!["about writing".to_string()]);
    // The cursor starts at the head: Backspace there changes nothing, Delete removes 'a'.
    press(&mut c, KeyCode::Backspace);
    assert_eq!(c.editing_lines(), vec!["about writing".to_string()]);
    press(&mut c, KeyCode::Delete);
    assert_eq!(c.editing_lines(), vec!["bout writing".to_string()]);
    // End, then Backspace removes the last character.
    press(&mut c, KeyCode::End);
    press(&mut c, KeyCode::Backspace);
    assert_eq!(c.editing_lines(), vec!["bout writin".to_string()]);
    // Left twice and type: the character lands two places from the end.
    press(&mut c, KeyCode::Left);
    press(&mut c, KeyCode::Left);
    press(&mut c, KeyCode::Char('X'));
    assert_eq!(c.editing_lines(), vec!["bout writXin".to_string()]);
    // Right then Delete removes the character after the one stepped over.
    press(&mut c, KeyCode::Right);
    press(&mut c, KeyCode::Delete);
    assert_eq!(c.editing_lines(), vec!["bout writXi".to_string()]);
    // Right at the end of the text stays; Delete there changes nothing.
    press(&mut c, KeyCode::Right);
    press(&mut c, KeyCode::Delete);
    assert_eq!(c.editing_lines(), vec!["bout writXi".to_string()]);
    // Home, then type at the head; an unnamed key changes nothing.
    press(&mut c, KeyCode::Home);
    press(&mut c, KeyCode::Char('a'));
    press(&mut c, KeyCode::Other);
    press(&mut c, KeyCode::Char('!'));
    assert_eq!(c.editing_lines(), vec!["a!bout writXi".to_string()]);
}
