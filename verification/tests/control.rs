use portside_tui::action::{Action, KeyCode, KeyPress, Mode, ToastKind};
use portside_tui::calendar::{Date, Moment};
use portside_tui::commands::{parse, Command};
use portside_tui::components::command_line::CommandLineComponent;
use portside_tui::components::history::HistoryComponent;
use portside_tui::components::session_list::SessionListComponent;
use portside_tui::config::Config;
use portside_tui::control::{
    break_message, break_over_message, execute_command, handle_key, leave_for_new,
    leave_for_previous, normal_key, plan, resumed_message, settle, started_message,
    mode_after, submit_command, toast_result, SessionOp, Settle,
};
use portside_tui::errors::AppError;
use portside_tui::models::{Session, SessionStatus};

fn key(code: KeyCode) -> KeyPress {
    KeyPress { code, ctrl: false, alt: false, shift: false }
}

fn stored(status: SessionStatus) -> Session {
    let start = Moment::at(Date::from_calendar_date(2026, 8, 9).unwrap(), 9, 0, 0, 0);
    Session::from_stored("maths".to_string(), start, 600, status)
}

fn refusal(op: SessionOp, status: SessionStatus) -> String {
    match plan(op, Some(&stored(status))) {
        Err(AppError::InvalidCommand(m)) => m,
        other => panic!("expected a refusal, got {other:?}"),
    }
}

#[test]
fn break_messages_list_only_nonzero_parts() {
    assert_eq!(break_message(None), "On break");
    assert_eq!(break_message(Some(300)), "On break for 5m ");
    assert_eq!(break_message(Some(3723)), "On break for 1h 2m 3s");
    assert_eq!(break_message(Some(30)), "On break for 30s");
    assert_eq!(break_message(Some(0)), "On break for ");
}

#[test]
fn commands_need_an_active_session() {
    match plan(SessionOp::Pause, None) {
        Err(AppError::InvalidCommand(m)) => assert_eq!(m, "no active session"),
        other => panic!("unexpected {other:?}"),
    }
}

#[test]
fn each_refusal_has_its_message() {
    assert_eq!(refusal(SessionOp::Pause, SessionStatus::Paused), "session is not running");
    assert_eq!(refusal(SessionOp::Resume, SessionStatus::Running), "session is already running");
    assert_eq!(refusal(SessionOp::Resume, SessionStatus::Completed), "session is already completed");
    assert_eq!(
        refusal(SessionOp::ToggleBreak(None), SessionStatus::Completed),
        "session is already completed"
    );
    assert_eq!(refusal(SessionOp::Complete, SessionStatus::Completed), "session is already completed");
}

#[test]
fn pause_then_resume_runs_again() {
    let mut s = Session::new("maths".to_string());
    let p = plan(SessionOp::Pause, Some(&s)).unwrap();
    assert!(p.freeze_first);
    assert_eq!(p.message, "Paused");
    s.freeze();
    settle(&mut s, p.settle);
    assert_eq!(s.status, SessionStatus::Paused);
    let r = plan(SessionOp::Resume, Some(&s)).unwrap();
    assert!(!r.freeze_first);
    assert_eq!(r.message, "Resumed");
    settle(&mut s, r.settle);
    assert_eq!(s.status, SessionStatus::Running);
    assert!(s.running_since.is_some());
}

#[test]
fn toggling_a_break_twice_returns_to_running() {
    let s = stored(SessionStatus::Running);
    let on = plan(SessionOp::ToggleBreak(Some(300)), Some(&s)).unwrap();
    assert!(on.freeze_first);
    assert_eq!(on.settle, Settle::SetStatus(SessionStatus::OnBreak));
    assert_eq!(on.break_secs, Some(300));
    assert_eq!(on.message, "On break for 5m ");
    let off = plan(SessionOp::ToggleBreak(None), Some(&stored(SessionStatus::OnBreak))).unwrap();
    assert_eq!(off.settle, Settle::StartRunning);
    assert_eq!(off.break_secs, None);
    assert_eq!(off.message, "Break ended, resumed");
}

#[test]
fn completing_names_the_topic() {
    let p = plan(SessionOp::Complete, Some(&stored(SessionStatus::Paused))).unwrap();
    assert!(!p.freeze_first);
    assert_eq!(p.settle, Settle::SetStatus(SessionStatus::Completed));
    assert_eq!(p.message, "Completed session: maths");
}

#[test]
fn leaving_a_session_for_another() {
    assert_eq!(leave_for_new(SessionStatus::Running), (true, SessionStatus::Paused));
    assert_eq!(leave_for_new(SessionStatus::OnBreak), (false, SessionStatus::Paused));
    assert_eq!(leave_for_new(SessionStatus::Completed), (false, SessionStatus::Completed));
    assert_eq!(leave_for_previous(SessionStatus::Running), (true, SessionStatus::Paused));
    assert_eq!(leave_for_previous(SessionStatus::OnBreak), (false, SessionStatus::OnBreak));
}

#[test]
fn messages_for_started_resumed_and_break_over() {
    assert_eq!(started_message(&"maths".to_string()), "Started session: maths");
    assert_eq!(resumed_message(&"maths".to_string()), "Resumed session: maths");
    assert_eq!(break_over_message(Some(&"maths".to_string())), "Break over \u{2014} resume maths when ready");
    assert_eq!(break_over_message(None), "Break over \u{2014} resume your session when ready");
}

#[test]
fn normal_mode_keys() {
    assert!(matches!(normal_key(key(KeyCode::Char(':')), None), Some(Action::EnterCommandMode)));
    assert!(matches!(normal_key(key(KeyCode::Char(' ')), Some(SessionStatus::Running)), Some(Action::Pause)));
    assert!(matches!(normal_key(key(KeyCode::Char(' ')), Some(SessionStatus::Paused)), Some(Action::Resume)));
    assert!(matches!(normal_key(key(KeyCode::Char(' ')), None), Some(Action::Resume)));
    assert!(matches!(normal_key(key(KeyCode::Char('b')), None), Some(Action::ToggleBreak(None))));
    assert!(matches!(normal_key(key(KeyCode::Tab), None), Some(Action::OpenSessionList)));
    assert!(matches!(normal_key(key(KeyCode::Char('s')), None), Some(Action::OpenSessionList)));
    assert!(matches!(normal_key(key(KeyCode::Char('q')), None), Some(Action::Quit)));
    assert!(normal_key(key(KeyCode::Char('x')), None).is_none());
}

#[test]
fn keys_route_by_mode() {
    let mut cl = CommandLineComponent::default();
    let mut sl = SessionListComponent::default();
    let mut h = HistoryComponent::default();
    let ctrl_c = KeyPress { code: KeyCode::Char('c'), ctrl: true, alt: false, shift: false };
    assert!(matches!(handle_key(Mode::CommandLine, None, ctrl_c, &mut cl, &mut sl, &mut h), Some(Action::Quit)));
    assert!(handle_key(Mode::CommandLine, None, key(KeyCode::Char('p')), &mut cl, &mut sl, &mut h).is_none());
    assert_eq!(cl.buffer_text(), "p");
    assert!(matches!(
        handle_key(Mode::SessionList, None, key(KeyCode::Tab), &mut cl, &mut sl, &mut h),
        Some(Action::CloseSessionList)
    ));
    assert!(matches!(
        handle_key(Mode::History, None, key(KeyCode::Esc), &mut cl, &mut sl, &mut h),
        Some(Action::CloseHistory)
    ));
    assert!(matches!(
        handle_key(Mode::Normal, None, key(KeyCode::Char('c')), &mut cl, &mut sl, &mut h),
        Some(Action::CompleteSession)
    ));
}

#[test]
fn submitted_text_becomes_a_command_or_an_error_toast() {
    assert!(matches!(submit_command("pause"), Some(Action::ExecuteCommand(Command::Pause))));
    match submit_command("frobnicate") {
        Some(Action::Toast(ToastKind::Error, m)) => assert_eq!(m, "unknown command: frobnicate"),
        other => panic!("unexpected {other:?}"),
    }
    assert!(submit_command("break 99999999999999999h").is_none());
}

#[test]
fn commands_become_actions() {
    assert!(matches!(
        execute_command(Command::Topic("x".to_string())),
        Action::StartSession { topic } if topic == "x"
    ));
    assert!(matches!(execute_command(Command::Sessions), Action::OpenSessionList));
    assert!(matches!(execute_command(Command::Remove(3)), Action::RemoveSession(3)));
    assert!(matches!(execute_command(Command::Discord(false)), Action::SetDiscordEnabled(false)));
}

#[test]
fn toasts_for_outcomes() {
    assert!(matches!(toast_result(Ok("done".to_string())), Action::Toast(ToastKind::Success, m) if m == "done"));
    assert!(matches!(
        toast_result(Err(AppError::InvalidCommand("nope".to_string()))),
        Action::Toast(ToastKind::Error, m) if m == "nope"
    ));
}

#[test]
fn discord_presence_defaults_on() {
    assert!(Config::default().discord_enabled);
}

#[test]
fn submitting_a_line_is_parsing_it_and_keeps_the_mode() {
    for line in ["pause", "topic  rust book ", "break 1h30m", "sessions", "frobnicate", "add x", ""] {
        let answer = submit_command(line).unwrap();
        match (parse(line), &answer) {
            (Ok(c), Action::ExecuteCommand(c2)) => assert_eq!(&c, c2),
            (Err(e), Action::Toast(ToastKind::Error, m)) => assert_eq!(&e.message(), m),
            (p, a) => panic!("{line:?}: parsed {p:?} but answered {a:?}"),
        }
        assert_eq!(mode_after(Mode::CommandLine, &answer), Mode::CommandLine);
        assert_eq!(mode_after(Mode::Normal, &answer), Mode::Normal);
    }
}
