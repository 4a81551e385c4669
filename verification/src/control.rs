//! The decisions of the event loop: which action a key or a command becomes, and what each
//! session command does to the active session. The loop itself, the database writes and the
//! clock reads stay with the caller, which carries out the plans made here.

use vstd::prelude::*;

use crate::action::{Action, KeyCode, KeyPress, Mode, ToastKind};
use crate::commands::{parse_checked, parse_outcome, parse_overflows, parsed_as, command_matches, Command};
use crate::components::command_line::CommandLineComponent;
use crate::components::history::HistoryComponent;
use crate::components::session_list::SessionListComponent;
use crate::errors::{error_message, invalid_message, invalid_with, AppError};
use crate::models::{Session, SessionStatus};
use crate::text::{dec, push_dec, push_str, push_string, string_of};

verus! {

/// A command on the active session.
#[derive(Clone, Copy, Debug, PartialEq, Eq, Structural)]
pub enum SessionOp {
    Pause,
    Resume,
    /// Toggles a break; a duration in seconds makes it a timed break.
    ToggleBreak(Option<u64>),
    Complete,
}

/// How the session ends up once the plan's database writes are done.
#[derive(Clone, Copy, Debug, PartialEq, Eq, Structural)]
pub enum Settle {
    SetStatus(SessionStatus),
    /// Starts a new running segment from now.
    StartRunning,
}

/// What a session command does: freeze the running segment first (recording its per-day
/// split), then settle the session; the message to show; and how long a timed break lasts, if
/// the command starts one.
#[derive(Clone, Debug)]
pub struct Plan {
    pub freeze_first: bool,
    pub settle: Settle,
    pub message: String,
    pub break_secs: Option<u64>,
}

/// Whether a command applies to a session in `status`, and if it does, whether the running
/// segment is frozen first and how the session is settled; if not, the message refusing it.
pub open spec fn op_outcome(op: SessionOp, status: SessionStatus) -> Result<(bool, Settle), Seq<char>> {
    match op {
        SessionOp::Pause => match status {
            SessionStatus::Running => Ok((true, Settle::SetStatus(SessionStatus::Paused))),
            _ => Err("session is not running"@),
        },
        SessionOp::Resume => match status {
            SessionStatus::Running => Err("session is already running"@),
            SessionStatus::Completed => Err("session is already completed"@),
            _ => Ok((false, Settle::StartRunning)),
        },
        SessionOp::ToggleBreak(_) => match status {
            SessionStatus::OnBreak => Ok((false, Settle::StartRunning)),
            SessionStatus::Running => Ok((true, Settle::SetStatus(SessionStatus::OnBreak))),
            SessionStatus::Paused => Ok((false, Settle::SetStatus(SessionStatus::OnBreak))),
            SessionStatus::Completed => Err("session is already completed"@),
        },
        SessionOp::Complete => match status {
            SessionStatus::Completed => Err("session is already completed"@),
            SessionStatus::Running => Ok((true, Settle::SetStatus(SessionStatus::Completed))),
            _ => Ok((false, Settle::SetStatus(SessionStatus::Completed))),
        },
    }
}

/// The status a settle leaves.
pub open spec fn settled_status(s: Settle) -> SessionStatus {
    match s {
        Settle::SetStatus(st) => st,
        Settle::StartRunning => SessionStatus::Running,
    }
}

/// The status after `op` on a session in `status`, if `op` applies.
pub open spec fn status_after(op: SessionOp, status: SessionStatus) -> Option<SessionStatus> {
    match op_outcome(op, status) {
        Ok((_, s)) => Some(settled_status(s)),
        Err(_) => None,
    }
}

/// `h`, `m` and `s` parts of a duration, each only when nonzero, as a break message lists them.
pub open spec fn duration_parts(secs: nat) -> Seq<char> {
    (if secs / 3600 > 0 {
        dec(secs / 3600) + "h "@
    } else {
        Seq::empty()
    }) + (if (secs % 3600) / 60 > 0 {
        dec((secs % 3600) / 60) + "m "@
    } else {
        Seq::empty()
    }) + (if secs % 60 > 0 {
        dec(secs % 60) + "s"@
    } else {
        Seq::empty()
    })
}

/// The message for going on a break, timed or open-ended.
pub open spec fn break_text(duration: Option<u64>) -> Seq<char> {
    match duration {
        Some(d) => "On break for "@ + duration_parts(d as nat),
        None => "On break"@,
    }
}

/// The message a command shows when it applies.
pub open spec fn op_message(op: SessionOp, s: Session) -> Seq<char> {
    match op {
        SessionOp::Pause => "Paused"@,
        SessionOp::Resume => "Resumed"@,
        SessionOp::ToggleBreak(d) => if s.status == SessionStatus::OnBreak {
            "Break ended, resumed"@
        } else {
            break_text(d)
        },
        SessionOp::Complete => "Completed session: "@ + s.topic@,
    }
}

/// The message for going on a break.
pub fn break_message(duration: Option<u64>) -> (r: String)
    ensures
        r@ == break_text(duration),
{
    match duration {
        Some(total_secs) => {
            let hours = total_secs / 3600;
            let minutes = (total_secs % 3600) / 60;
            let seconds = total_secs % 60;
            let mut v: Vec<char> = Vec::new();
            push_str(&mut v, "On break for ");
            let ghost head = v@;
            if hours > 0 {
                push_dec(&mut v, hours);
                push_str(&mut v, "h ");
            }
            let ghost after_h = v@;
            if minutes > 0 {
                push_dec(&mut v, minutes);
                push_str(&mut v, "m ");
            }
            let ghost after_m = v@;
            if seconds > 0 {
                push_dec(&mut v, seconds);
                push_str(&mut v, "s");
            }
            assert(v@ =~= "On break for "@ + duration_parts(total_secs as nat));
            string_of(v.as_slice())
        },
        None => String::from_str("On break"),
    }
}

/// `prefix` followed by `topic`.
fn with_topic(prefix: &str, topic: &String) -> (r: String)
    ensures
        r@ == prefix@ + topic@,
{
    let mut v: Vec<char> = Vec::new();
    push_str(&mut v, prefix);
    push_string(&mut v, topic);
    string_of(v.as_slice())
}

/// Decides what `op` does to the active session, or why it is refused. Nothing changes here;
/// the caller freezes, records, settles and stores as the plan says.
pub fn plan(op: SessionOp, active: Option<&Session>) -> (r: Result<Plan, AppError>)
    ensures
        active is None ==> (r matches Err(e) && invalid_with(e, "no active session"@)),
        active matches Some(s) ==> (match op_outcome(op, s.status) {
            Ok((freeze, settle)) => r matches Ok(p) && {
                &&& p.freeze_first == freeze
                &&& p.settle == settle
                &&& p.message@ == op_message(op, *s)
                &&& p.break_secs == (match op {
                    SessionOp::ToggleBreak(d) => if settled_status(settle) == SessionStatus::OnBreak {
                        d
                    } else {
                        None
                    },
                    _ => None,
                })
            },
            Err(msg) => r matches Err(e) && invalid_with(e, msg),
        }),
{
    let s = match active {
        Some(s) => s,
        None => return Err(invalid_message("no active session")),
    };
    match op {
        SessionOp::Pause => match s.status {
            SessionStatus::Running => Ok(Plan {
                freeze_first: true,
                settle: Settle::SetStatus(SessionStatus::Paused),
                message: String::from_str("Paused"),
                break_secs: None,
            }),
            _ => Err(invalid_message("session is not running")),
        },
        SessionOp::Resume => match s.status {
            SessionStatus::Running => Err(invalid_message("session is already running")),
            SessionStatus::Completed => Err(invalid_message("session is already completed")),
            _ => Ok(Plan {
                freeze_first: false,
                settle: Settle::StartRunning,
                message: String::from_str("Resumed"),
                break_secs: None,
            }),
        },
        SessionOp::ToggleBreak(d) => match s.status {
            SessionStatus::OnBreak => Ok(Plan {
                freeze_first: false,
                settle: Settle::StartRunning,
                message: String::from_str("Break ended, resumed"),
                break_secs: None,
            }),
            SessionStatus::Running => Ok(Plan {
                freeze_first: true,
                settle: Settle::SetStatus(SessionStatus::OnBreak),
                message: break_message(d),
                break_secs: d,
            }),
            SessionStatus::Paused => Ok(Plan {
                freeze_first: false,
                settle: Settle::SetStatus(SessionStatus::OnBreak),
                message: break_message(d),
                break_secs: d,
            }),
            SessionStatus::Completed => Err(invalid_message("session is already completed")),
        },
        SessionOp::Complete => match s.status {
            SessionStatus::Completed => Err(invalid_message("session is already completed")),
            SessionStatus::Running => Ok(Plan {
                freeze_first: true,
                settle: Settle::SetStatus(SessionStatus::Completed),
                message: with_topic("Completed session: ", &s.topic),
                break_secs: None,
            }),
            _ => Ok(Plan {
                freeze_first: false,
                settle: Settle::SetStatus(SessionStatus::Completed),
                message: with_topic("Completed session: ", &s.topic),
                break_secs: None,
            }),
        },
    }
}

/// Settles a session as a plan says, once its writes are done.
pub fn settle(s: &mut Session, how: Settle)
    ensures
        final(s).status == settled_status(how),
        final(s).topic == old(s).topic,
        final(s).started_at == old(s).started_at,
        final(s).elapsed == old(s).elapsed,
        final(s).description == old(s).description,
        final(s).tags == old(s).tags,
        how is SetStatus ==> final(s).running_since == old(s).running_since
            && final(s).running_since_wall == old(s).running_since_wall,
        how is StartRunning ==> final(s).running_since is Some && final(s).running_since_wall is Some,
{
    match how {
        Settle::SetStatus(st) => {
            s.status = st;
        },
        Settle::StartRunning => {
            s.start_running();
        },
    }
}

/// What happens to the active session when a new one starts: a running segment is frozen
/// first, and the session is left paused unless it was completed.
pub open spec fn leave_for_new_spec(status: SessionStatus) -> (bool, SessionStatus) {
    (status == SessionStatus::Running, if status == SessionStatus::Completed {
        SessionStatus::Completed
    } else {
        SessionStatus::Paused
    })
}

pub fn leave_for_new(status: SessionStatus) -> (r: (bool, SessionStatus))
    ensures
        r == leave_for_new_spec(status),
{
    (status == SessionStatus::Running, if status == SessionStatus::Completed {
        SessionStatus::Completed
    } else {
        SessionStatus::Paused
    })
}

/// What happens to the active session when an earlier one is resumed: a running segment is
/// frozen and the session paused; any other session is left as it is.
pub open spec fn leave_for_previous_spec(status: SessionStatus) -> (bool, SessionStatus) {
    if status == SessionStatus::Running {
        (true, SessionStatus::Paused)
    } else {
        (false, status)
    }
}

pub fn leave_for_previous(status: SessionStatus) -> (r: (bool, SessionStatus))
    ensures
        r == leave_for_previous_spec(status),
{
    if status == SessionStatus::Running {
        (true, SessionStatus::Paused)
    } else {
        (false, status)
    }
}

/// The message for a session started on `topic`.
pub fn started_message(topic: &String) -> (r: String)
    ensures
        r@ == "Started session: "@ + topic@,
{
    with_topic("Started session: ", topic)
}

/// The message for an earlier session resumed on `topic`.
pub fn resumed_message(topic: &String) -> (r: String)
    ensures
        r@ == "Resumed session: "@ + topic@,
{
    with_topic("Resumed session: ", topic)
}

/// The error when there is no session to resume.
pub fn no_resumable_session() -> (e: AppError)
    ensures
        invalid_with(e, "no resumable session found"@),
{
    invalid_message("no resumable session found")
}

/// The notice when a timed break runs out.
pub open spec fn break_over_text(topic: Option<Seq<char>>) -> Seq<char> {
    "Break over \u{2014} resume "@ + (match topic {
        Some(t) => t,
        None => "your session"@,
    }) + " when ready"@
}

pub fn break_over_message(topic: Option<&String>) -> (r: String)
    ensures
        r@ == break_over_text(match topic {
            Some(t) => Some(t@),
            None => None,
        }),
{
    let mut v: Vec<char> = Vec::new();
    push_str(&mut v, "Break over \u{2014} resume ");
    match topic {
        Some(t) => push_string(&mut v, t),
        None => push_str(&mut v, "your session"),
    }
    push_str(&mut v, " when ready");
    string_of(v.as_slice())
}

/// A toast for the outcome of a session command.
pub fn toast_result(result: Result<String, AppError>) -> (r: Action)
    ensures
        match result {
            Ok(m) => r == Action::Toast(ToastKind::Success, m),
            Err(e) => r matches Action::Toast(k, m) && k == ToastKind::Error && m@ == error_message(e),
        },
{
    match result {
        Ok(message) => Action::Toast(ToastKind::Success, message),
        Err(err) => Action::Toast(ToastKind::Error, err.message()),
    }
}

/// The action for a key in normal mode, given the active session's status.
pub open spec fn normal_key_spec(code: KeyCode, status: Option<SessionStatus>) -> Option<Action> {
    match code {
        KeyCode::Char(':') => Some(Action::EnterCommandMode),
        KeyCode::Char('p') => Some(Action::Pause),
        KeyCode::Char('r') => Some(Action::Resume),
        KeyCode::Char(' ') => if status == Some(SessionStatus::Running) {
            Some(Action::Pause)
        } else {
            Some(Action::Resume)
        },
        KeyCode::Char('b') => Some(Action::ToggleBreak(None)),
        KeyCode::Char('c') => Some(Action::CompleteSession),
        KeyCode::Tab | KeyCode::Char('s') => Some(Action::OpenSessionList),
        KeyCode::Char('q') => Some(Action::Quit),
        _ => None,
    }
}

pub fn normal_key(key: KeyPress, status: Option<SessionStatus>) -> (r: Option<Action>)
    ensures
        r == normal_key_spec(key.code, status),
{
    match key.code {
        KeyCode::Char(':') => Some(Action::EnterCommandMode),
        KeyCode::Char('p') => Some(Action::Pause),
        KeyCode::Char('r') => Some(Action::Resume),
        KeyCode::Char(' ') => match status {
            Some(SessionStatus::Running) => Some(Action::Pause),
            _ => Some(Action::Resume),
        },
        KeyCode::Char('b') => Some(Action::ToggleBreak(None)),
        KeyCode::Char('c') => Some(Action::CompleteSession),
        KeyCode::Tab | KeyCode::Char('s') => Some(Action::OpenSessionList),
        KeyCode::Char('q') => Some(Action::Quit),
        _ => None,
    }
}

/// Routes a key: Control-C quits from anywhere; otherwise the key goes to whichever panel owns
/// input in `mode`, except that Esc and Tab close the session drawer and the history pane.
pub fn handle_key(
    mode: Mode,
    status: Option<SessionStatus>,
    key: KeyPress,
    command_line: &mut CommandLineComponent,
    session_list: &mut SessionListComponent,
    history: &mut HistoryComponent,
) -> (r: Option<Action>)
    requires
        old(command_line).wf(),
        old(session_list).wf(),
    ensures
        final(command_line).wf(),
        final(session_list).wf(),
        key.ctrl && key.code == KeyCode::Char('c') ==> r == Some(Action::Quit),
        !(key.ctrl && key.code == KeyCode::Char('c')) ==> (match mode {
            Mode::Normal => r == normal_key_spec(key.code, status),
            Mode::CommandLine => crate::components::command_line::key_effect(
                *old(command_line),
                key.code,
                *final(command_line),
                r,
            ),
            Mode::SessionList => if key.code == KeyCode::Esc || key.code == KeyCode::Tab {
                r == Some(Action::CloseSessionList)
            } else {
                crate::components::session_list::key_effect(
                    *old(session_list),
                    key,
                    *final(session_list),
                    r,
                )
            },
            Mode::History => if key.code == KeyCode::Esc || key.code == KeyCode::Tab {
                r == Some(Action::CloseHistory)
            } else {
                r is None
            },
        }),
        mode != Mode::CommandLine || (key.ctrl && key.code == KeyCode::Char('c')) ==> *final(command_line) == *old(command_line),
        mode != Mode::SessionList || (key.ctrl && key.code == KeyCode::Char('c')) || key.code == KeyCode::Esc
            || key.code == KeyCode::Tab ==> *final(session_list) == *old(session_list),
{
    if key.ctrl && key.code == KeyCode::Char('c') {
        return Some(Action::Quit);
    }
    match mode {
        Mode::Normal => normal_key(key, status),
        Mode::CommandLine => command_line.handle_action(&Action::Key(key)),
        Mode::SessionList => {
            if key.code == KeyCode::Esc || key.code == KeyCode::Tab {
                Some(Action::CloseSessionList)
            } else {
                session_list.handle_action(&Action::Key(key))
            }
        },
        Mode::History => {
            if key.code == KeyCode::Esc || key.code == KeyCode::Tab {
                Some(Action::CloseHistory)
            } else {
                history.handle_action(&Action::Key(key))
            }
        },
    }
}

/// The action a parsed command asks for.
pub fn execute_command(cmd: Command) -> (r: Action)
    ensures
        r == (match cmd {
            Command::Topic(topic) => Action::StartSession { topic },
            Command::Pause => Action::Pause,
            Command::Resume => Action::Resume,
            Command::ToggleBreak(d) => Action::ToggleBreak(d),
            Command::ResumePrevious(id) => Action::ResumePrevious(id),
            Command::Sessions => Action::OpenSessionList,
            Command::History(v) => Action::OpenHistory(v),
            Command::Complete => Action::CompleteSession,
            Command::Quit => Action::Quit,
            Command::Discord(on) => Action::SetDiscordEnabled(on),
            Command::Theme(name) => Action::SetTheme(name),
            Command::Add { topic, start, duration } => Action::AddSession { topic, start, duration },
            Command::Remove(id) => Action::RemoveSession(id),
        }),
{
    match cmd {
        Command::Topic(topic) => Action::StartSession { topic },
        Command::Pause => Action::Pause,
        Command::Resume => Action::Resume,
        Command::ToggleBreak(d) => Action::ToggleBreak(d),
        Command::ResumePrevious(id) => Action::ResumePrevious(id),
        Command::Sessions => Action::OpenSessionList,
        Command::History(v) => Action::OpenHistory(v),
        Command::Complete => Action::CompleteSession,
        Command::Quit => Action::Quit,
        Command::Discord(on) => Action::SetDiscordEnabled(on),
        Command::Theme(name) => Action::SetTheme(name),
        Command::Add { topic, start, duration } => Action::AddSession { topic, start, duration },
        Command::Remove(id) => Action::RemoveSession(id),
    }
}

/// `a` is what submitting the command line `text` gives: the command the line's meaning
/// describes, to be executed, or an error toast carrying the message for the line.
pub open spec fn submitted_as(text: Seq<char>, a: Action) -> bool {
    match parse_outcome(text) {
        Ok(cs) => a matches Action::ExecuteCommand(c) && command_matches(c, cs),
        Err(msg) => a matches Action::Toast(k, m) && k == ToastKind::Error && m@ == msg,
    }
}

/// What a submitted command line becomes: the parsed command to execute, or an error toast.
/// `None` when a duration in it is too long to count in seconds.
pub fn submit_command(text: &str) -> (r: Option<Action>)
    ensures
        r is None <==> parse_overflows(text@),
        r matches Some(a) ==> submitted_as(text@, a),
{
    match parse_checked(text) {
        None => None,
        Some(Ok(cmd)) => Some(Action::ExecuteCommand(cmd)),
        Some(Err(err)) => Some(Action::Toast(ToastKind::Error, err.message())),
    }
}

/// The mode after an action: opening the drawer, the history pane or the command line hands
/// key input to it, closing it (or picking a session from the drawer) returns to normal mode,
/// and every other action leaves the mode as it is.
pub open spec fn mode_after_spec(mode: Mode, action: Action) -> Mode {
    match action {
        Action::OpenSessionList => Mode::SessionList,
        Action::CloseSessionList => Mode::Normal,
        Action::SessionSelected(_) => Mode::Normal,
        Action::OpenHistory(_) => Mode::History,
        Action::CloseHistory => Mode::Normal,
        Action::EnterCommandMode => Mode::CommandLine,
        Action::ExitCommandMode => Mode::Normal,
        _ => mode,
    }
}

pub fn mode_after(mode: Mode, action: &Action) -> (r: Mode)
    ensures
        r == mode_after_spec(mode, *action),
{
    match action {
        Action::OpenSessionList => Mode::SessionList,
        Action::CloseSessionList => Mode::Normal,
        Action::SessionSelected(_) => Mode::Normal,
        Action::OpenHistory(_) => Mode::History,
        Action::CloseHistory => Mode::Normal,
        Action::EnterCommandMode => Mode::CommandLine,
        Action::ExitCommandMode => Mode::Normal,
        _ => mode,
    }
}

/// A paused session resumes to running.
pub proof fn law_pause_then_resume()
    ensures
        status_after(SessionOp::Pause, SessionStatus::Running) == Some(SessionStatus::Paused),
        status_after(SessionOp::Resume, SessionStatus::Paused) == Some(SessionStatus::Running),
{
}

/// Toggling a break twice on a running session leaves it running again.
pub proof fn law_break_toggle_round_trip(d1: Option<u64>, d2: Option<u64>)
    ensures
        status_after(SessionOp::ToggleBreak(d1), SessionStatus::Running) == Some(SessionStatus::OnBreak),
        status_after(SessionOp::ToggleBreak(d2), SessionStatus::OnBreak) == Some(SessionStatus::Running),
{
}

/// A completed session accepts no further command.
pub proof fn law_completed_is_final(op: SessionOp)
    ensures
        status_after(op, SessionStatus::Completed) is None,
{
}

/// Running time is banked (frozen and recorded) exactly when a command ends a running segment:
/// only time spent running is counted, never time paused or on a break.
pub proof fn law_freeze_only_ends_running(op: SessionOp, status: SessionStatus)
    requires
        op_outcome(op, status) is Ok,
    ensures
        op_outcome(op, status)->Ok_0.0 <==> (status == SessionStatus::Running
            && settled_status(op_outcome(op, status)->Ok_0.1) != SessionStatus::Running),
{
}

/// Submitting a command line is parsing it: the answer is a command to execute exactly when the
/// line parses, and then the command is described by the same meaning of the line as the parsed
/// one; otherwise it is an error toast carrying the parse error's message. Either way the
/// key-input mode stays as it was.
pub proof fn law_submit_is_parse(
    mode: Mode,
    text: Seq<char>,
    parsed: Result<Command, AppError>,
    answer: Action,
)
    requires
        parsed_as(text, parsed),
        submitted_as(text, answer),
    ensures
        parsed is Ok <==> answer is ExecuteCommand,
        parsed matches Ok(c) ==> answer matches Action::ExecuteCommand(c2)
            && command_matches(c, parse_outcome(text)->Ok_0)
            && command_matches(c2, parse_outcome(text)->Ok_0),
        parsed matches Err(e) ==> answer matches Action::Toast(k, m)
            && k == ToastKind::Error && m@ == error_message(e),
        mode_after_spec(mode, answer) == mode,
{
}

/// Parsing the same line twice gives the same answer: both parse or both fail, two failures
/// carry the same message, and two commands are described by the same meaning of the line.
pub proof fn law_parse_same_line(text: Seq<char>, r1: Result<Command, AppError>, r2: Result<Command, AppError>)
    requires
        parsed_as(text, r1),
        parsed_as(text, r2),
    ensures
        r1 is Ok <==> r2 is Ok,
        r1 is Err ==> error_message(r1->Err_0) == error_message(r2->Err_0),
        r1 is Ok ==> command_matches(r1->Ok_0, parse_outcome(text)->Ok_0)
            && command_matches(r2->Ok_0, parse_outcome(text)->Ok_0),
{
}

/// Completing a session that is not yet completed always ends it completed, freezing its
/// running segment exactly when it was running; a completed session refuses the command.
pub proof fn law_complete_ends_completed(status: SessionStatus)
    ensures
        status != SessionStatus::Completed ==> {
            &&& status_after(SessionOp::Complete, status) == Some(SessionStatus::Completed)
            &&& op_outcome(SessionOp::Complete, status) == Ok::<(bool, Settle), Seq<char>>(
                (status == SessionStatus::Running, Settle::SetStatus(SessionStatus::Completed)),
            )
        },
        status == SessionStatus::Completed ==> status_after(SessionOp::Complete, status) is None,
{
}

/// What each session command leaves, by the status it finds: pausing needs a running session
/// and leaves it paused; resuming needs a paused session or one on a break and leaves it
/// running; a break starts from a running or paused session and ends on a running one; no
/// command applies to a completed session except to be refused.
pub proof fn law_command_statuses(status: SessionStatus, d: Option<u64>)
    ensures
        status_after(SessionOp::Pause, status) == (if status == SessionStatus::Running {
            Some(SessionStatus::Paused)
        } else {
            None::<SessionStatus>
        }),
        status_after(SessionOp::Resume, status) == (if status == SessionStatus::Paused || status
            == SessionStatus::OnBreak {
            Some(SessionStatus::Running)
        } else {
            None::<SessionStatus>
        }),
        status_after(SessionOp::ToggleBreak(d), status) == (if status == SessionStatus::OnBreak {
            Some(SessionStatus::Running)
        } else if status == SessionStatus::Completed {
            None::<SessionStatus>
        } else {
            Some(SessionStatus::OnBreak)
        }),
{
}

/// Starting a new session leaves the previous one completed exactly when it already was, and
/// paused otherwise (so a paused or interrupted session stays resumable); its running segment
/// is frozen exactly when it was running.
pub proof fn law_new_session_leaves_previous_resumable(status: SessionStatus)
    ensures
        leave_for_new_spec(status).0 <==> status == SessionStatus::Running,
        leave_for_new_spec(status).1 == SessionStatus::Completed <==> status == SessionStatus::Completed,
        status != SessionStatus::Completed ==> leave_for_new_spec(status).1 == SessionStatus::Paused,
{
}

/// Resuming an earlier session pauses a running active session (freezing its segment) and
/// leaves an active session in any other status as it was.
pub proof fn law_resume_previous_pauses_running(status: SessionStatus)
    ensures
        leave_for_previous_spec(status).0 <==> status == SessionStatus::Running,
        status == SessionStatus::Running ==> leave_for_previous_spec(status).1 == SessionStatus::Paused,
        status != SessionStatus::Running ==> leave_for_previous_spec(status).1 == status,
{
}

/// The normal-mode shortcuts, whatever the active session's status: `p` pauses, `r` resumes,
/// `b` toggles a break, `c` completes, `:` opens the command line, Tab or `s` the session list
/// and `q` quits; the space bar pauses a running session and resumes any other.
pub proof fn law_normal_keys(status: Option<SessionStatus>)
    ensures
        normal_key_spec(KeyCode::Char('p'), status) == Some(Action::Pause),
        normal_key_spec(KeyCode::Char('r'), status) == Some(Action::Resume),
        normal_key_spec(KeyCode::Char('b'), status) == Some(Action::ToggleBreak(None)),
        normal_key_spec(KeyCode::Char('c'), status) == Some(Action::CompleteSession),
        normal_key_spec(KeyCode::Char(':'), status) == Some(Action::EnterCommandMode),
        normal_key_spec(KeyCode::Tab, status) == Some(Action::OpenSessionList),
        normal_key_spec(KeyCode::Char('s'), status) == Some(Action::OpenSessionList),
        normal_key_spec(KeyCode::Char('q'), status) == Some(Action::Quit),
        normal_key_spec(KeyCode::Char(' '), status) == (if status == Some(SessionStatus::Running) {
            Some(Action::Pause)
        } else {
            Some(Action::Resume)
        }),
        forall|c: char|
            !(c == 'p' || c == 'r' || c == 'b' || c == 'c' || c == ':' || c == 's' || c == 'q' || c
                == ' ') ==> #[trigger] normal_key_spec(KeyCode::Char(c), status) is None,
        normal_key_spec(KeyCode::Enter, status) is None,
        normal_key_spec(KeyCode::Esc, status) is None,
{
}

/// The message each applied command shows: "Paused", "Resumed", "Break ended, resumed" when a
/// break ends, "On break" or "On break for ..." when one starts, and "Completed session: "
/// followed by the topic.
pub proof fn law_command_messages(s: Session, d: Option<u64>)
    ensures
        op_message(SessionOp::Pause, s) == "Paused"@,
        op_message(SessionOp::Resume, s) == "Resumed"@,
        op_message(SessionOp::Complete, s) == "Completed session: "@ + s.topic@,
        s.status == SessionStatus::OnBreak ==> op_message(SessionOp::ToggleBreak(d), s)
            == "Break ended, resumed"@,
        s.status != SessionStatus::OnBreak && d is None ==> op_message(SessionOp::ToggleBreak(d), s)
            == "On break"@,
        s.status != SessionStatus::OnBreak && d is Some ==> op_message(SessionOp::ToggleBreak(d), s)
            == "On break for "@ + duration_parts(d->0 as nat),
{
}

} // verus!
