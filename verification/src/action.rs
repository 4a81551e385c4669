//! The messages flowing through the app's event loop, and which component owns key input.

use vstd::prelude::*;

use crate::calendar::Date;
use crate::commands::Command;
use crate::history::HistoryView;
use crate::media::NowPlayingInfo;
use crate::models::Session;

verus! {

/// Which component currently owns raw key input; keys it does not capture fall through to the
/// global key bindings.
#[derive(Clone, Copy, Debug, PartialEq, Eq, Structural)]
pub enum Mode {
    Normal,
    CommandLine,
    SessionList,
    History,
}

impl Default for Mode {
    fn default() -> (r: Self)
        ensures
            r == Mode::Normal,
    {
        Mode::Normal
    }
}

/// A key, as the components read it.
#[derive(Clone, Copy, Debug, PartialEq, Eq, Structural)]
pub enum KeyCode {
    Char(char),
    Backspace,
    Enter,
    Left,
    Right,
    Up,
    Down,
    Tab,
    BackTab,
    Delete,
    Home,
    End,
    PageUp,
    PageDown,
    F(u8),
    Esc,
    Other,
}

/// A key press: the key and which modifiers were held.
#[derive(Clone, Copy, Debug, PartialEq, Eq, Structural)]
pub struct KeyPress {
    pub code: KeyCode,
    pub ctrl: bool,
    pub alt: bool,
    pub shift: bool,
}

/// The kind of a toast notification.
#[derive(Clone, Copy, Debug, PartialEq, Eq, Structural)]
pub enum ToastKind {
    Info,
    Success,
    Warning,
    Error,
}

/// The single message type of the event loop. Durations are whole seconds.
#[derive(Clone, Debug)]
pub enum Action {
    Tick,
    Key(KeyPress),
    Resize,
    Quit,
    /// Raw text submitted from the command line (leading `:` already stripped).
    SubmitCommand(String),
    /// A command line submission that parsed successfully.
    ExecuteCommand(Command),
    StartSession { topic: String },
    Pause,
    Resume,
    ToggleBreak(Option<u64>),
    CompleteSession,
    ResumePrevious(Option<i64>),
    OpenSessionList,
    CloseSessionList,
    SessionSelected(i64),
    SessionsLoaded(Vec<(i64, Session)>),
    SetSessionDescription { id: Option<i64>, text: String },
    SetSessionTags { id: Option<i64>, tags: Vec<String> },
    OpenHistory(Option<HistoryView>),
    CloseHistory,
    HistoryLoaded(Vec<(Date, i64)>),
    Toast(ToastKind, String),
    NowPlayingUpdated(Option<NowPlayingInfo>),
    EnterCommandMode,
    ExitCommandMode,
    SetDiscordEnabled(bool),
    SetTheme(String),
    AddSession { topic: String, start: crate::calendar::Moment, duration: u64 },
    RemoveSession(i64),
}

} // verus!
