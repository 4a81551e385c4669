//! The bottom row: the current mode and its key hints.

use vstd::prelude::*;

use crate::action::Mode;

verus! {

pub open spec fn mode_label_text(mode: Mode) -> Seq<char> {
    match mode {
        Mode::Normal => "NORMAL"@,
        Mode::CommandLine => "COMMAND"@,
        Mode::SessionList => "SESSIONS"@,
        Mode::History => "HISTORY"@,
    }
}

pub open spec fn mode_hints_text(mode: Mode) -> Seq<char> {
    match mode {
        Mode::Normal => "Space pause/resume  p pause  r resume  b break  c complete  Tab sessions  : command  q quit"@,
        Mode::CommandLine => "Enter submit  Esc cancel"@,
        Mode::SessionList => "j/k select  Enter resume  Esc close"@,
        Mode::History => "d daily  w weekly  c cumulative  Esc close"@,
    }
}

/// The mode's name as the status bar shows it.
pub fn mode_label(mode: Mode) -> (r: &'static str)
    ensures
        r@ == mode_label_text(mode),
{
    match mode {
        Mode::Normal => "NORMAL",
        Mode::CommandLine => "COMMAND",
        Mode::SessionList => "SESSIONS",
        Mode::History => "HISTORY",
    }
}

/// The key hints shown for a mode.
pub fn mode_hints(mode: Mode) -> (r: &'static str)
    ensures
        r@ == mode_hints_text(mode),
{
    match mode {
        Mode::Normal => "Space pause/resume  p pause  r resume  b break  c complete  Tab sessions  : command  q quit",
        Mode::CommandLine => "Enter submit  Esc cancel",
        Mode::SessionList => "j/k select  Enter resume  Esc close",
        Mode::History => "d daily  w weekly  c cumulative  Esc close",
    }
}

/// The bottom row: the current mode and its key hints. It has no state of its own.
#[derive(Debug, Default)]
pub struct StatusBar;

impl StatusBar {
    /// The mode's label, padded with a space on each side as the bar shows it.
    pub fn label(mode: Mode) -> (r: String)
        ensures
            r@ == seq![' '] + mode_label_text(mode) + seq![' '],
    {
        let mut v: Vec<char> = Vec::new();
        v.push(' ');
        crate::text::push_str(&mut v, mode_label(mode));
        v.push(' ');
        assert(v@ =~= seq![' '] + mode_label_text(mode) + seq![' ']);
        crate::text::string_of(v.as_slice())
    }

    /// The hints shown for a mode.
    pub fn hints(mode: Mode) -> (r: &'static str)
        ensures
            r@ == mode_hints_text(mode),
    {
        mode_hints(mode)
    }
}

} // verus!
