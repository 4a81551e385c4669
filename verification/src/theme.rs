//! Color palettes: which color each session status, accent and heatmap level is drawn in, and
//! the built-in palettes by name.

use vstd::prelude::*;

use crate::models::SessionStatus;
use crate::text::chars_eq;

verus! {

/// A terminal color, as the palettes name them.
#[derive(Clone, Copy, Debug, PartialEq, Eq, Structural)]
pub enum Color {
    Reset,
    Black,
    Red,
    Green,
    Yellow,
    Blue,
    Magenta,
    Cyan,
    Gray,
    DarkGray,
    LightRed,
    LightGreen,
    LightYellow,
    LightBlue,
    LightMagenta,
    LightCyan,
    White,
    Rgb(u8, u8, u8),
    Indexed(u8),
}

/// A color palette applied across every panel, named by what each color is for.
#[derive(Clone, Copy, Debug)]
pub struct Theme {
    /// The whole-screen background; `Reset` leaves the terminal's own background showing.
    pub background: Color,
    pub running: Color,
    pub paused: Color,
    pub on_break: Color,
    pub completed: Color,
    pub accent: Color,
    pub panel_bg: Color,
    pub gauge_filled: Color,
    pub gauge_unfilled: Color,
    pub heatmap_ramp: [Color; 5],
}

/// The heatmap level a ramp index stands for: levels past the ramp's end use its last color.
pub open spec fn ramp_index(level: u8) -> int {
    if level < 4 {
        level as int
    } else {
        4
    }
}

impl Theme {
    /// The color of a session status.
    pub fn status_color(&self, status: SessionStatus) -> (r: Color)
        ensures
            r == (match status {
                SessionStatus::Running => self.running,
                SessionStatus::Paused => self.paused,
                SessionStatus::OnBreak => self.on_break,
                SessionStatus::Completed => self.completed,
            }),
    {
        match status {
            SessionStatus::Running => self.running,
            SessionStatus::Paused => self.paused,
            SessionStatus::OnBreak => self.on_break,
            SessionStatus::Completed => self.completed,
        }
    }

    /// The color of a heatmap level; levels beyond the ramp clamp to its last color.
    pub fn heatmap_color(&self, level: u8) -> (r: Color)
        ensures
            r == self.heatmap_ramp@[ramp_index(level)],
    {
        let i: usize = if level < 4 { level as usize } else { 4 };
        self.heatmap_ramp[i]
    }
}

/// The default palette: green, yellow, cyan and grey for the statuses, cyan accents, a
/// dark-grey-to-cyan heatmap ramp, and the terminal's own background.
pub open spec fn default_palette() -> Theme {
    Theme {
        background: Color::Reset,
        running: Color::Green,
        paused: Color::Yellow,
        on_break: Color::Cyan,
        completed: Color::DarkGray,
        accent: Color::Cyan,
        panel_bg: Color::Rgb(74, 74, 74),
        gauge_filled: Color::White,
        gauge_unfilled: Color::Gray,
        heatmap_ramp: [
            Color::DarkGray,
            Color::Rgb(38, 70, 73),
            Color::Rgb(21, 110, 115),
            Color::Rgb(13, 150, 158),
            Color::Cyan,
        ],
    }
}

pub fn default_theme() -> (r: Theme)
    ensures
        r == default_palette(),
{
    Theme {
        background: Color::Reset,
        running: Color::Green,
        paused: Color::Yellow,
        on_break: Color::Cyan,
        completed: Color::DarkGray,
        accent: Color::Cyan,
        panel_bg: Color::Rgb(74, 74, 74),
        gauge_filled: Color::White,
        gauge_unfilled: Color::Gray,
        heatmap_ramp: [
            Color::DarkGray,
            Color::Rgb(38, 70, 73),
            Color::Rgb(21, 110, 115),
            Color::Rgb(13, 150, 158),
            Color::Cyan,
        ],
    }
}

/// A warmer, Solarized-inspired palette.
pub open spec fn solarized_palette() -> Theme {
    Theme {
        background: Color::Rgb(0, 43, 54),
        running: Color::Rgb(133, 153, 0),
        paused: Color::Rgb(181, 137, 0),
        on_break: Color::Rgb(38, 139, 210),
        completed: Color::Rgb(88, 110, 117),
        accent: Color::Rgb(42, 161, 152),
        panel_bg: Color::Rgb(7, 54, 66),
        gauge_filled: Color::Rgb(238, 232, 213),
        gauge_unfilled: Color::Rgb(88, 110, 117),
        heatmap_ramp: [
            Color::Rgb(7, 54, 66),
            Color::Rgb(0, 68, 68),
            Color::Rgb(0, 95, 95),
            Color::Rgb(20, 130, 130),
            Color::Rgb(42, 161, 152),
        ],
    }
}

pub fn solarized_theme() -> (r: Theme)
    ensures
        r == solarized_palette(),
{
    Theme {
        background: Color::Rgb(0, 43, 54),
        running: Color::Rgb(133, 153, 0),
        paused: Color::Rgb(181, 137, 0),
        on_break: Color::Rgb(38, 139, 210),
        completed: Color::Rgb(88, 110, 117),
        accent: Color::Rgb(42, 161, 152),
        panel_bg: Color::Rgb(7, 54, 66),
        gauge_filled: Color::Rgb(238, 232, 213),
        gauge_unfilled: Color::Rgb(88, 110, 117),
        heatmap_ramp: [
            Color::Rgb(7, 54, 66),
            Color::Rgb(0, 68, 68),
            Color::Rgb(0, 95, 95),
            Color::Rgb(20, 130, 130),
            Color::Rgb(42, 161, 152),
        ],
    }
}

/// A minimal greyscale palette for terminals with limited color support.
pub open spec fn mono_palette() -> Theme {
    Theme {
        background: Color::Reset,
        running: Color::White,
        paused: Color::Gray,
        on_break: Color::Gray,
        completed: Color::DarkGray,
        accent: Color::White,
        panel_bg: Color::Black,
        gauge_filled: Color::White,
        gauge_unfilled: Color::DarkGray,
        heatmap_ramp: [Color::Black, Color::DarkGray, Color::Gray, Color::White, Color::White],
    }
}

pub fn mono_theme() -> (r: Theme)
    ensures
        r == mono_palette(),
{
    Theme {
        background: Color::Reset,
        running: Color::White,
        paused: Color::Gray,
        on_break: Color::Gray,
        completed: Color::DarkGray,
        accent: Color::White,
        panel_bg: Color::Black,
        gauge_filled: Color::White,
        gauge_unfilled: Color::DarkGray,
        heatmap_ramp: [Color::Black, Color::DarkGray, Color::Gray, Color::White, Color::White],
    }
}

/// The built-in palette names.
pub fn names() -> (r: Vec<&'static str>)
    ensures
        r@.len() == 3,
        r@[0]@ == "default"@,
        r@[1]@ == "solarized"@,
        r@[2]@ == "mono"@,
{
    vec!["default", "solarized", "mono"]
}

/// Looks up a built-in palette by name.
pub fn by_name(name: &str) -> (r: Option<Theme>)
    ensures
        r == (if name@ == "default"@ {
            Some(default_palette())
        } else if name@ == "solarized"@ {
            Some(solarized_palette())
        } else if name@ == "mono"@ {
            Some(mono_palette())
        } else {
            None::<Theme>
        }),
{
    let v = crate::text::chars_of(name);
    if chars_eq(&v, "default") {
        Some(default_theme())
    } else if chars_eq(&v, "solarized") {
        Some(solarized_theme())
    } else if chars_eq(&v, "mono") {
        Some(mono_theme())
    } else {
        None
    }
}

} // verus!
