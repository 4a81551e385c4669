//! The session stopwatch panel's text.

use vstd::prelude::*;

use crate::models::SessionStatus;
use crate::theme::Color;
use crate::text::{dec, pad_zeros, push_dec_padded, string_of};

verus! {

/// `HH:MM:SS` for a number of seconds, hours not capped at two digits.
pub open spec fn hms_text(secs: int) -> Seq<char> {
    pad_zeros(dec((secs / 3600) as nat), 2) + seq![':'] + pad_zeros(dec(((secs % 3600) / 60) as nat), 2)
        + seq![':'] + pad_zeros(dec((secs % 60) as nat), 2)
}

/// Formats whole seconds as `HH:MM:SS`.
pub fn format_hms(secs: u64) -> (r: String)
    ensures
        r@ == hms_text(secs as int),
{
    let mut v: Vec<char> = Vec::new();
    push_dec_padded(&mut v, secs / 3600, 2);
    v.push(':');
    push_dec_padded(&mut v, (secs % 3600) / 60, 2);
    v.push(':');
    push_dec_padded(&mut v, secs % 60, 2);
    assert(v@ =~= hms_text(secs as int));
    string_of(v.as_slice())
}

} // verus!

verus! {

/// How the stopwatch panel names a status.
pub open spec fn timer_status_text(s: SessionStatus) -> Seq<char> {
    match s {
        SessionStatus::Running => "Running"@,
        SessionStatus::Paused => "Paused"@,
        SessionStatus::OnBreak => "On break"@,
        SessionStatus::Completed => "Completed"@,
    }
}

/// The session stopwatch panel: topic, elapsed time and status of the active session. It has
/// no state of its own; it shows what it is given.
#[derive(Debug, Default)]
pub struct TimerComponent;

impl TimerComponent {
    /// The status line under the digits.
    pub fn status_text(status: SessionStatus) -> (r: &'static str)
        ensures
            r@ == timer_status_text(status),
    {
        match status {
            SessionStatus::Running => "Running",
            SessionStatus::Paused => "Paused",
            SessionStatus::OnBreak => "On break",
            SessionStatus::Completed => "Completed",
        }
    }

    /// The color the digits and the status line are drawn in.
    pub fn status_color(status: SessionStatus) -> (r: Color)
        ensures
            r == (match status {
                SessionStatus::Running => Color::Green,
                SessionStatus::Paused => Color::Yellow,
                SessionStatus::OnBreak => Color::Cyan,
                SessionStatus::Completed => Color::DarkGray,
            }),
    {
        match status {
            SessionStatus::Running => Color::Green,
            SessionStatus::Paused => Color::Yellow,
            SessionStatus::OnBreak => Color::Cyan,
            SessionStatus::Completed => Color::DarkGray,
        }
    }

    /// The digits shown: the elapsed time as `HH:MM:SS`, or zeros with no active session.
    pub fn digits(elapsed_secs: Option<u64>) -> (r: String)
        ensures
            r@ == hms_text(match elapsed_secs {
                Some(s) => s as int,
                None => 0,
            }),
    {
        match elapsed_secs {
            Some(s) => format_hms(s),
            None => format_hms(0),
        }
    }
}

} // verus!
