//! The now-playing panel: the last reported track and the text it shows.

use vstd::prelude::*;

use crate::action::Action;
use crate::media::NowPlayingInfo;
use crate::models::{nanos_since, MAX_DURATION_NANOS, NANOS_PER_SEC};
use crate::text::{chars_of, dec, pad_zeros, push_dec, push_dec_padded, string_of};

verus! {

/// `M:SS` for a number of seconds, minutes not capped.
pub open spec fn mmss_text(secs: int) -> Seq<char> {
    dec((secs / 60) as nat) + seq![':'] + pad_zeros(dec((secs % 60) as nat), 2)
}

/// Formats whole seconds as `M:SS`.
pub fn format_mmss(secs: u64) -> (r: String)
    ensures
        r@ == mmss_text(secs as int),
{
    let mut v: Vec<char> = Vec::new();
    push_dec(&mut v, secs / 60);
    v.push(':');
    push_dec_padded(&mut v, secs % 60, 2);
    assert(v@ =~= mmss_text(secs as int));
    string_of(v.as_slice())
}

/// `text` cut to at most `max_chars` characters, the last kept character replaced by an
/// ellipsis when something was cut.
pub open spec fn truncated(text: Seq<char>, max_chars: int) -> Seq<char> {
    if text.len() <= max_chars {
        text
    } else if max_chars == 0 {
        Seq::empty()
    } else {
        text.take(max_chars - 1).push('…')
    }
}

/// Truncates to at most `max_chars` characters, ending in `…` when text was cut.
pub fn truncate(text: &str, max_chars: usize) -> (r: String)
    ensures
        r@ == truncated(text@, max_chars as int),
{
    let v = chars_of(text);
    if v.len() <= max_chars {
        return String::from_str(text);
    }
    if max_chars == 0 {
        return String::new();
    }
    let mut out = crate::text::sub_chars(&v, 0, max_chars - 1);
    out.push('…');
    assert(out@ =~= truncated(text@, max_chars as int));
    string_of(out.as_slice())
}

/// The now-playing panel's state: the last snapshot pushed in from the media backend.
#[derive(Debug)]
pub struct NowPlayingComponent {
    pub current: Option<NowPlayingInfo>,
}

impl NowPlayingComponent {
    pub fn new() -> (r: Self)
        ensures
            r.current is None,
    {
        NowPlayingComponent { current: None }
    }

    /// Takes the latest snapshot from `NowPlayingUpdated`; ignores every other action.
    pub fn handle_action(&mut self, action: &Action) -> (r: Option<Action>)
        ensures
            r is None,
            match action {
                Action::NowPlayingUpdated(info) => final(self).current == *info,
                _ => final(self).current == old(self).current,
            },
    {
        match action {
            Action::NowPlayingUpdated(info) => {
                self.current = match info {
                    Some(i) => Some(i.clone()),
                    None => None,
                };
            },
            _ => {},
        }
        None
    }
}

/// The track position shown, given `measured` nanoseconds since the snapshot was taken: a
/// playing track moves on from the reported position, capped at its length; a paused one stays.
pub open spec fn position_with(info: NowPlayingInfo, measured: int) -> int {
    if info.playing {
        if info.elapsed + measured < info.duration {
            info.elapsed + measured
        } else {
            info.duration as int
        }
    } else {
        info.elapsed as int
    }
}

/// The track position given `measured` nanoseconds since the snapshot.
pub fn position_given(info: &NowPlayingInfo, measured: u128) -> (r: u128)
    requires
        info.elapsed <= MAX_DURATION_NANOS,
        measured <= MAX_DURATION_NANOS,
    ensures
        r == position_with(*info, measured as int),
{
    if info.playing {
        let p = info.elapsed + measured;
        if p < info.duration {
            p
        } else {
            info.duration
        }
    } else {
        info.elapsed
    }
}

/// The track position now, interpolated from the snapshot by the time since it was taken.
pub fn position(info: &NowPlayingInfo) -> (r: u128)
    requires
        info.elapsed <= MAX_DURATION_NANOS,
    ensures
        exists|m: int| 0 <= m <= MAX_DURATION_NANOS && r == position_with(*info, m),
        !info.playing ==> r == info.elapsed,
{
    let m = nanos_since(&info.fetched_at);
    position_given(info, m)
}

/// The title line: a play or pause glyph, a space, and the title cut to the rest of the width.
pub open spec fn title_line_text(info: NowPlayingInfo, width: int) -> Seq<char> {
    (if info.playing { seq!['\u{25b6}'] } else { seq!['\u{23f8}'] }) + seq![' '] + truncated(
        info.title@,
        if width >= 2 { width - 2 } else { 0 },
    )
}

pub fn title_line(info: &NowPlayingInfo, width: usize) -> (r: String)
    ensures
        r@ == title_line_text(*info, width as int),
{
    let mut v: Vec<char> = Vec::new();
    v.push(if info.playing { '\u{25b6}' } else { '\u{23f8}' });
    v.push(' ');
    let t = truncate(info.title.as_str(), if width >= 2 { width - 2 } else { 0 });
    crate::text::push_string(&mut v, &t);
    assert(v@ =~= title_line_text(*info, width as int));
    string_of(v.as_slice())
}

/// The gauge label: position and length as `M:SS/M:SS` (whole seconds).
pub fn gauge_label(position_nanos: u128, duration_nanos: u128) -> (r: String)
    requires
        position_nanos <= MAX_DURATION_NANOS,
        duration_nanos <= MAX_DURATION_NANOS,
    ensures
        r@ == mmss_text((position_nanos / NANOS_PER_SEC) as int) + seq!['/'] + mmss_text(
            (duration_nanos / NANOS_PER_SEC) as int,
        ),
{
    let a = format_mmss((position_nanos / NANOS_PER_SEC) as u64);
    let b = format_mmss((duration_nanos / NANOS_PER_SEC) as u64);
    let mut v: Vec<char> = Vec::new();
    crate::text::push_string(&mut v, &a);
    v.push('/');
    crate::text::push_string(&mut v, &b);
    string_of(v.as_slice())
}

impl Default for NowPlayingComponent {
    fn default() -> (r: Self)
        ensures
            r.current is None,
    {
        Self::new()
    }
}

} // verus!
