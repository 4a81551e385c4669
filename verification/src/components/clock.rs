//! The wall-clock readout in the top-left corner.

use vstd::prelude::*;
use vstd::arithmetic::div_mod::{lemma_fundamental_div_mod, lemma_fundamental_div_mod_converse};

use crate::calendar::{local_nanos, now_local, Moment, NANOS_PER_DAY, NANOS_PER_SECOND};
use crate::components::timer::{format_hms, hms_text};

verus! {

/// Whole seconds since local midnight.
pub open spec fn seconds_of_day(m: Moment) -> int {
    (local_nanos(m.nanos(), m.offset()) % (NANOS_PER_DAY as int)) / (NANOS_PER_SECOND as int)
}

/// The local time of day of a moment as `HH:MM:SS`.
pub fn clock_text(m: Moment) -> (r: String)
    ensures
        r@ == hms_text(seconds_of_day(m)),
        0 <= seconds_of_day(m) < 86_400,
{
    let unix = m.unix_timestamp_nanos();
    let off = m.offset_seconds();
    let local: i128 = unix + (off as i128) * NANOS_PER_SECOND;
    let shift: i128 = 10_000_000 * NANOS_PER_DAY;
    let shifted: u128 = (local + shift) as u128;
    let q: u128 = shifted / (NANOS_PER_DAY as u128);
    let rem: u128 = shifted % (NANOS_PER_DAY as u128);
    proof {
        lemma_fundamental_div_mod(shifted as int, NANOS_PER_DAY as int);
        lemma_fundamental_div_mod_converse(
            local as int,
            NANOS_PER_DAY as int,
            q as int - 10_000_000,
            rem as int,
        );
    }
    let secs: u64 = (rem / (NANOS_PER_SECOND as u128)) as u64;
    format_hms(secs)
}

/// The live clock panel; it has no state, it reads the clock when drawn.
#[derive(Debug, Default)]
pub struct ClockComponent;

impl ClockComponent {
    /// The current local time as `HH:MM:SS`.
    pub fn text(&self) -> (r: String)
        ensures
            exists|m: Moment| r@ == hms_text(seconds_of_day(m)),
    {
        let now = now_local();
        clock_text(now)
    }
}

} // verus!
