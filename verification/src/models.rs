//! Sessions and their statuses, and the per-calendar-day split of running time.

use vstd::prelude::*;
use vstd::arithmetic::div_mod::{lemma_div_is_ordered, lemma_fundamental_div_mod, lemma_fundamental_div_mod_converse};

use crate::calendar::{
    parse_rfc3339, rfc3339_parsed, julian_in_range, julian_of_local_nanos, local_nanos, moment_nanos_at, now_local, Date, Moment,
    MAX_JULIAN_DAY,
};
use crate::errors::{invalid_command, invalid_with, AppError};
use crate::text::{chars_of, chars_eq};

verus! {

#[derive(Clone, Debug, PartialEq, Eq)]
pub struct Topic {
    pub id: i64,
    pub name: String,
}

#[derive(Clone, Copy, Debug, PartialEq, Eq, Structural)]
pub enum SessionStatus {
    Running,
    Paused,
    OnBreak,
    Completed,
}

/// The name a status is stored under.
pub open spec fn status_name(s: SessionStatus) -> Seq<char> {
    match s {
        SessionStatus::Running => "running"@,
        SessionStatus::Paused => "paused"@,
        SessionStatus::OnBreak => "on_break"@,
        SessionStatus::Completed => "completed"@,
    }
}

/// The status stored under a name, if any.
pub open spec fn status_named(s: Seq<char>) -> Option<SessionStatus> {
    if s == "running"@ {
        Some(SessionStatus::Running)
    } else if s == "paused"@ {
        Some(SessionStatus::Paused)
    } else if s == "on_break"@ {
        Some(SessionStatus::OnBreak)
    } else if s == "completed"@ {
        Some(SessionStatus::Completed)
    } else {
        None
    }
}

impl SessionStatus {
    pub fn as_str(self) -> (r: &'static str)
        ensures
            r@ == status_name(self),
    {
        match self {
            SessionStatus::Running => "running",
            SessionStatus::Paused => "paused",
            SessionStatus::OnBreak => "on_break",
            SessionStatus::Completed => "completed",
        }
    }

    /// Reads a stored status name.
    pub fn parse(s: &str) -> (r: Result<SessionStatus, AppError>)
        ensures
            match status_named(s@) {
                Some(st) => r == Ok::<SessionStatus, AppError>(st),
                None => r matches Err(e) && invalid_with(
                    e,
                    "unknown session status stored in database: "@ + s@,
                ),
            },
    {
        let v = chars_of(s);
        if chars_eq(&v, "running") {
            Ok(SessionStatus::Running)
        } else if chars_eq(&v, "paused") {
            Ok(SessionStatus::Paused)
        } else if chars_eq(&v, "on_break") {
            Ok(SessionStatus::OnBreak)
        } else if chars_eq(&v, "completed") {
            Ok(SessionStatus::Completed)
        } else {
            Err(invalid_command("unknown session status stored in database: ", &v))
        }
    }
}

/// Unix nanoseconds of the local midnight that starts Julian day `j` at UTC offset `off`.
pub open spec fn midnight_nanos(j: int, off: int) -> int {
    moment_nanos_at(j, 0, 0, 0, off)
}

/// Julian day of the local date of `nanos` seen at offset `off`.
pub open spec fn local_day(nanos: int, off: int) -> int {
    julian_of_local_nanos(local_nanos(nanos, off))
}

/// Nanoseconds in a day, as an integer.
pub open spec fn nanos_per_day_int() -> int {
    crate::calendar::NANOS_PER_DAY as int
}

pub open spec fn abs(x: int) -> int {
    if x < 0 {
        -x
    } else {
        x
    }
}

pub proof fn lemma_midnight_day(j: int, off: int)
    ensures
        local_day(midnight_nanos(j, off), off) == j,
{
    let l = local_nanos(midnight_nanos(j, off), off);
    assert(l == (j - crate::calendar::UNIX_EPOCH_JULIAN_DAY) * crate::calendar::NANOS_PER_DAY);
    lemma_fundamental_div_mod_converse(
        l,
        crate::calendar::NANOS_PER_DAY as int,
        j - crate::calendar::UNIX_EPOCH_JULIAN_DAY,
        0,
    );
}

/// The per-day chunks of the time from `cursor` (seen at offset `off`) up to `to`: one chunk
/// up to each local midnight before `to`'s local date, then the rest.
pub open spec fn day_chunks(cursor: int, off: int, to_nanos: int, to_day: int) -> Seq<(int, int)>
    decreases to_day - local_day(cursor, off),
{
    let d = local_day(cursor, off);
    if d < to_day {
        let next = midnight_nanos(d + 1, off);
        proof {
            lemma_midnight_day(d + 1, off);
        }
        seq![(d, next - cursor)] + day_chunks(next, off, to_nanos, to_day)
    } else {
        seq![(d, abs(to_nanos - cursor))]
    }
}

/// `split_by_day(from, to)` as `(Julian day, nanoseconds)` pairs.
pub open spec fn day_split(from: Moment, to: Moment) -> Seq<(int, int)> {
    if to.nanos() <= from.nanos() {
        Seq::empty()
    } else {
        day_chunks(from.nanos(), from.offset(), to.nanos(), to.local_jd())
    }
}

/// A split as `(Julian day, nanoseconds)` pairs.
pub open spec fn split_view(s: Seq<(Date, u128)>) -> Seq<(int, int)> {
    s.map_values(|p: (Date, u128)| (p.0.jd(), p.1 as int))
}

/// Splits the interval `[from, to)` into per-local-calendar-day chunks, each paired with the
/// date it falls on (local to `from`'s offset, `to`'s date bounding the walk). One entry unless
/// the interval crosses a midnight; empty if `to` is not after `from`. Durations are in
/// nanoseconds.
pub fn split_by_day(from: Moment, to: Moment) -> (r: Vec<(Date, u128)>)
    ensures
        split_view(r@) == day_split(from, to),
{
    let mut splits: Vec<(Date, u128)> = Vec::new();
    if to.unix_timestamp_nanos() <= from.unix_timestamp_nanos() {
        assert(split_view(splits@) =~= Seq::<(int, int)>::empty());
        return splits;
    }
    let to_day = to.date();
    let to_j = to_day.julian_day();
    let off = from.offset_seconds();
    let mut cursor = from;
    let ghost full = day_split(from, to);
    while cursor.date().julian_day() < to_j
        invariant
            to_j == to.local_jd(),
            julian_in_range(to_j as int),
            off == from.offset(),
            -crate::calendar::MAX_OFFSET_SECONDS <= off <= crate::calendar::MAX_OFFSET_SECONDS,
            cursor.offset() == off,
            full == day_split(from, to),
            full == split_view(splits@) + day_chunks(cursor.nanos(), off as int, to.nanos(), to_j as int),
        decreases to_j - cursor.local_jd(),
    {
        let day = cursor.date();
        let j = day.julian_day();
        proof {
            assert(cursor.local_jd() == local_day(cursor.nanos(), off as int));
        }
        let next_day = day.add_days(1);
        let next_midnight = Moment::at(next_day, 0, 0, 0, off);
        let span: i128 = next_midnight.unix_timestamp_nanos() - cursor.unix_timestamp_nanos();
        proof {
            lemma_fundamental_div_mod_converse(
                local_nanos(cursor.nanos(), off as int),
                crate::calendar::NANOS_PER_DAY as int,
                j - crate::calendar::UNIX_EPOCH_JULIAN_DAY,
                local_nanos(cursor.nanos(), off as int) - (j - crate::calendar::UNIX_EPOCH_JULIAN_DAY) * crate::calendar::NANOS_PER_DAY,
            );
            vstd::arithmetic::div_mod::lemma_fundamental_div_mod(local_nanos(cursor.nanos(), off as int), crate::calendar::NANOS_PER_DAY as int);
            assert(span > 0);
        }
        let ghost old_view = split_view(splits@);
        splits.push((day, span as u128));
        proof {
            assert(split_view(splits@) =~= old_view + seq![(j as int, span as int)]);
            assert(split_view(splits@) + day_chunks(next_midnight.nanos(), off as int, to.nanos(), to_j as int) =~= old_view + (seq![(j as int, span as int)] + day_chunks(next_midnight.nanos(), off as int, to.nanos(), to_j as int)));
        }
        cursor = next_midnight;
    }
    let last = cursor.date();
    let diff: i128 = to.unix_timestamp_nanos() - cursor.unix_timestamp_nanos();
    let mag: u128 = if diff < 0 {
        (-diff) as u128
    } else {
        diff as u128
    };
    let ghost old_view = split_view(splits@);
    splits.push((last, mag));
    proof {
        assert(split_view(splits@) =~= old_view + seq![(last.jd(), mag as int)]);
    }
    splits
}

#[verifier::external_type_specification]
#[verifier::external_body]
pub struct ExInstant(std::time::Instant);

/// `Instant::clone`. Trusted: `Instant` is `Copy`, so a clone is the same instant.
pub assume_specification[ <std::time::Instant as Clone>::clone ](i: &std::time::Instant) -> (r: std::time::Instant)
    ensures
        r == *i,
;

/// `Instant::now()`. Trusted with no claim: the reading depends on the clock.
#[verifier::external_body]
fn monotonic_now() -> (r: std::time::Instant) {
    std::time::Instant::now()
}

/// `since.elapsed()` in nanoseconds. Trusted: a `Duration` holds at most `u64::MAX` seconds
/// plus under one second, so the count is below `MAX_DURATION_NANOS`; its value depends on the
/// clock.
#[verifier::external_body]
pub(crate) fn nanos_since(since: &std::time::Instant) -> (r: u128)
    ensures
        r <= MAX_DURATION_NANOS,
{
    since.elapsed().as_nanos()
}

/// The most nanoseconds a `std::time::Duration` holds.
pub const MAX_DURATION_NANOS: u128 = 18_446_744_073_709_551_615_999_999_999;

pub const NANOS_PER_SEC: u128 = 1_000_000_000;

/// A work session in memory. `running_since` is the monotonic anchor of the current running
/// segment and `running_since_wall` its wall-clock counterpart, which attributes the segment to
/// calendar days. Neither is persisted; `elapsed` (in nanoseconds) is.
#[derive(Clone, Debug)]
pub struct Session {
    pub topic: String,
    pub started_at: Moment,
    /// Running time accrued before the current segment, in nanoseconds.
    pub elapsed: u128,
    pub status: SessionStatus,
    pub running_since: Option<std::time::Instant>,
    pub running_since_wall: Option<Moment>,
    pub description: Option<String>,
    pub tags: Vec<String>,
}

/// The live running time given `measured` nanoseconds since the monotonic anchor: the
/// anchor's time counts only while the session is running.
pub open spec fn live_elapsed_with(s: Session, measured: int) -> int {
    if s.running_since is Some && s.status == SessionStatus::Running {
        s.elapsed + measured
    } else {
        s.elapsed as int
    }
}

/// The live running time is the stored time plus the time measured on the running segment:
/// for a session running from a monotonic anchor it is exactly `elapsed + measured`, so it
/// grows with the measurement and exceeds the stored time once any time is measured; a paused
/// session, one on a break or a completed one counts only its stored time, whatever is measured.
pub proof fn law_live_time_counts_running_segment(s: Session, m1: int, m2: int)
    ensures
        s.running_since is Some && s.status == SessionStatus::Running ==> {
            &&& live_elapsed_with(s, m1) == s.elapsed + m1
            &&& m1 > 0 ==> live_elapsed_with(s, m1) > s.elapsed
            &&& m1 <= m2 ==> live_elapsed_with(s, m1) <= live_elapsed_with(s, m2)
        },
        s.status != SessionStatus::Running || s.running_since is None ==> live_elapsed_with(s, m1)
            == s.elapsed,
{
}

/// The session is running from a monotonic anchor, so its live time grows.
pub open spec fn accrues(s: Session) -> bool {
    s.running_since is Some && s.status == SessionStatus::Running
}

/// Adding a measured stretch (at most what a `Duration` holds) to a running session's time
/// stays within `u128`.
pub open spec fn room_to_accrue(s: Session) -> bool {
    accrues(s) ==> s.elapsed <= u128::MAX - MAX_DURATION_NANOS
}

/// A frozen session no longer accrues: its live time is its stored time whatever the clock
/// says, so freezing it again keeps its time and returns no split (see `Session::freeze`).
pub proof fn law_frozen_session_is_idle(s: Session, measured: int)
    requires
        s.running_since is None,
        s.running_since_wall is None,
    ensures
        live_elapsed_with(s, measured) == s.elapsed,
        room_to_accrue(s),
        !(s.running_since_wall is Some && s.status == SessionStatus::Running),
{
}

/// `new` and `split` are what freezing `old` gives, for some reading of the clocks: the stored
/// time becomes the live time (at most `MAX_DURATION_NANOS` of running time added, none unless
/// the session was running with a monotonic anchor), both anchors are cleared, the rest of the
/// session is kept, and the split is the day split of the running segment up to "now" when the
/// session was running with a wall-clock anchor, and empty otherwise.
pub open spec fn froze(old: Session, new: Session, split: Seq<(Date, u128)>) -> bool {
    &&& room_to_accrue(new)
    &&& old.elapsed <= new.elapsed <= old.elapsed + MAX_DURATION_NANOS
    &&& new.topic == old.topic
    &&& new.started_at == old.started_at
    &&& new.status == old.status
    &&& new.description == old.description
    &&& new.tags == old.tags
    &&& new.running_since is None
    &&& new.running_since_wall is None
    &&& exists|m: int| 0 <= m <= MAX_DURATION_NANOS && new.elapsed == live_elapsed_with(old, m)
    &&& !(old.running_since is Some && old.status == SessionStatus::Running) ==> new.elapsed
        == old.elapsed
    &&& (old.running_since_wall is Some && old.status == SessionStatus::Running) ==> exists|
        now: Moment,
    | split_view(split) == day_split(old.running_since_wall->0, now)
    &&& !(old.running_since_wall is Some && old.status == SessionStatus::Running) ==> split.len()
        == 0
}

/// Freezing twice: the second freeze keeps the stored time, records no split and leaves the
/// session as the first freeze left it.
pub proof fn law_freeze_twice(
    s0: Session,
    s1: Session,
    split1: Seq<(Date, u128)>,
    s2: Session,
    split2: Seq<(Date, u128)>,
)
    requires
        froze(s0, s1, split1),
        froze(s1, s2, split2),
    ensures
        split2.len() == 0,
        s2.elapsed == s1.elapsed,
        s2.status == s1.status,
        s2.topic == s1.topic,
        s2.started_at == s1.started_at,
        s2.description == s1.description,
        s2.tags == s1.tags,
        s2.running_since is None,
        s2.running_since_wall is None,
{
}

/// The first chunk for Julian day `day`, if any.
pub open spec fn first_chunk_for(chunks: Seq<(int, int)>, day: int) -> int
    decreases chunks.len(),
{
    if chunks.len() == 0 {
        0
    } else if chunks[0].0 == day {
        chunks[0].1
    } else {
        first_chunk_for(chunks.drop_first(), day)
    }
}

/// The nanoseconds of the running segment from `since_wall` to `now` that fall on `now`'s local
/// date (the first chunk for that date).
pub fn today_part(since_wall: Moment, now: Moment) -> (r: u128)
    ensures
        r == first_chunk_for(day_split(since_wall, now), now.local_jd()),
{
    let splits = split_by_day(since_wall, now);
    let today = now.date().julian_day();
    let mut i: usize = 0;
    proof {
        assert(split_view(splits@).subrange(0, split_view(splits@).len() as int) =~= split_view(splits@));
    }
    while i < splits.len()
        invariant
            i <= splits@.len(),
            today == now.local_jd(),
            split_view(splits@) == day_split(since_wall, now),
            first_chunk_for(day_split(since_wall, now), today as int) == first_chunk_for(
                split_view(splits@).subrange(i as int, splits@.len() as int),
                today as int,
            ),
        decreases splits@.len() - i,
    {
        let ghost rest = split_view(splits@).subrange(i as int, splits@.len() as int);
        assert(rest.drop_first() =~= split_view(splits@).subrange(i + 1, splits@.len() as int));
        assert(rest[0] == (splits@[i as int].0.jd(), splits@[i as int].1 as int));
        if splits[i].0.julian_day() == today {
            return splits[i].1;
        }
        i = i + 1;
    }
    0
}

impl Session {
    /// A fresh session on `topic`, running from now.
    pub fn new(topic: String) -> (r: Session)
        ensures
            r.topic == topic,
            r.elapsed == 0,
            r.status == SessionStatus::Running,
            r.running_since is Some,
            r.running_since_wall is Some,
            r.description is None,
            r.tags@.len() == 0,
    {
        Session {
            topic,
            started_at: now_local(),
            elapsed: 0,
            status: SessionStatus::Running,
            running_since: Some(monotonic_now()),
            running_since_wall: Some(now_local()),
            description: None,
            tags: Vec::new(),
        }
    }

    /// A session read back from storage: not running, with a negative stored total counting as
    /// zero.
    pub fn from_stored(topic: String, started_at: Moment, elapsed_secs: i64, status: SessionStatus) -> (r: Session)
        ensures
            r.topic == topic,
            r.started_at == started_at,
            r.elapsed == (if elapsed_secs < 0 { 0 } else { elapsed_secs as int * NANOS_PER_SEC as int }),
            r.status == status,
            r.running_since is None,
            r.running_since_wall is None,
            r.description is None,
            r.tags@.len() == 0,
    {
        let secs: u128 = if elapsed_secs < 0 { 0 } else { elapsed_secs as u128 };
        Session {
            topic,
            started_at,
            elapsed: secs * NANOS_PER_SEC,
            status,
            running_since: None,
            running_since_wall: None,
            description: None,
            tags: Vec::new(),
        }
    }

    /// Whole seconds of `elapsed`, as stored.
    pub fn elapsed_secs(&self) -> (r: u64)
        requires
            self.elapsed <= MAX_DURATION_NANOS,
        ensures
            r == self.elapsed / NANOS_PER_SEC,
    {
        (self.elapsed / NANOS_PER_SEC) as u64
    }

    /// Running time so far given `measured` nanoseconds since the monotonic anchor.
    pub fn live_elapsed_given(&self, measured: u128) -> (r: u128)
        requires
            room_to_accrue(*self),
            measured <= MAX_DURATION_NANOS,
        ensures
            r == live_elapsed_with(*self, measured as int),
    {
        if self.running_since.is_some() && self.status == SessionStatus::Running {
            self.elapsed + measured
        } else {
            self.elapsed
        }
    }

    /// Elapsed running time, including the current segment while running. Time spent paused or
    /// on a break is not counted.
    pub fn live_elapsed(&self) -> (r: u128)
        requires
            room_to_accrue(*self),
        ensures
            exists|m: int| 0 <= m <= MAX_DURATION_NANOS && r == live_elapsed_with(*self, m),
            self.elapsed <= r <= self.elapsed + MAX_DURATION_NANOS,
            !(self.running_since is Some && self.status == SessionStatus::Running) ==> r == self.elapsed,
    {
        match &self.running_since {
            Some(since) => {
                let m = nanos_since(since);
                let r = self.live_elapsed_given(m);
                assert(r == live_elapsed_with(*self, m as int));
                r
            },
            None => {
                assert(self.elapsed == live_elapsed_with(*self, 0));
                self.elapsed
            },
        }
    }

    /// The part of the current running segment that falls on today's local date, without
    /// changing anything; zero unless running with a wall-clock anchor.
    pub fn live_today_secs(&self) -> (r: u128)
        ensures
            !(self.running_since_wall is Some && self.status == SessionStatus::Running) ==> r == 0,
            self.running_since_wall is Some && self.status == SessionStatus::Running ==> exists|now: Moment|
                r == first_chunk_for(day_split(self.running_since_wall->0, now), now.local_jd())
                && (now.offset() == self.running_since_wall->0.offset() ==> r <= elapsed_between(
                    self.running_since_wall->0,
                    now,
                )),
    {
        match self.running_since_wall {
            None => 0,
            Some(since_wall) => {
                if self.status != SessionStatus::Running {
                    return 0;
                }
                let now = now_local();
                let r = today_part(since_wall, now);
                proof {
                    lemma_today_part_bound(since_wall, now);
                }
                r
            },
        }
    }

    /// Freezes `elapsed` at its live value and clears the running anchors. Returns the per-day
    /// split of the segment that just ended (empty unless the session was running with a
    /// wall-clock anchor); that split is the only record of the segment's days.
    pub fn freeze(&mut self) -> (r: Vec<(Date, u128)>)
        requires
            room_to_accrue(*old(self)),
        ensures
            froze(*old(self), *final(self), r@),
    {
        let splits = match self.running_since_wall {
            Some(since_wall) => {
                if self.status == SessionStatus::Running {
                    split_by_day(since_wall, now_local())
                } else {
                    Vec::new()
                }
            },
            None => Vec::new(),
        };
        self.elapsed = self.live_elapsed();
        self.running_since = None;
        self.running_since_wall = None;
        splits
    }

    /// Starts a new running segment from now.
    pub fn start_running(&mut self)
        ensures
            final(self).topic == old(self).topic,
            final(self).started_at == old(self).started_at,
            final(self).elapsed == old(self).elapsed,
            final(self).description == old(self).description,
            final(self).tags == old(self).tags,
            final(self).status == SessionStatus::Running,
            final(self).running_since is Some,
            final(self).running_since_wall is Some,
    {
        self.running_since = Some(monotonic_now());
        self.running_since_wall = Some(now_local());
        self.status = SessionStatus::Running;
    }
}


/// Why a stored row could not be read back as a session.
#[derive(Clone, Debug, PartialEq, Eq)]
pub enum RowError {
    /// The start time is not RFC 3339 text.
    StartedAt,
    /// The status is not one of the stored names.
    Status(AppError),
}

/// Reads back a stored session row: its topic, RFC 3339 start time, whole seconds of running
/// time and status name. The start time is checked before the status.
pub fn session_from_row(topic: String, started_at: &str, elapsed_secs: i64, status: &str) -> (r: Result<Session, RowError>)
    ensures
        match rfc3339_parsed(started_at@) {
            None => r == Err::<Session, RowError>(RowError::StartedAt),
            Some(p) => match status_named(status@) {
                None => r matches Err(RowError::Status(e)) && invalid_with(
                    e,
                    "unknown session status stored in database: "@ + status@,
                ),
                Some(st) => r matches Ok(s) && {
                    &&& s.topic == topic
                    &&& s.started_at.nanos() == p.0
                    &&& s.started_at.offset() == p.1
                    &&& s.elapsed == (if elapsed_secs < 0 { 0 } else { elapsed_secs as int * NANOS_PER_SEC as int })
                    &&& s.status == st
                    &&& s.running_since is None
                    &&& s.running_since_wall is None
                    &&& s.description is None
                    &&& s.tags@.len() == 0
                },
            },
        },
{
    let start = match parse_rfc3339(started_at) {
        Some(m) => m,
        None => return Err(RowError::StartedAt),
    };
    match SessionStatus::parse(status) {
        Ok(st) => Ok(Session::from_stored(topic, start, elapsed_secs, st)),
        Err(e) => Err(RowError::Status(e)),
    }
}


/// The total nanoseconds of a split.
pub open spec fn chunks_total(s: Seq<(int, int)>) -> int
    decreases s.len(),
{
    if s.len() == 0 {
        0
    } else {
        s[0].1 + chunks_total(s.drop_first())
    }
}

proof fn lemma_day_chunks(cursor: int, off: int, to_nanos: int, to_day: int)
    requires
        cursor <= to_nanos,
        to_day == local_day(to_nanos, off),
    ensures
        chunks_total(day_chunks(cursor, off, to_nanos, to_day)) == to_nanos - cursor,
        day_chunks(cursor, off, to_nanos, to_day).len() == to_day - local_day(cursor, off) + 1,
        forall|i: int| 0 <= i < day_chunks(cursor, off, to_nanos, to_day).len()
            ==> (#[trigger] day_chunks(cursor, off, to_nanos, to_day)[i]).0 == local_day(cursor, off) + i
                && day_chunks(cursor, off, to_nanos, to_day)[i].1 >= 0,
        forall|i: int| 0 < i < day_chunks(cursor, off, to_nanos, to_day).len() - 1
            ==> (#[trigger] day_chunks(cursor, off, to_nanos, to_day)[i]).1 == nanos_per_day_int(),
        cursor == midnight_nanos(local_day(cursor, off), off) && day_chunks(cursor, off, to_nanos, to_day).len() > 1
            ==> day_chunks(cursor, off, to_nanos, to_day)[0].1 == nanos_per_day_int(),
    decreases to_day - local_day(cursor, off),
{
    let dd = nanos_per_day_int();
    let d = local_day(cursor, off);
    let lc = local_nanos(cursor, off);
    let lt = local_nanos(to_nanos, off);
    lemma_fundamental_div_mod(lc, dd);
    lemma_fundamental_div_mod(lt, dd);
    assert(d <= to_day) by {
        lemma_div_is_ordered(lc, lt, dd);
    }
    let chunks = day_chunks(cursor, off, to_nanos, to_day);
    if d < to_day {
        let next = midnight_nanos(d + 1, off);
        lemma_midnight_day(d + 1, off);
        let ln = local_nanos(next, off);
        assert(ln == (d + 1 - crate::calendar::UNIX_EPOCH_JULIAN_DAY) * dd);
        assert(lc < ln) by {
            assert(lc == dd * (lc / dd) + lc % dd);
            assert(lc / dd == d - crate::calendar::UNIX_EPOCH_JULIAN_DAY);
            assert((d - crate::calendar::UNIX_EPOCH_JULIAN_DAY) * dd + dd == (d + 1 - crate::calendar::UNIX_EPOCH_JULIAN_DAY) * dd) by (nonlinear_arith);
            assert(dd * (lc / dd) == (lc / dd) * dd) by (nonlinear_arith);
        }
        assert(ln <= lt) by {
            assert(lt / dd >= d + 1 - crate::calendar::UNIX_EPOCH_JULIAN_DAY);
            assert(lt == dd * (lt / dd) + lt % dd);
            let q = lt / dd;
            let k = d + 1 - crate::calendar::UNIX_EPOCH_JULIAN_DAY;
            assert(dd * q >= dd * k) by (nonlinear_arith)
                requires
                    q >= k,
                    dd > 0,
            ;
            assert(dd * k == k * dd) by (nonlinear_arith);
        }
        lemma_day_chunks(next, off, to_nanos, to_day);
        let rest = day_chunks(next, off, to_nanos, to_day);
        assert(chunks == seq![(d, next - cursor)] + rest);
        assert(chunks.drop_first() =~= rest);
        assert(chunks[0].1 == next - cursor);
        assert(chunks_total(chunks) == chunks[0].1 + chunks_total(rest));
        assert forall|i: int| 0 <= i < chunks.len() implies (#[trigger] chunks[i]).0 == d + i && chunks[i].1 >= 0 by {
            if i > 0 {
                assert(chunks[i] == rest[i - 1]);
            }
        }
        assert(next == midnight_nanos(local_day(next, off), off));
        assert forall|i: int| 0 < i < chunks.len() - 1 implies (#[trigger] chunks[i]).1 == dd by {
            assert(chunks[i] == rest[i - 1]);
            if i == 1 {
                assert(rest[0].1 == dd);
            }
        }
        if cursor == midnight_nanos(d, off) {
            assert(midnight_nanos(d + 1, off) - midnight_nanos(d, off) == dd);
        }
    } else {
        assert(chunks == seq![(d, abs(to_nanos - cursor))]);
        assert(chunks.drop_first() =~= Seq::<(int, int)>::empty());
        assert(chunks_total(Seq::<(int, int)>::empty()) == 0);
        assert(chunks_total(chunks) == chunks[0].1 + chunks_total(chunks.drop_first()));
    }
}

/// The nanoseconds from `from` to `to`, or zero when `to` is not after it.
pub open spec fn elapsed_between(from: Moment, to: Moment) -> int {
    if to.nanos() > from.nanos() {
        to.nanos() - from.nanos()
    } else {
        0
    }
}

proof fn lemma_first_chunk_le_total(chunks: Seq<(int, int)>, day: int)
    requires
        forall|i: int| 0 <= i < chunks.len() ==> (#[trigger] chunks[i]).1 >= 0,
    ensures
        0 <= first_chunk_for(chunks, day) <= chunks_total(chunks),
    decreases chunks.len(),
{
    if chunks.len() > 0 {
        let rest = chunks.drop_first();
        assert forall|i: int| 0 <= i < rest.len() implies (#[trigger] rest[i]).1 >= 0 by {
            assert(rest[i] == chunks[i + 1]);
        }
        lemma_first_chunk_le_total(rest, day);
        lemma_chunks_total_nonneg(rest);
    }
}

proof fn lemma_chunks_total_nonneg(chunks: Seq<(int, int)>)
    requires
        forall|i: int| 0 <= i < chunks.len() ==> (#[trigger] chunks[i]).1 >= 0,
    ensures
        chunks_total(chunks) >= 0,
    decreases chunks.len(),
{
    if chunks.len() > 0 {
        let rest = chunks.drop_first();
        assert forall|i: int| 0 <= i < rest.len() implies (#[trigger] rest[i]).1 >= 0 by {
            assert(rest[i] == chunks[i + 1]);
        }
        lemma_chunks_total_nonneg(rest);
    }
}

/// The part of a running segment counted for any one day is at most the segment's length.
proof fn lemma_today_part_bound(from: Moment, now: Moment)
    ensures
        now.offset() == from.offset() ==> first_chunk_for(day_split(from, now), now.local_jd())
            <= elapsed_between(from, now),
{
    if now.offset() == from.offset() {
        if from.nanos() < now.nanos() {
            law_split_covers_interval(from, now);
            lemma_first_chunk_le_total(day_split(from, now), now.local_jd());
        } else {
            assert(day_split(from, now) =~= Seq::<(int, int)>::empty());
        }
    }
}

/// A split covers its interval exactly. An empty or backward interval has no chunks. Otherwise,
/// for two moments seen at the same offset, the chunks run over consecutive local days from
/// `from`'s to `to`'s (the first on `from`'s date, the last on `to`'s), every chunk between the
/// first and the last is a whole day, and their durations add up to the time between them.
/// This is what lets time resumed days later count toward the days it was worked on.
pub proof fn law_split_covers_interval(from: Moment, to: Moment)
    ensures
        to.nanos() <= from.nanos() ==> day_split(from, to).len() == 0,
        from.offset() == to.offset() && from.nanos() < to.nanos() ==> {
            &&& chunks_total(day_split(from, to)) == to.nanos() - from.nanos()
            &&& day_split(from, to).len() == to.local_jd() - from.local_jd() + 1
            &&& day_split(from, to)[0].0 == from.local_jd()
            &&& day_split(from, to)[day_split(from, to).len() - 1].0 == to.local_jd()
            &&& forall|i: int| 0 <= i < day_split(from, to).len() ==> (#[trigger] day_split(from, to)[i]).0
                == from.local_jd() + i && day_split(from, to)[i].1 >= 0
            &&& forall|i: int| 0 < i < day_split(from, to).len() - 1 ==> (#[trigger] day_split(
                from,
                to,
            )[i]).1 == nanos_per_day_int()
        },
{
    if from.offset() == to.offset() && from.nanos() < to.nanos() {
        lemma_day_chunks(from.nanos(), from.offset(), to.nanos(), to.local_jd());
        let n = day_split(from, to).len();
        assert(day_split(from, to)[0].0 == from.local_jd() + 0);
        assert(day_split(from, to)[n - 1].0 == from.local_jd() + (n - 1));
    }
}

} // verus!
