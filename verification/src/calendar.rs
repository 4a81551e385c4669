//! Calendar dates and moments in time, held as plain numbers: a `Date` is its Julian day number
//! and a `Moment` is a Unix timestamp in nanoseconds with the UTC offset it was observed in.
//! The conversions between day numbers and `(year, month, day)`, the date parsers and the clock
//! are the `time` crate's, reached through the trusted items at the end of this file; a bare
//! `HH:MM` is read here, as `time` reads it.

use vstd::prelude::*;
use vstd::arithmetic::div_mod::{lemma_fundamental_div_mod_converse, lemma_fundamental_div_mod};

use crate::text::{all_digits, chars_of, digits_u64, digits_value, lemma_digits_value_nonneg};

verus! {

/// Julian day number of `-9999-01-01`, the earliest date `time` represents.
pub const MIN_JULIAN_DAY: i32 = -1_930_999;
/// Julian day number of `9999-12-31`, the latest date `time` represents.
pub const MAX_JULIAN_DAY: i32 = 5_373_484;
/// Julian day number of `1970-01-01`.
pub const UNIX_EPOCH_JULIAN_DAY: i32 = 2_440_588;
/// The largest UTC offset, in seconds, that `time::UtcOffset` holds (25:59:59).
pub const MAX_OFFSET_SECONDS: i32 = 93_599;
pub const NANOS_PER_SECOND: i128 = 1_000_000_000;
pub const SECONDS_PER_DAY: i128 = 86_400;
pub const NANOS_PER_DAY: i128 = 86_400_000_000_000;

pub open spec fn julian_in_range(j: int) -> bool {
    MIN_JULIAN_DAY <= j <= MAX_JULIAN_DAY
}

/// Days since the most recent Monday (`Weekday::number_days_from_monday`): Julian day 0 is a
/// Monday.
pub open spec fn days_from_monday(j: int) -> int {
    j % 7
}

/// Days since the most recent Sunday (`Weekday::number_days_from_sunday`).
pub open spec fn days_from_sunday(j: int) -> int {
    (j + 1) % 7
}

pub open spec fn is_leap_year(y: int) -> bool {
    (y % 4 == 0 && y % 100 != 0) || y % 400 == 0
}

pub open spec fn days_in_month(y: int, m: int) -> int {
    if m == 2 {
        if is_leap_year(y) {
            29
        } else {
            28
        }
    } else if m == 4 || m == 6 || m == 9 || m == 11 {
        30
    } else {
        31
    }
}

/// Whether `time::Date::from_calendar_date` accepts the year, month and day.
pub open spec fn valid_calendar_date(y: int, m: int, d: int) -> bool {
    &&& -9999 <= y <= 9999
    &&& 1 <= m <= 12
    &&& 1 <= d <= days_in_month(y, m)
}

/// A day of the proleptic Gregorian calendar, by its Julian day number.
#[derive(Clone, Copy, Debug, PartialEq, Eq, Structural, Hash)]
pub struct Date {
    julian: i32,
}

impl Date {
    #[verifier::type_invariant]
    spec fn in_range(self) -> bool {
        julian_in_range(self.julian as int)
    }

    /// The Julian day number.
    pub closed spec fn jd(self) -> int {
        self.julian as int
    }

    pub fn julian_day(&self) -> (r: i32)
        ensures
            r == self.jd(),
            julian_in_range(r as int),
    {
        proof {
            use_type_invariant(self);
        }
        self.julian
    }

    /// The date with Julian day number `j`, if `time` can represent it.
    pub fn from_julian_day(j: i32) -> (r: Option<Date>)
        ensures
            r is Some <==> julian_in_range(j as int),
            r matches Some(d) ==> d.jd() == j,
    {
        if MIN_JULIAN_DAY <= j && j <= MAX_JULIAN_DAY {
            Some(Date { julian: j })
        } else {
            None
        }
    }

    /// `self + Duration::days(n)`.
    pub fn add_days(&self, n: i64) -> (r: Date)
        requires
            julian_in_range(self.jd() + n),
        ensures
            r.jd() == self.jd() + n,
    {
        proof {
            use_type_invariant(self);
        }
        let j: i64 = self.julian as i64 + n;
        Date { julian: j as i32 }
    }

    /// `self.weekday().number_days_from_monday()`.
    pub fn number_days_from_monday(&self) -> (r: u8)
        ensures
            r == days_from_monday(self.jd()),
            r < 7,
    {
        proof {
            use_type_invariant(self);
        }
        let shifted: u32 = (self.julian as i64 - MIN_JULIAN_DAY as i64) as u32;
        let r: u32 = shifted % 7;
        proof {
            let j = self.julian as int;
            let q = shifted as int / 7;
            lemma_fundamental_div_mod(shifted as int, 7);
            lemma_fundamental_div_mod_converse(j, 7, q - 275_857, r as int);
        }
        r as u8
    }

    /// `self.weekday().number_days_from_sunday()`.
    pub fn number_days_from_sunday(&self) -> (r: u8)
        ensures
            r == days_from_sunday(self.jd()),
            r < 7,
    {
        let m = self.number_days_from_monday();
        if m == 6 {
            proof {
                lemma_fundamental_div_mod(self.jd(), 7);
                lemma_fundamental_div_mod_converse(self.jd() + 1, 7, self.jd() / 7 + 1, 0);
            }
            0
        } else {
            proof {
                lemma_fundamental_div_mod(self.jd(), 7);
                lemma_fundamental_div_mod_converse(
                    self.jd() + 1,
                    7,
                    self.jd() / 7,
                    m as int + 1,
                );
            }
            m + 1
        }
    }

    /// `Date::from_calendar_date(year, month, day)`, with `month` numbered from 1.
    pub fn from_calendar_date(year: i32, month: u8, day: u8) -> (r: Option<Date>)
        ensures
            r is Some <==> valid_calendar_date(year as int, month as int, day as int),
            r matches Some(d) ==> Some(d.jd() as i32) == julian_of_calendar(year, month, day),
    {
        match calendar_to_julian(year, month, day) {
            Some(j) => Some(Date { julian: j }),
            None => None,
        }
    }

    /// `Date::to_calendar_date`, with the month numbered from 1.
    pub fn to_calendar_date(&self) -> (r: (i32, u8, u8))
        ensures
            r == calendar_of_julian(self.jd() as i32),
            -9999 <= r.0 <= 9999,
            1 <= r.1 <= 12,
            1 <= r.2 <= 31,
    {
        proof {
            use_type_invariant(self);
        }
        julian_to_calendar(self.julian)
    }
}

/// Floor division of a local time in nanoseconds into whole days since the Unix epoch, as a
/// Julian day number.
pub open spec fn julian_of_local_nanos(local: int) -> int {
    local / (NANOS_PER_DAY as int) + UNIX_EPOCH_JULIAN_DAY
}

/// Local wall-clock nanoseconds of a Unix timestamp observed at a UTC offset.
pub open spec fn local_nanos(unix_nanos: int, offset_secs: int) -> int {
    unix_nanos + offset_secs * (NANOS_PER_SECOND as int)
}

pub open spec fn valid_moment(unix_nanos: int, offset_secs: int) -> bool {
    &&& -MAX_OFFSET_SECONDS <= offset_secs <= MAX_OFFSET_SECONDS
    &&& julian_in_range(julian_of_local_nanos(local_nanos(unix_nanos, offset_secs)))
}

/// A moment in time together with the UTC offset it is viewed in (an `OffsetDateTime`).
#[derive(Clone, Copy, Debug, PartialEq, Eq, Structural, Hash)]
pub struct Moment {
    unix_nanos: i128,
    offset_secs: i32,
}

impl Moment {
    #[verifier::type_invariant]
    spec fn valid(self) -> bool {
        valid_moment(self.unix_nanos as int, self.offset_secs as int)
    }

    pub closed spec fn nanos(self) -> int {
        self.unix_nanos as int
    }

    pub closed spec fn offset(self) -> int {
        self.offset_secs as int
    }

    /// Julian day number of the local calendar date.
    pub open spec fn local_jd(self) -> int {
        julian_of_local_nanos(local_nanos(self.nanos(), self.offset()))
    }

    pub fn new(unix_nanos: i128, offset_secs: i32) -> (r: Option<Moment>)
        ensures
            r is Some <==> valid_moment(unix_nanos as int, offset_secs as int),
            r matches Some(m) ==> m.nanos() == unix_nanos && m.offset() == offset_secs,
    {
        if offset_secs < -MAX_OFFSET_SECONDS || offset_secs > MAX_OFFSET_SECONDS {
            return None;
        }
        if unix_nanos < -400_000_000_000_000_000_000i128 || unix_nanos
            > 400_000_000_000_000_000_000i128 {
            proof {
                let l = local_nanos(unix_nanos as int, offset_secs as int);
                lemma_fundamental_div_mod(l, NANOS_PER_DAY as int);
            }
            return None;
        }
        let j = julian_of_local(unix_nanos + offset_secs as i128 * NANOS_PER_SECOND);
        if MIN_JULIAN_DAY as i128 <= j && j <= MAX_JULIAN_DAY as i128 {
            Some(Moment { unix_nanos, offset_secs })
        } else {
            None
        }
    }

    pub fn unix_timestamp_nanos(&self) -> (r: i128)
        ensures
            r == self.nanos(),
            -MOMENT_NANOS_BOUND <= r <= MOMENT_NANOS_BOUND,
    {
        proof {
            use_type_invariant(self);
            lemma_valid_moment_bounds(self.unix_nanos as int, self.offset_secs as int);
        }
        self.unix_nanos
    }

    pub fn offset_seconds(&self) -> (r: i32)
        ensures
            r == self.offset(),
            -MAX_OFFSET_SECONDS <= r <= MAX_OFFSET_SECONDS,
    {
        proof {
            use_type_invariant(self);
        }
        self.offset_secs
    }

    /// The local calendar date (`OffsetDateTime::date`).
    pub fn date(&self) -> (r: Date)
        ensures
            r.jd() == self.local_jd(),
    {
        proof {
            use_type_invariant(self);
            let l = local_nanos(self.nanos(), self.offset());
            lemma_fundamental_div_mod(l, NANOS_PER_DAY as int);
        }
        let j = julian_of_local(self.unix_nanos + self.offset_secs as i128 * NANOS_PER_SECOND);
        Date { julian: j as i32 }
    }

    /// The moment at `hour:minute:second` of `date`, local to `offset_secs`
    /// (`PrimitiveDateTime::new(date, time).assume_offset(offset)`).
    pub fn at(date: Date, hour: u8, minute: u8, second: u8, offset_secs: i32) -> (r: Moment)
        requires
            hour < 24,
            minute < 60,
            second < 60,
            -MAX_OFFSET_SECONDS <= offset_secs <= MAX_OFFSET_SECONDS,
        ensures
            r.nanos() == moment_nanos_at(date.jd(), hour as int, minute as int, second as int, offset_secs as int),
            r.offset() == offset_secs,
            r.local_jd() == date.jd(),
    {
        let j = date.julian_day();
        let secs_of_day: i128 = hour as i128 * 3600 + minute as i128 * 60 + second as i128;
        let days: i128 = j as i128 - UNIX_EPOCH_JULIAN_DAY as i128;
        let local: i128 = days * NANOS_PER_DAY + secs_of_day * NANOS_PER_SECOND;
        let unix_nanos: i128 = local - offset_secs as i128 * NANOS_PER_SECOND;
        proof {
            assert(local == local_nanos(unix_nanos as int, offset_secs as int));
            lemma_fundamental_div_mod_converse(
                local as int,
                NANOS_PER_DAY as int,
                days as int,
                secs_of_day * NANOS_PER_SECOND,
            );
        }
        Moment { unix_nanos, offset_secs }
    }
}

/// A bound on the Unix nanoseconds of any moment whose local date `time` represents.
pub const MOMENT_NANOS_BOUND: i128 = 400_000_000_000_000_000_000;

pub proof fn lemma_valid_moment_bounds(unix_nanos: int, offset_secs: int)
    requires
        valid_moment(unix_nanos, offset_secs),
    ensures
        -MOMENT_NANOS_BOUND <= unix_nanos <= MOMENT_NANOS_BOUND,
{
    let l = local_nanos(unix_nanos, offset_secs);
    lemma_fundamental_div_mod(l, NANOS_PER_DAY as int);
}

/// Unix nanoseconds of `hour:minute:second` on Julian day `j`, local to `offset`.
pub open spec fn moment_nanos_at(j: int, hour: int, minute: int, second: int, offset: int) -> int {
    ((j - UNIX_EPOCH_JULIAN_DAY) * SECONDS_PER_DAY + hour * 3600 + minute * 60 + second - offset)
        * NANOS_PER_SECOND
}

/// Floor division of local nanoseconds into a Julian day number.
fn julian_of_local(local: i128) -> (r: i128)
    requires
        -400_100_000_000_000_000_000 <= local <= 400_100_000_000_000_000_000,
    ensures
        r == julian_of_local_nanos(local as int),
{
    let shift: i128 = 10_000_000 * NANOS_PER_DAY;
    let shifted: u128 = (local + shift) as u128;
    let q: u128 = shifted / (NANOS_PER_DAY as u128);
    let rem: u128 = shifted % (NANOS_PER_DAY as u128);
    proof {
        lemma_fundamental_div_mod(shifted as int, NANOS_PER_DAY as int);
        lemma_fundamental_div_mod_converse(
            local as int,
            NANOS_PER_DAY as int,
            q as int - 10_000_000,
            rem as int,
        );
    }
    q as i128 - 10_000_000 + UNIX_EPOCH_JULIAN_DAY as i128
}

/// Days of year `y` before the first of month `m`.
pub open spec fn days_before_month(y: int, m: int) -> int
    decreases m,
{
    if m <= 1 {
        0
    } else {
        days_before_month(y, m - 1) + days_in_month(y, m - 1)
    }
}

/// The Julian day number of `(y, m, d)` in the proleptic Gregorian calendar: the days of the
/// years before `y`, counted from year 1 with a leap day every fourth year except in centuries
/// not divisible by 400, plus the day of the year, shifted so that 0001-01-01 is day 1_721_426
/// (and 2000-01-01 day 2_451_545).
pub open spec fn julian_number(y: int, m: int, d: int) -> int {
    let p = y - 1;
    365 * p + p / 4 - p / 100 + p / 400 + days_before_month(y, m) + d + 1_721_425
}

/// The Julian day number of `(year, month, day)`, when the date exists in `time`'s range.
pub open spec fn julian_of_calendar(year: i32, month: u8, day: u8) -> Option<i32> {
    if valid_calendar_date(year as int, month as int, day as int) {
        Some(julian_number(year as int, month as int, day as int) as i32)
    } else {
        None
    }
}

/// The date `(year, month, day)` whose Julian day number is `julian`.
pub open spec fn calendar_of_julian(julian: i32) -> (i32, u8, u8) {
    choose|c: (i32, u8, u8)| julian_of_calendar(c.0, c.1, c.2) == Some(julian)
}

/// `time::Date::from_calendar_date(year, Month::try_from(month)?, day)?.to_julian_day()`.
/// Trusted: `Some` exactly for dates of the proleptic Gregorian calendar between the years
/// -9999 and 9999, which are the dates `time` represents, holding the date's Julian day number
/// (`julian_number`; `to_julian_day` computes the same count with shifted years).
#[verifier::external_body]
fn calendar_to_julian(year: i32, month: u8, day: u8) -> (r: Option<i32>)
    ensures
        r == julian_of_calendar(year, month, day),
        r is Some <==> valid_calendar_date(year as int, month as int, day as int),
        r matches Some(j) ==> julian_in_range(j as int),
{
    let month = time::Month::try_from(month).ok()?;
    time::Date::from_calendar_date(year, month, day).ok().map(|d| d.to_julian_day())
}

/// `time::Date::from_julian_day(julian)?.to_calendar_date()`, month numbered from 1.
/// Trusted: for an in-range day number the result is the date of `time`'s range whose Julian
/// day number is `julian` (the inverse of `to_julian_day`); a day number names one date only,
/// so it is the date `calendar_of_julian` picks.
#[verifier::external_body]
fn julian_to_calendar(julian: i32) -> (r: (i32, u8, u8))
    requires
        julian_in_range(julian as int),
    ensures
        julian_of_calendar(r.0, r.1, r.2) == Some(julian),
        r == calendar_of_julian(julian),
        -9999 <= r.0 <= 9999,
        1 <= r.1 <= 12,
        1 <= r.2 <= 31,
{
    let (y, m, d) = time::Date::from_julian_day(julian).unwrap_or(time::Date::MIN).to_calendar_date();
    (y, m as u8, d)
}

} // verus!

verus! {

/// The Julian day number `time` parses from `s` with the format `[year]-[month]-[day]`.
pub uninterp spec fn parsed_ymd(s: Seq<char>) -> Option<i32>;

/// The Julian day number, hour and minute `time` parses from `s` with the format
/// `[year]-[month]-[day] [hour]:[minute]`.
pub uninterp spec fn parsed_ymd_hm(s: Seq<char>) -> Option<(i32, u8, u8)>;

/// The hour and minute of `s` read as `time` reads the format `[hour]:[minute]`: the whole text
/// is two ASCII digits, a colon and two ASCII digits, with an hour up to 23 and a minute up to
/// 59.
pub open spec fn parsed_hm(s: Seq<char>) -> Option<(u8, u8)> {
    let h = s.subrange(0, 2);
    let m = s.subrange(3, 5);
    if s.len() == 5 && all_digits(h) && s[2] == ':' && all_digits(m) && digits_value(h) <= 23
        && digits_value(m) <= 59 {
        Some((digits_value(h) as u8, digits_value(m) as u8))
    } else {
        None
    }
}

/// `time::Date::parse(s, "[year]-[month]-[day]")`, as a Julian day number.
/// Trusted: the result is the named parse of `s`, and a parsed date is one `time` represents.
#[verifier::external_body]
fn parse_ymd_julian(s: &str) -> (r: Option<i32>)
    ensures
        r == parsed_ymd(s@),
        r matches Some(j) ==> julian_in_range(j as int),
{
    let format = time::format_description::parse("[year]-[month]-[day]").ok()?;
    time::Date::parse(s, &format).ok().map(|d| d.to_julian_day())
}

/// `time::PrimitiveDateTime::parse(s, "[year]-[month]-[day] [hour]:[minute]")`.
/// Trusted: the result is the named parse of `s`; a parsed date is one `time` represents, and a
/// parsed time of day has an hour below 24 and a minute below 60.
#[verifier::external_body]
fn parse_ymd_hm_parts(s: &str) -> (r: Option<(i32, u8, u8)>)
    ensures
        r == parsed_ymd_hm(s@),
        r matches Some(p) ==> julian_in_range(p.0 as int) && p.1 < 24 && p.2 < 60,
{
    let format = time::format_description::parse("[year]-[month]-[day] [hour]:[minute]").ok()?;
    time::PrimitiveDateTime::parse(s, &format).ok().map(
        |dt| (dt.date().to_julian_day(), dt.hour(), dt.minute()),
    )
}

/// Parses `s` as `[year]-[month]-[day]`.
pub fn parse_ymd(s: &str) -> (r: Option<Date>)
    ensures
        r is Some <==> parsed_ymd(s@) is Some,
        r matches Some(d) ==> parsed_ymd(s@) == Some(d.jd() as i32) && julian_in_range(d.jd()),
{
    match parse_ymd_julian(s) {
        Some(j) => Some(Date { julian: j }),
        None => None,
    }
}

/// Parses `s` as `[year]-[month]-[day] [hour]:[minute]` into a date, hour and minute.
pub fn parse_ymd_hm(s: &str) -> (r: Option<(Date, u8, u8)>)
    ensures
        r is Some <==> parsed_ymd_hm(s@) is Some,
        r matches Some(p) ==> parsed_ymd_hm(s@) == Some((p.0.jd() as i32, p.1, p.2)) && p.1 < 24
            && p.2 < 60 && julian_in_range(p.0.jd()),
{
    match parse_ymd_hm_parts(s) {
        Some((j, h, m)) => Some((Date { julian: j }, h, m)),
        None => None,
    }
}

/// Parses `s` as `[hour]:[minute]` (see `parsed_hm`).
pub fn parse_hm(s: &str) -> (r: Option<(u8, u8)>)
    ensures
        r == parsed_hm(s@),
        r matches Some(p) ==> p.0 < 24 && p.1 < 60,
{
    let v = chars_of(s);
    if v.len() != 5 || v[2] != ':' {
        return None;
    }
    let h = digits_u64(&v, 0, 2);
    let m = digits_u64(&v, 3, 5);
    proof {
        if all_digits(v@.subrange(0, 2)) {
            lemma_digits_value_nonneg(v@.subrange(0, 2));
        }
        if all_digits(v@.subrange(3, 5)) {
            lemma_digits_value_nonneg(v@.subrange(3, 5));
        }
    }
    match (h, m) {
        (Some(h), Some(m)) => {
            if h <= 23 && m <= 59 {
                Some((h as u8, m as u8))
            } else {
                None
            }
        },
        _ => None,
    }
}

/// `OffsetDateTime::now_local()`, when the local offset can be determined.
/// Trusted: any value returned is a valid moment (an in-range local date and offset); which
/// moment depends on the clock and is not stated.
#[verifier::external_body]
fn clock_now_local() -> (r: Option<(i128, i32)>)
    ensures
        r matches Some(p) ==> valid_moment(p.0 as int, p.1 as int),
{
    time::OffsetDateTime::now_local().ok().map(
        |t| (t.unix_timestamp_nanos(), t.offset().whole_seconds()),
    )
}

/// `OffsetDateTime::now_utc()`.
/// Trusted: the value is a valid moment at offset zero; which moment depends on the clock.
#[verifier::external_body]
fn clock_now_utc() -> (r: (i128, i32))
    ensures
        valid_moment(r.0 as int, r.1 as int),
        r.1 == 0,
{
    let t = time::OffsetDateTime::now_utc();
    (t.unix_timestamp_nanos(), t.offset().whole_seconds())
}

/// Local `now`, falling back to UTC when the local offset cannot be determined.
pub fn now_local() -> (r: Moment) {
    match clock_now_local() {
        Some((n, o)) => Moment { unix_nanos: n, offset_secs: o },
        None => {
            let (n, o) = clock_now_utc();
            Moment { unix_nanos: n, offset_secs: o }
        },
    }
}


/// `OffsetDateTime::parse(text, &Rfc3339)`, as Unix nanoseconds and offset seconds.
pub uninterp spec fn rfc3339_parsed(text: Seq<char>) -> Option<(i128, i32)>;

/// `OffsetDateTime::parse` with the RFC 3339 format. Trusted: the result is a function of the
/// text, and a parsed value is a valid moment (RFC 3339 years have four digits and its offsets
/// stay under a day).
#[verifier::external_body]
fn parse_rfc3339_parts(text: &str) -> (r: Option<(i128, i32)>)
    ensures
        r == rfc3339_parsed(text@),
        r matches Some(p) ==> valid_moment(p.0 as int, p.1 as int),
{
    let t = time::OffsetDateTime::parse(text, &time::format_description::well_known::Rfc3339).ok()?;
    Some((t.unix_timestamp_nanos(), t.offset().whole_seconds()))
}

/// Reads an RFC 3339 timestamp, the form session start times are stored in.
pub fn parse_rfc3339(text: &str) -> (r: Option<Moment>)
    ensures
        match rfc3339_parsed(text@) {
            Some(p) => r matches Some(m) && m.nanos() == p.0 && m.offset() == p.1,
            None => r is None,
        },
{
    match parse_rfc3339_parts(text) {
        Some((n, o)) => Some(Moment { unix_nanos: n, offset_secs: o }),
        None => None,
    }
}

/// `OffsetDateTime::format(&Rfc3339)` of the moment with these Unix nanoseconds and offset;
/// `None` where the format refuses the value.
pub uninterp spec fn rfc3339_formatted(unix_nanos: i128, offset_secs: i32) -> Option<Seq<char>>;

/// `OffsetDateTime::format` with the RFC 3339 format. Trusted: the result is a function of the
/// moment. The format refuses years outside `0..=9999` and offsets with a seconds part; which
/// values it refuses is not stated here.
#[verifier::external_body]
fn format_rfc3339_parts(unix_nanos: i128, offset_secs: i32) -> (r: Option<String>)
    requires
        valid_moment(unix_nanos as int, offset_secs as int),
    ensures
        match r {
            Some(s) => rfc3339_formatted(unix_nanos, offset_secs) == Some(s@),
            None => rfc3339_formatted(unix_nanos, offset_secs) is None,
        },
{
    let t = time::OffsetDateTime::from_unix_timestamp_nanos(unix_nanos).ok()?;
    let o = time::UtcOffset::from_whole_seconds(offset_secs).ok()?;
    t.to_offset(o).format(&time::format_description::well_known::Rfc3339).ok()
}

impl Moment {
    /// The moment as RFC 3339 text, when the format can represent it.
    pub fn to_rfc3339(&self) -> (r: Option<String>)
        ensures
            match r {
                Some(s) => rfc3339_formatted(self.nanos() as i128, self.offset() as i32) == Some(s@),
                None => rfc3339_formatted(self.nanos() as i128, self.offset() as i32) is None,
            },
    {
        proof {
            use_type_invariant(self);
        }
        format_rfc3339_parts(self.unix_nanos, self.offset_secs)
    }
}

} // verus!
