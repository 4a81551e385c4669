//! Data bucketing behind the history pane: turning per-day totals into the gap-free daily
//! series, the Monday-start weekly buckets, the running cumulative series, streaks, heatmap
//! levels and the Sunday-start heatmap columns. No rendering here.

use std::collections::{BTreeMap, HashMap};

use vstd::prelude::*;
use vstd::std_specs::btree::{increasing_seq, spec_btree_map_iter};
use vstd::std_specs::cmp::OrdSpec;
use vstd::std_specs::iter::IteratorSpec;

use crate::calendar::{
    calendar_of_julian, days_from_monday, days_from_sunday, julian_in_range, now_local, parse_ymd,
    parsed_ymd, Date, MAX_JULIAN_DAY, MIN_JULIAN_DAY,
};
use crate::text::{
    ascii_lower, chars_eq, chars_of, dec, pad_zeros, push_dec_padded, string_of, to_ascii_lower, trim,
    trimmed,
};

verus! {

/// Which aggregation the history chart displays.
#[derive(Clone, Copy, Debug, PartialEq, Eq, Structural)]
pub enum HistoryView {
    Daily,
    Weekly,
    Cumulative,
}

impl Default for HistoryView {
    fn default() -> (r: Self)
        ensures
            r == HistoryView::Daily,
    {
        HistoryView::Daily
    }
}

/// The view an argument of `:history` names: surrounding whitespace and ASCII case are ignored,
/// and an empty argument names the daily view.
pub open spec fn history_view_named(s: Seq<char>) -> Option<HistoryView> {
    let t = ascii_lower(trim(s));
    if t == ""@ || t == "day"@ || t == "daily"@ {
        Some(HistoryView::Daily)
    } else if t == "week"@ || t == "weekly"@ {
        Some(HistoryView::Weekly)
    } else if t == "cumulative"@ {
        Some(HistoryView::Cumulative)
    } else {
        None
    }
}

pub open spec fn history_view_label(v: HistoryView) -> Seq<char> {
    match v {
        HistoryView::Daily => "Daily"@,
        HistoryView::Weekly => "Weekly"@,
        HistoryView::Cumulative => "Cumulative"@,
    }
}

impl HistoryView {
    /// Parses the optional `:history` argument, so `:history` and `:history daily` agree.
    pub fn parse(value: &str) -> (r: Option<HistoryView>)
        ensures
            r == history_view_named(value@),
    {
        let t = to_ascii_lower(&trimmed(&chars_of(value)));
        if t.len() == 0 || chars_eq(&t, "day") || chars_eq(&t, "daily") {
            proof {
                reveal_strlit("");
                if t.len() == 0 {
                    assert(t@ =~= ""@);
                }
            }
            Some(HistoryView::Daily)
        } else if chars_eq(&t, "week") || chars_eq(&t, "weekly") {
            proof {
                reveal_strlit("");
                assert(t@ != ""@);
            }
            Some(HistoryView::Weekly)
        } else if chars_eq(&t, "cumulative") {
            proof {
                reveal_strlit("");
                assert(t@ != ""@);
            }
            Some(HistoryView::Cumulative)
        } else {
            proof {
                reveal_strlit("");
                assert(t@ != ""@);
            }
            None
        }
    }

    pub fn label(self) -> (r: &'static str)
        ensures
            r@ == history_view_label(self),
    {
        match self {
            HistoryView::Daily => "Daily",
            HistoryView::Weekly => "Weekly",
            HistoryView::Cumulative => "Cumulative",
        }
    }
}

/// Today's date in the local time zone, falling back to UTC when the offset is unknown.
pub fn today_local() -> (r: Date) {
    now_local().date()
}

/// `{:04}` of a year: zero-padded to four characters, a minus sign counting as one of them.
pub open spec fn year_text(y: int) -> Seq<char> {
    if y < 0 {
        seq!['-'] + pad_zeros(dec((-y) as nat), 3)
    } else {
        pad_zeros(dec(y as nat), 4)
    }
}

/// `YYYY-MM-DD` for a year, month and day.
pub open spec fn ymd_text(y: int, m: int, d: int) -> Seq<char> {
    year_text(y) + seq!['-'] + pad_zeros(dec(m as nat), 2) + seq!['-'] + pad_zeros(dec(d as nat), 2)
}

/// `YYYY-MM-DD` for a date.
pub open spec fn date_text(date: Date) -> Seq<char> {
    let c = calendar_of_julian(date.jd() as i32);
    ymd_text(c.0 as int, c.1 as int, c.2 as int)
}

/// Formats a date as `YYYY-MM-DD`, the form the database groups days by.
pub fn format_ymd(date: Date) -> (r: String)
    ensures
        r@ == date_text(date),
{
    let (y, m, d) = date.to_calendar_date();
    let mut v: Vec<char> = Vec::new();
    if y < 0 {
        v.push('-');
        let a: u64 = (-(y as i64)) as u64;
        push_dec_padded(&mut v, a, 3);
    } else {
        push_dec_padded(&mut v, y as u64, 4);
    }
    v.push('-');
    push_dec_padded(&mut v, m as u64, 2);
    v.push('-');
    push_dec_padded(&mut v, d as u64, 2);
    assert(v@ =~= date_text(date));
    string_of(v.as_slice())
}

/// The total recorded for Julian day `day` among `rows`: the last row for that day wins, and a
/// negative total counts as zero.
pub open spec fn day_total(rows: Seq<(Option<Date>, i64)>, day: int) -> i64
    decreases rows.len(),
{
    if rows.len() == 0 {
        0
    } else {
        let last = rows.last();
        if last.0 matches Some(d) && d.jd() == day {
            if last.1 < 0 {
                0
            } else {
                last.1
            }
        } else {
            day_total(rows.drop_last(), day)
        }
    }
}

/// Row `k` of `rows` has a date, and it is the day numbered `day`.
pub open spec fn row_dated(rows: Seq<(Option<Date>, i64)>, k: int, day: int) -> bool {
    rows[k].0 matches Some(d) && d.jd() == day
}

/// A day's total is that of the last row dated that day, a negative total counting as zero,
/// and zero when no row is dated that day: rows without a date, or dated another day, never
/// count.
pub proof fn law_day_total_is_last_row(rows: Seq<(Option<Date>, i64)>, day: int)
    ensures
        (forall|k: int| 0 <= k < rows.len() ==> !#[trigger] row_dated(rows, k, day)) ==> day_total(
            rows,
            day,
        ) == 0,
        forall|k: int|
            0 <= k < rows.len() && #[trigger] row_dated(rows, k, day) && (forall|m: int|
                k < m < rows.len() ==> !#[trigger] row_dated(rows, m, day)) ==> day_total(rows, day)
                == (if rows[k].1 < 0 {
                0
            } else {
                rows[k].1
            }),
    decreases rows.len(),
{
    if rows.len() > 0 {
        let d = rows.drop_last();
        law_day_total_is_last_row(d, day);
        let n = rows.len() - 1;
        assert forall|k: int| 0 <= k < d.len() implies #[trigger] row_dated(d, k, day) == row_dated(
            rows,
            k,
            day,
        ) by {
            assert(d[k] == rows[k]);
        }
        assert forall|k: int|
            0 <= k < rows.len() && #[trigger] row_dated(rows, k, day) && (forall|m: int|
                k < m < rows.len() ==> !#[trigger] row_dated(rows, m, day)) implies day_total(
            rows,
            day,
        ) == (if rows[k].1 < 0 {
            0
        } else {
            rows[k].1
        }) by {
            if k < n {
                assert(!row_dated(rows, n, day));
                assert(row_dated(d, k, day));
                assert forall|m: int| k < m < d.len() implies !#[trigger] row_dated(d, m, day) by {
                    assert(!row_dated(rows, m, day));
                }
            }
        }
        if forall|k: int| 0 <= k < rows.len() ==> !#[trigger] row_dated(rows, k, day) {
            assert(!row_dated(rows, n, day));
            assert forall|k: int| 0 <= k < d.len() implies !#[trigger] row_dated(d, k, day) by {
                assert(!row_dated(rows, k, day));
            }
        }
    }
}

/// The gap-free series from `since` to `today` inclusive: entry `i` is day `since + i` with its
/// total among `rows`.
pub open spec fn zero_filled(rows: Seq<(Option<Date>, i64)>, since: Date, today: Date, series: Seq<
    (Date, i64),
>) -> bool {
    &&& series.len() == (if since.jd() <= today.jd() {
        today.jd() - since.jd() + 1
    } else {
        0
    })
    &&& forall|i: int|
        0 <= i < series.len() ==> (#[trigger] series[i]).0.jd() == since.jd() + i && series[i].1
            == day_total(rows, since.jd() + i)
}

/// No day is stepped past the last date `time` represents.
pub open spec fn zero_fill_in_range(since: Date, today: Date) -> bool {
    since.jd() <= today.jd() ==> today.jd() < MAX_JULIAN_DAY
}

/// The series from `since` to `today` given rows whose dates are already parsed (`None` for a
/// row whose date did not parse).
pub fn zero_fill_parsed(rows: &Vec<(Option<Date>, i64)>, since: Date, today: Date) -> (r: Vec<
    (Date, i64),
>)
    requires
        zero_fill_in_range(since, today),
    ensures
        zero_filled(rows@, since, today, r@),
{
    let mut by_date: BTreeMap<i32, i64> = BTreeMap::new();
    let mut k: usize = 0;
    while k < rows.len()
        invariant
            k <= rows@.len(),
            forall|day: i32| #[trigger]
                by_date@.contains_key(day) ==> by_date@[day] == day_total(
                    rows@.take(k as int),
                    day as int,
                ),
            forall|day: i32|
                !#[trigger] by_date@.contains_key(day) ==> day_total(rows@.take(k as int), day as int)
                    == 0,
        decreases rows@.len() - k,
    {
        let ghost before = by_date@;
        let ghost t = rows@.take(k + 1);
        proof {
            assert(t.drop_last() =~= rows@.take(k as int));
            assert(t.last() == rows@[k as int]);
        }
        let (d, secs) = rows[k];
        if let Some(d) = d {
            let v: i64 = if secs < 0 {
                0
            } else {
                secs
            };
            let key: i32 = d.julian_day();
            by_date.insert(key, v);
            proof {
                assert forall|day: i32| #[trigger] by_date@.contains_key(day) implies by_date@[day]
                    == day_total(t, day as int) by {
                    if day != key {
                        assert(before.contains_key(day));
                    }
                }
            }
        }
        k = k + 1;
    }
    proof {
        assert(rows@.take(rows@.len() as int) =~= rows@);
    }
    let mut series: Vec<(Date, i64)> = Vec::new();
    let last: i32 = today.julian_day();
    let first: i32 = since.julian_day();
    let mut day = since;
    while day.julian_day() <= last
        invariant
            first == since.jd(),
            last == today.jd(),
            zero_fill_in_range(since, today),
            first <= day.jd(),
            first <= last ==> day.jd() <= last + 1,
            first > last ==> series@.len() == 0,
            day.jd() == since.jd() + series@.len(),
            forall|d: i32| #[trigger]
                by_date@.contains_key(d) ==> by_date@[d] == day_total(rows@, d as int),
            forall|d: i32| !#[trigger] by_date@.contains_key(d) ==> day_total(rows@, d as int) == 0,
            forall|i: int|
                0 <= i < series@.len() ==> (#[trigger] series@[i]).0.jd() == since.jd() + i
                    && series@[i].1 == day_total(rows@, since.jd() + i),
        decreases last + 1 - day.jd(),
    {
        let key: i32 = day.julian_day();
        let total: i64 = match by_date.get(&key) {
            Some(v) => *v,
            None => 0,
        };
        series.push((day, total));
        proof {
            assert(julian_in_range(day.jd() + 1));
        }
        day = day.add_days(1);
    }
    series
}

/// Normalizes raw `(date, seconds)` rows into a gap-free series covering every day from `since`
/// to `today` inclusive, ascending. Rows whose date does not parse as `YYYY-MM-DD` are skipped.
pub fn zero_filled_daily(rows: Vec<(String, i64)>, since: Date, today: Date) -> (r: Vec<(Date, i64)>)
    requires
        zero_fill_in_range(since, today),
    ensures
        exists|parsed: Seq<(Option<Date>, i64)>|
            #![trigger zero_filled(parsed, since, today, r@)]
            parsed.len() == rows@.len() && (forall|i: int|
                0 <= i < rows@.len() ==> (#[trigger] parsed[i]).1 == rows@[i].1 && (match parsed[i].0 {
                    Some(d) => parsed_ymd(rows@[i].0@) == Some(d.jd() as i32),
                    None => parsed_ymd(rows@[i].0@) is None,
                })) && zero_filled(parsed, since, today, r@),
{
    let mut parsed: Vec<(Option<Date>, i64)> = Vec::new();
    let mut i: usize = 0;
    while i < rows.len()
        invariant
            i <= rows@.len(),
            parsed@.len() == i,
            forall|k: int|
                0 <= k < i ==> (#[trigger] parsed@[k]).1 == rows@[k].1 && (match parsed@[k].0 {
                    Some(d) => parsed_ymd(rows@[k].0@) == Some(d.jd() as i32),
                    None => parsed_ymd(rows@[k].0@) is None,
                }),
        decreases rows@.len() - i,
    {
        let d = parse_ymd(rows[i].0.as_str());
        parsed.push((d, rows[i].1));
        i = i + 1;
    }
    let r = zero_fill_parsed(&parsed, since, today);
    r
}

/// Julian day number of the Monday starting the week of `d`.
pub open spec fn week_start(d: Date) -> int {
    d.jd() - days_from_monday(d.jd())
}

/// Sum of the seconds of the entries of `daily` in the week starting on day `w`.
#[verifier::opaque]
pub open spec fn week_sum(daily: Seq<(Date, i64)>, w: int) -> int
    decreases daily.len(),
{
    if daily.len() == 0 {
        0
    } else {
        week_sum(daily.drop_last(), w) + if week_start(daily.last().0) == w {
            daily.last().1 as int
        } else {
            0
        }
    }
}

/// Number of entries of `daily` in the week starting on day `w`.
#[verifier::opaque]
pub open spec fn week_count(daily: Seq<(Date, i64)>, w: int) -> nat
    decreases daily.len(),
{
    if daily.len() == 0 {
        0
    } else {
        week_count(daily.drop_last(), w) + if week_start(daily.last().0) == w {
            1nat
        } else {
            0nat
        }
    }
}

pub proof fn lemma_week_push(daily: Seq<(Date, i64)>, e: (Date, i64), w: int)
    ensures
        week_sum(daily.push(e), w) == week_sum(daily, w) + if week_start(e.0) == w {
            e.1 as int
        } else {
            0
        },
        week_count(daily.push(e), w) == week_count(daily, w) + if week_start(e.0) == w {
            1nat
        } else {
            0nat
        },
{
    reveal(week_sum);
    reveal(week_count);
    assert(daily.push(e).drop_last() =~= daily);
}

pub proof fn lemma_week_empty(w: int)
    ensures
        week_sum(Seq::<(Date, i64)>::empty(), w) == 0,
        week_count(Seq::<(Date, i64)>::empty(), w) == 0,
{
    reveal(week_sum);
    reveal(week_count);
}

/// Only Mondays start weeks that hold days.
proof fn lemma_week_count_monday(daily: Seq<(Date, i64)>, w: int)
    requires
        week_count(daily, w) > 0,
    ensures
        days_from_monday(w) == 0,
    decreases daily.len(),
{
    reveal(week_count);
    if daily.len() > 0 {
        let j = daily.last().0.jd();
        if week_start(daily.last().0) == w {
            assert((j - j % 7) % 7 == 0) by {
                vstd::arithmetic::div_mod::lemma_fundamental_div_mod(j, 7);
                vstd::arithmetic::div_mod::lemma_mod_multiples_basic(j / 7, 7);
            }
        } else {
            lemma_week_count_monday(daily.drop_last(), w);
        }
    }
}

proof fn lemma_week_count_zero_sum(daily: Seq<(Date, i64)>, w: int)
    requires
        week_count(daily, w) == 0,
    ensures
        week_sum(daily, w) == 0,
    decreases daily.len(),
{
    reveal(week_sum);
    reveal(week_count);
    if daily.len() > 0 {
        lemma_week_count_zero_sum(daily.drop_last(), w);
    }
}

pub open spec fn fits_i64(x: int) -> bool {
    i64::MIN <= x <= i64::MAX
}

/// Every running per-week total, taken in input order, fits in an `i64` (the sums are
/// accumulated in that order).
pub open spec fn weekly_sums_fit(daily: Seq<(Date, i64)>) -> bool {
    forall|n: int, w: int| 0 <= n <= daily.len() ==> fits_i64(#[trigger] week_sum(daily.take(n), w))
}

/// Strictly ascending by day.
pub open spec fn ascending_days(s: Seq<(Date, i64)>) -> bool {
    forall|i: int, j: int| 0 <= i < j < s.len() ==> (#[trigger] s[i]).0.jd() < (#[trigger] s[j]).0.jd()
}

/// Some entry of `s` is for Julian day `w`.
pub open spec fn has_day(s: Seq<(Date, i64)>, w: int) -> bool {
    exists|i: int| 0 <= i < s.len() && (#[trigger] s[i]).0.jd() == w
}

/// `weekly` is the weekly bucketing of `daily`: ascending week starts, exactly the weeks that
/// occur in `daily`, each with the sum of its days.
pub open spec fn is_weekly_bucketing(daily: Seq<(Date, i64)>, weekly: Seq<(Date, i64)>) -> bool {
    &&& ascending_days(weekly)
    &&& forall|i: int|
        0 <= i < weekly.len() ==> week_count(daily, (#[trigger] weekly[i]).0.jd()) > 0
            && weekly[i].1 == week_sum(daily, weekly[i].0.jd())
    &&& forall|w: int| week_count(daily, w) > 0 ==> #[trigger] has_day(weekly, w)
}

proof fn lemma_increasing_keys(keys: Seq<i32>)
    requires
        increasing_seq(keys),
    ensures
        forall|a: int, b: int| 0 <= a < b < keys.len() ==> #[trigger] keys[a] < #[trigger] keys[b],
{
    assert forall|a: int, b: int| 0 <= a < b < keys.len() implies #[trigger] keys[a]
        < #[trigger] keys[b] by {
        assert(keys[a].cmp_spec(&keys[b]) is Less);
    }
}

/// Buckets a daily series into Monday-start calendar weeks, keyed by each week's Monday and
/// ordered by it.
pub fn weekly_totals(daily: &[(Date, i64)]) -> (r: Vec<(Date, i64)>)
    requires
        weekly_sums_fit(daily@),
    ensures
        is_weekly_bucketing(daily@, r@),
        forall|i: int| 0 <= i < r@.len() ==> days_from_monday((#[trigger] r@[i]).0.jd()) == 0,
{
    let mut by_week: BTreeMap<i32, i64> = BTreeMap::new();
    let mut j: usize = 0;
    proof {
        assert(daily@.take(0) =~= Seq::<(Date, i64)>::empty());
        assert forall|w: int| week_count(daily@.take(0), w) == 0 by {
            lemma_week_empty(w);
        }
    }
    while j < daily.len()
        invariant
            j <= daily@.len(),
            weekly_sums_fit(daily@),
            forall|w: i32| #[trigger]
                by_week@.contains_key(w) <==> week_count(daily@.take(j as int), w as int) > 0,
            forall|w: i32| #[trigger]
                by_week@.contains_key(w) ==> by_week@[w] == week_sum(daily@.take(j as int), w as int),
            forall|w: int| #[trigger]
                week_count(daily@.take(j as int), w) > 0 ==> julian_in_range(w),
        decreases daily@.len() - j,
    {
        let (date, secs) = daily[j];
        let jd = date.julian_day();
        let back = date.number_days_from_monday();
        proof {
            assert(julian_in_range(jd - back as int)) by {
                assert(MIN_JULIAN_DAY as int == -275_857 * 7);
                vstd::arithmetic::div_mod::lemma_fundamental_div_mod(jd as int, 7);
            }
        }
        let monday = date.add_days(-(back as i64));
        let w = monday.julian_day();
        let ghost before = by_week@;
        let ghost prefix = daily@.take(j as int);
        let ghost next = daily@.take(j + 1);
        proof {
            assert(next =~= prefix.push(daily@[j as int]));
            assert forall|x: int| #[trigger] week_count(next, x) == week_count(prefix, x) + if week_start(date) == x {
                1nat
            } else {
                0nat
            } && week_sum(next, x) == week_sum(prefix, x) + if week_start(date) == x {
                secs as int
            } else {
                0
            } by {
                lemma_week_push(prefix, daily@[j as int], x);
            }
            assert(week_start(date) == w);
            lemma_week_push(prefix, daily@[j as int], w as int);
            assert(week_sum(next, w as int) == week_sum(prefix, w as int) + secs);
            assert(fits_i64(week_sum(next, w as int)));
            if week_count(prefix, w as int) == 0 {
                lemma_week_count_zero_sum(prefix, w as int);
            }
        }
        let current: i64 = match by_week.get(&w) {
            Some(x) => *x,
            None => 0,
        };
        assert(current == week_sum(prefix, w as int));
        by_week.insert(w, current + secs);
        proof {
            assert forall|x: i32| #[trigger]
                by_week@.contains_key(x) <==> week_count(next, x as int) > 0 by {
                if x != w {
                    assert(by_week@.contains_key(x) == before.contains_key(x));
                }
            }
            assert forall|x: i32| #[trigger] by_week@.contains_key(x) implies by_week@[x]
                == week_sum(next, x as int) by {
                if x != w {
                    assert(before.contains_key(x));
                }
            }
            assert forall|x: int| #[trigger] week_count(next, x) > 0 implies julian_in_range(x) by {
                if x != w {
                    assert(week_count(prefix, x) > 0);
                }
            }
        }
        j = j + 1;
    }
    proof {
        assert(daily@.take(j as int) =~= daily@);
    }
    let mut r: Vec<(Date, i64)> = Vec::new();
    let ghost m = by_week@;
    let ghost sq = spec_btree_map_iter(&by_week).remaining();
    for kv in it: by_week.iter()
        invariant
            m == by_week@,
            sq == spec_btree_map_iter(&by_week).remaining(),
            it.seq() == sq,
            forall|w: i32| #[trigger] m.contains_key(w) ==> julian_in_range(w as int),
            r@.len() == it.index(),
            forall|i: int|
                0 <= i < it.index() ==> (#[trigger] r@[i]).0.jd() == *it.seq()[i].0 && r@[i].1
                    == *it.seq()[i].1,
    {
        let (k, v) = kv;
        proof {
            assert(m.contains_key(*k));
        }
        let d = Date::from_julian_day(*k).unwrap();
        r.push((d, *v));
    }
    proof {
        let keys = sq.map_values(|kv: (&i32, &i64)| *kv.0);
        assert(r@.len() == sq.len());
        assert(increasing_seq(keys));
        lemma_increasing_keys(keys);
        assert forall|a: int, b: int| 0 <= a < b < r@.len() implies (#[trigger] r@[a]).0.jd()
            < (#[trigger] r@[b]).0.jd() by {
            assert(keys[a] < keys[b]);
            assert(keys[a] == *sq[a].0);
            assert(keys[b] == *sq[b].0);
        }
        assert forall|i: int| 0 <= i < r@.len() implies week_count(daily@, (#[trigger] r@[i]).0.jd())
            > 0 && r@[i].1 == week_sum(daily@, r@[i].0.jd()) by {
            assert(m.contains_key(*sq[i].0));
        }
        assert forall|w: int| week_count(daily@, w) > 0 implies #[trigger] has_day(r@, w) by {
            assert(julian_in_range(w));
            let k: i32 = w as i32;
            assert(m.contains_key(k));
            assert(sq.contains((&k, &m[k])));
            let i = choose|i: int| 0 <= i < sq.len() && sq[i] == (&k, &m[k]);
            assert(r@[i].0.jd() == w);
        }
        assert forall|i: int| 0 <= i < r@.len() implies days_from_monday((#[trigger] r@[i]).0.jd())
            == 0 by {
            lemma_week_count_monday(daily@, r@[i].0.jd());
        }
    }
    r
}

/// Sum of the seconds of the first `n` entries of `s`.
pub open spec fn prefix_total(s: Seq<(Date, i64)>, n: int) -> int
    decreases n,
{
    if n <= 0 || n > s.len() {
        0
    } else {
        prefix_total(s, n - 1) + s[n - 1].1 as int
    }
}

/// Every running total of `s` fits in an `i64`.
pub open spec fn running_totals_fit(s: Seq<(Date, i64)>) -> bool {
    forall|n: int| 0 <= n <= s.len() ==> fits_i64(#[trigger] prefix_total(s, n))
}

/// Running total of a weekly series: entry `i` keeps the date of `weekly[i]` and holds the sum
/// of entries `0..=i`.
pub fn cumulative_totals(weekly: &[(Date, i64)]) -> (r: Vec<(Date, i64)>)
    requires
        running_totals_fit(weekly@),
    ensures
        r@.len() == weekly@.len(),
        forall|i: int|
            0 <= i < r@.len() ==> (#[trigger] r@[i]).0 == weekly@[i].0 && r@[i].1 == prefix_total(
                weekly@,
                i + 1,
            ),
{
    let mut r: Vec<(Date, i64)> = Vec::new();
    let mut sum: i64 = 0;
    let mut i: usize = 0;
    while i < weekly.len()
        invariant
            i <= weekly@.len(),
            running_totals_fit(weekly@),
            sum == prefix_total(weekly@, i as int),
            r@.len() == i,
            forall|k: int|
                0 <= k < i ==> (#[trigger] r@[k]).0 == weekly@[k].0 && r@[k].1 == prefix_total(
                    weekly@,
                    k + 1,
                ),
        decreases weekly@.len() - i,
    {
        assert(fits_i64(prefix_total(weekly@, i + 1)));
        sum = sum + weekly[i].1;
        r.push((weekly[i].0, sum));
        i = i + 1;
    }
    r
}

/// The sum of the week totals of `daily` for the week starts `keys`.
pub open spec fn sum_weeks(daily: Seq<(Date, i64)>, keys: Seq<int>) -> int
    decreases keys.len(),
{
    if keys.len() == 0 {
        0
    } else {
        sum_weeks(daily, keys.drop_last()) + week_sum(daily, keys.last())
    }
}

proof fn lemma_sum_weeks_empty(keys: Seq<int>)
    ensures
        sum_weeks(Seq::<(Date, i64)>::empty(), keys) == 0,
    decreases keys.len(),
{
    if keys.len() > 0 {
        lemma_sum_weeks_empty(keys.drop_last());
        lemma_week_empty(keys.last());
    }
}

proof fn lemma_sum_weeks_push(daily: Seq<(Date, i64)>, e: (Date, i64), keys: Seq<int>)
    requires
        keys.no_duplicates(),
    ensures
        sum_weeks(daily.push(e), keys) == sum_weeks(daily, keys) + if keys.contains(week_start(e.0)) {
            e.1 as int
        } else {
            0
        },
    decreases keys.len(),
{
    if keys.len() > 0 {
        let init = keys.drop_last();
        assert(init.no_duplicates()) by {
            assert forall|i: int, j: int| 0 <= i < init.len() && 0 <= j < init.len() && i != j implies init[i] != init[j] by {
                assert(init[i] == keys[i] && init[j] == keys[j]);
            }
        }
        lemma_sum_weeks_push(daily, e, init);
        lemma_week_push(daily, e, keys.last());
        let w = week_start(e.0);
        if keys.last() == w {
            assert(!init.contains(w)) by {
                if init.contains(w) {
                    let i = choose|i: int| 0 <= i < init.len() && init[i] == w;
                    assert(keys[i] == keys[keys.len() - 1]);
                }
            }
            assert(keys.contains(w)) by {
                assert(keys[keys.len() - 1] == w);
            }
        } else {
            assert(keys.contains(w) == init.contains(w)) by {
                if keys.contains(w) {
                    let i = choose|i: int| 0 <= i < keys.len() && keys[i] == w;
                    assert(init[i] == w);
                }
                if init.contains(w) {
                    let i = choose|i: int| 0 <= i < init.len() && init[i] == w;
                    assert(keys[i] == w);
                }
            }
        }
    }
}

proof fn lemma_prefix_total_push(s: Seq<(Date, i64)>, e: (Date, i64), n: int)
    requires
        0 <= n <= s.len(),
    ensures
        prefix_total(s.push(e), n) == prefix_total(s, n),
    decreases n,
{
    if n > 0 {
        lemma_prefix_total_push(s, e, n - 1);
    }
}

/// Week totals over any set of distinct week starts that includes every week of `daily` add
/// up to `daily`'s total.
proof fn lemma_weeks_cover_total(daily: Seq<(Date, i64)>, keys: Seq<int>)
    requires
        keys.no_duplicates(),
        forall|w: int| week_count(daily, w) > 0 ==> #[trigger] keys.contains(w),
    ensures
        sum_weeks(daily, keys) == prefix_total(daily, daily.len() as int),
    decreases daily.len(),
{
    if daily.len() == 0 {
        lemma_sum_weeks_empty(keys);
        assert(daily =~= Seq::<(Date, i64)>::empty());
    } else {
        let d = daily.drop_last();
        let e = daily.last();
        assert(d.push(e) =~= daily);
        assert forall|w: int| week_count(d, w) > 0 implies #[trigger] keys.contains(w) by {
            lemma_week_push(d, e, w);
        }
        lemma_weeks_cover_total(d, keys);
        lemma_sum_weeks_push(d, e, keys);
        lemma_week_push(d, e, week_start(e.0));
        assert(keys.contains(week_start(e.0)));
        lemma_prefix_total_push(d, e, d.len() as int);
    }
}

proof fn lemma_weekly_sum_keys(daily: Seq<(Date, i64)>, weekly: Seq<(Date, i64)>, n: int)
    requires
        is_weekly_bucketing(daily, weekly),
        0 <= n <= weekly.len(),
    ensures
        prefix_total(weekly, n) == sum_weeks(daily, weekly.take(n).map_values(|e: (Date, i64)| e.0.jd())),
    decreases n,
{
    let keys = weekly.take(n).map_values(|e: (Date, i64)| e.0.jd());
    if n > 0 {
        lemma_weekly_sum_keys(daily, weekly, n - 1);
        assert(keys.drop_last() =~= weekly.take(n - 1).map_values(|e: (Date, i64)| e.0.jd()));
        assert(keys.last() == weekly[n - 1].0.jd());
    } else {
        assert(keys =~= Seq::<int>::empty());
    }
}

/// Bucketing by week keeps the total: the week totals add up to the daily series' total, so
/// the cumulative view ends at the total time recorded.
pub proof fn law_weekly_keeps_total(daily: Seq<(Date, i64)>, weekly: Seq<(Date, i64)>)
    requires
        is_weekly_bucketing(daily, weekly),
    ensures
        prefix_total(weekly, weekly.len() as int) == prefix_total(daily, daily.len() as int),
{
    let keys = weekly.map_values(|e: (Date, i64)| e.0.jd());
    lemma_weekly_sum_keys(daily, weekly, weekly.len() as int);
    assert(weekly.take(weekly.len() as int) =~= weekly);
    assert(keys.no_duplicates()) by {
        assert forall|i: int, j: int| 0 <= i < keys.len() && 0 <= j < keys.len() && i != j implies keys[i] != keys[j] by {
            if i < j {
                assert(weekly[i].0.jd() < weekly[j].0.jd());
            } else {
                assert(weekly[j].0.jd() < weekly[i].0.jd());
            }
        }
    }
    assert forall|w: int| week_count(daily, w) > 0 implies #[trigger] keys.contains(w) by {
        assert(has_day(weekly, w));
        let i = choose|i: int| 0 <= i < weekly.len() && (#[trigger] weekly[i]).0.jd() == w;
        assert(keys[i] == w);
    }
    lemma_weeks_cover_total(daily, keys);
}

/// Length of the run of days with recorded time that ends the series.
pub open spec fn trailing_run(s: Seq<(Date, i64)>) -> nat
    decreases s.len(),
{
    if s.len() == 0 {
        0
    } else if s.last().1 > 0 {
        trailing_run(s.drop_last()) + 1
    } else {
        0
    }
}

/// Length of the longest run of consecutive entries with recorded time.
pub open spec fn best_run(s: Seq<(Date, i64)>) -> nat
    decreases s.len(),
{
    if s.len() == 0 {
        0
    } else {
        let b = best_run(s.drop_last());
        let t = trailing_run(s);
        if b >= t {
            b
        } else {
            t
        }
    }
}

proof fn lemma_trailing_suffix(s: Seq<(Date, i64)>, k: int)
    requires
        0 <= k <= s.len(),
        forall|i: int| k <= i < s.len() ==> (#[trigger] s[i]).1 > 0,
    ensures
        trailing_run(s) == (s.len() - k) + trailing_run(s.take(k)),
    decreases s.len() - k,
{
    if s.len() > k {
        let d = s.drop_last();
        assert forall|i: int| k <= i < d.len() implies (#[trigger] d[i]).1 > 0 by {
            assert(d[i] == s[i]);
        }
        lemma_trailing_suffix(d, k);
        assert(d.take(k) =~= s.take(k));
    } else {
        assert(s.take(k) =~= s);
    }
}

proof fn lemma_best_run_bounds(s: Seq<(Date, i64)>, k: int)
    requires
        0 <= k <= s.len(),
    ensures
        trailing_run(s) <= best_run(s),
        best_run(s.take(k)) <= best_run(s),
    decreases s.len() - k,
{
    if k < s.len() {
        assert(s.drop_last().take(k) =~= s.take(k));
        lemma_best_run_bounds(s.drop_last(), k);
    } else {
        assert(s.take(k) =~= s);
    }
}

/// Current and best streaks, in days, over a daily series: the current streak counts back from
/// the end of `daily` until the first day without recorded time; the best streak is the
/// longest such run anywhere.
pub fn current_and_best_streak(daily: &[(Date, i64)]) -> (r: (u32, u32))
    requires
        best_run(daily@) <= u32::MAX,
    ensures
        r.0 == trailing_run(daily@),
        r.1 == best_run(daily@),
{
    let n: usize = daily.len();
    let mut current: u32 = 0;
    let mut k: usize = n;
    proof {
        lemma_best_run_bounds(daily@, n as int);
    }
    while k > 0 && daily[k - 1].1 > 0
        invariant
            k <= n == daily@.len(),
            trailing_run(daily@) <= best_run(daily@) <= u32::MAX,
            current == n - k,
            forall|i: int| k <= i < n ==> (#[trigger] daily@[i]).1 > 0,
        decreases k,
    {
        proof {
            lemma_trailing_suffix(daily@, k - 1);
        }
        current = current + 1;
        k = k - 1;
    }
    proof {
        lemma_trailing_suffix(daily@, k as int);
        if k == 0 {
            assert(daily@.take(0) =~= Seq::<(Date, i64)>::empty());
        } else {
            assert(daily@.take(k as int).last() == daily@[k - 1]);
        }
    }
    let mut best: u32 = 0;
    let mut run: u32 = 0;
    let mut i: usize = 0;
    while i < n
        invariant
            i <= n == daily@.len(),
            best_run(daily@) <= u32::MAX,
            run == trailing_run(daily@.take(i as int)),
            best == best_run(daily@.take(i as int)),
        decreases n - i,
    {
        proof {
            assert(daily@.take(i + 1).drop_last() =~= daily@.take(i as int));
            lemma_best_run_bounds(daily@.take(i + 1), i + 1);
            lemma_best_run_bounds(daily@, i + 1);
        }
        if daily[i].1 > 0 {
            run = run + 1;
            if run > best {
                best = run;
            }
        } else {
            run = 0;
        }
        i = i + 1;
    }
    proof {
        assert(daily@.take(n as int) =~= daily@);
    }
    (current, best)
}

/// The `len` entries of `s` from index `j` on all have recorded time.
pub open spec fn recorded_run(s: Seq<(Date, i64)>, j: int, len: int) -> bool {
    &&& 0 <= j
    &&& 0 <= len
    &&& j + len <= s.len()
    &&& forall|i: int| j <= i < j + len ==> (#[trigger] s[i]).1 > 0
}

proof fn lemma_trailing_run_shape(s: Seq<(Date, i64)>)
    ensures
        recorded_run(s, s.len() - trailing_run(s), trailing_run(s) as int),
        trailing_run(s) < s.len() ==> s[s.len() - trailing_run(s) - 1].1 <= 0,
        forall|len: int| #[trigger] recorded_run(s, s.len() - len, len) ==> len <= trailing_run(s),
    decreases s.len(),
{
    if s.len() > 0 {
        let d = s.drop_last();
        lemma_trailing_run_shape(d);
        assert forall|len: int| #[trigger] recorded_run(s, s.len() - len, len) implies len
            <= trailing_run(s) by {
            if len > 0 {
                assert(s[s.len() - 1].1 > 0);
                assert forall|i: int| d.len() - (len - 1) <= i < d.len() implies (#[trigger] d[i]).1
                    > 0 by {
                    assert(d[i] == s[i]);
                }
                assert(recorded_run(d, d.len() - (len - 1), len - 1));
            }
        }
        if s.last().1 > 0 {
            let t = trailing_run(s);
            assert forall|i: int| s.len() - t <= i < s.len() implies (#[trigger] s[i]).1 > 0 by {
                if i < d.len() {
                    assert(d[i] == s[i]);
                }
            }
            if t < s.len() {
                assert(d[d.len() - trailing_run(d) - 1] == s[s.len() - t - 1]);
            }
        }
    }
}

/// The streaks are the longest runs: the current streak is a run of days with recorded time
/// that ends the series and is preceded by a day without (or by nothing), and no run that ends
/// the series is longer; the best streak is the length of some run of days with recorded time
/// in the series, no run in the series is longer, and the current streak is no longer than it.
pub proof fn law_streaks_are_longest_runs(s: Seq<(Date, i64)>)
    ensures
        recorded_run(s, s.len() - trailing_run(s), trailing_run(s) as int),
        trailing_run(s) < s.len() ==> s[s.len() - trailing_run(s) - 1].1 <= 0,
        forall|len: int| #[trigger] recorded_run(s, s.len() - len, len) ==> len <= trailing_run(s),
        exists|j: int| #[trigger] recorded_run(s, j, best_run(s) as int),
        forall|j: int, len: int| #[trigger] recorded_run(s, j, len) ==> len <= best_run(s),
        trailing_run(s) <= best_run(s),
    decreases s.len(),
{
    lemma_trailing_run_shape(s);
    lemma_best_run_bounds(s, 0);
    if s.len() == 0 {
        assert(recorded_run(s, 0, 0));
    } else {
        let d = s.drop_last();
        law_streaks_are_longest_runs(d);
        let b = best_run(d);
        let t = trailing_run(s);
        if b >= t {
            let j = choose|j: int| #[trigger] recorded_run(d, j, b as int);
            assert forall|i: int| j <= i < j + b implies (#[trigger] s[i]).1 > 0 by {
                assert(d[i] == s[i]);
            }
            assert(recorded_run(s, j, best_run(s) as int));
        } else {
            assert(recorded_run(s, s.len() - t, best_run(s) as int));
        }
        assert forall|j: int, len: int| #[trigger] recorded_run(s, j, len) implies len
            <= best_run(s) by {
            if j + len == s.len() {
                assert(recorded_run(s, s.len() - len, len));
            } else {
                assert forall|i: int| j <= i < j + len implies (#[trigger] d[i]).1 > 0 by {
                    assert(d[i] == s[i]);
                }
                assert(recorded_run(d, j, len));
            }
        }
    }
}

/// The heatmap level of a day's total relative to the busiest day: 0 for no time, otherwise
/// `ceil(4 * value / peak)` held between 1 and 4.
pub open spec fn heatmap_level_of(value: int, peak: int) -> int {
    if value <= 0 || peak <= 0 {
        0
    } else {
        let c = (4 * value + peak - 1) / peak;
        if c < 1 {
            1
        } else if c > 4 {
            4
        } else {
            c
        }
    }
}

/// More time never shows a lighter cell: against the same peak, the heatmap level does not
/// decrease as the day's total grows, and the peak day itself is at the top level.
pub proof fn law_heatmap_level_monotonic(v1: int, v2: int, peak: int)
    requires
        v1 <= v2,
    ensures
        heatmap_level_of(v1, peak) <= heatmap_level_of(v2, peak),
        peak > 0 ==> heatmap_level_of(peak, peak) == 4,
{
    if peak > 0 {
        vstd::arithmetic::div_mod::lemma_div_is_ordered(4 * v1 + peak - 1, 4 * v2 + peak - 1, peak);
        assert((4 * peak + peak - 1) / peak == 4) by {
            vstd::arithmetic::div_mod::lemma_fundamental_div_mod_converse(4 * peak + peak - 1, peak, 4, peak - 1);
        }
    }
}

/// Buckets a day's seconds into a 5-step intensity level (0..=4) relative to `peak`.
pub fn heatmap_level(value: i64, peak: i64) -> (r: u8)
    ensures
        r == heatmap_level_of(value as int, peak as int),
        r <= 4,
{
    if value <= 0 || peak <= 0 {
        return 0;
    }
    let c: i128 = (4 * value as i128 + peak as i128 - 1) / peak as i128;
    if c < 1 {
        1
    } else if c > 4 {
        4
    } else {
        c as u8
    }
}

/// The entry of `daily` for Julian day `day`, the last one winning.
pub open spec fn entry_for(daily: Seq<(Date, i64)>, day: int) -> Option<(int, i64)>
    decreases daily.len(),
{
    if daily.len() == 0 {
        None
    } else if daily.last().0.jd() == day {
        Some((day, daily.last().1))
    } else {
        entry_for(daily.drop_last(), day)
    }
}

/// A heatmap cell as `(Julian day, seconds)`.
pub open spec fn cell_view(c: Option<(Date, i64)>) -> Option<(int, i64)> {
    match c {
        Some(p) => Some((p.0.jd(), p.1)),
        None => None,
    }
}

/// Julian day number of the Saturday that closes the week of the last day of `daily`.
pub open spec fn heatmap_week_end(daily: Seq<(Date, i64)>) -> int {
    let t = daily.last().0.jd();
    t + 6 - days_from_sunday(t)
}

/// The days the heatmap steps over stay within the dates `time` represents.
pub open spec fn heatmap_in_range(daily: Seq<(Date, i64)>, max_weeks: int) -> bool {
    daily.len() > 0 ==> {
        &&& heatmap_week_end(daily) <= MAX_JULIAN_DAY
        &&& heatmap_week_end(daily) - 7 * max_weeks + 1 >= MIN_JULIAN_DAY
    }
}

/// The seconds of each day of `daily` by Julian day number, a later entry for a day replacing
/// an earlier one.
fn seconds_by_day(daily: &[(Date, i64)]) -> (m: HashMap<i32, i64>)
    ensures
        forall|day: i32| #[trigger]
            m@.contains_key(day) ==> entry_for(daily@, day as int) == Some((day as int, m@[day])),
        forall|day: i32| !#[trigger] m@.contains_key(day) ==> entry_for(daily@, day as int) is None,
{
    let mut m: HashMap<i32, i64> = HashMap::new();
    let mut k: usize = 0;
    while k < daily.len()
        invariant
            k <= daily@.len(),
            forall|day: i32| #[trigger]
                m@.contains_key(day) ==> entry_for(daily@.take(k as int), day as int) == Some(
                    (day as int, m@[day]),
                ),
            forall|day: i32|
                !#[trigger] m@.contains_key(day) ==> entry_for(daily@.take(k as int), day as int) is None,
        decreases daily@.len() - k,
    {
        let ghost before = m@;
        let ghost t = daily@.take(k + 1);
        proof {
            assert(t.drop_last() =~= daily@.take(k as int));
            assert(t.last() == daily@[k as int]);
        }
        let key: i32 = daily[k].0.julian_day();
        m.insert(key, daily[k].1);
        proof {
            assert forall|day: i32| #[trigger] m@.contains_key(day) implies entry_for(t, day as int)
                == Some((day as int, m@[day])) by {
                if day != key {
                    assert(before.contains_key(day));
                }
            }
        }
        k = k + 1;
    }
    proof {
        assert(daily@.take(daily@.len() as int) =~= daily@);
    }
    m
}

fn entry_for_day(by_day: &HashMap<i32, i64>, Ghost(daily): Ghost<Seq<(Date, i64)>>, day: Date) -> (r:
    Option<(Date, i64)>)
    requires
        forall|d: i32| #[trigger]
            by_day@.contains_key(d) ==> entry_for(daily, d as int) == Some((d as int, by_day@[d])),
        forall|d: i32| !#[trigger] by_day@.contains_key(d) ==> entry_for(daily, d as int) is None,
    ensures
        cell_view(r) == entry_for(daily, day.jd()),
{
    let key: i32 = day.julian_day();
    match by_day.get(&key) {
        Some(v) => Some((day, *v)),
        None => None,
    }
}

/// Buckets an ascending, zero-filled daily series into Sunday-start week columns, the last
/// `max_weeks` of them, oldest first. Slot `i` of a column is day `i` of that
/// week (Sunday first), `None` where that day has no entry in `daily`.
pub fn heatmap_weeks(daily: &[(Date, i64)], max_weeks: usize) -> (r: Vec<[Option<(Date, i64)>; 7]>)
    requires
        heatmap_in_range(daily@, max_weeks as int),
    ensures
        daily@.len() == 0 ==> r@.len() == 0,
        daily@.len() > 0 ==> r@.len() == max_weeks,
        daily@.len() > 0 ==> forall|k: int, i: int|
            0 <= k < r@.len() && 0 <= i < 7 ==> cell_view(#[trigger] r@[k]@[i]) == entry_for(
                daily@,
                heatmap_week_end(daily@) - 7 * (r@.len() - k) + 1 + i,
            ),
{
    if daily.len() == 0 {
        return Vec::new();
    }
    let by_day = seconds_by_day(daily);
    let today = daily[daily.len() - 1].0;
    let back = today.number_days_from_sunday();
    let week_end = today.add_days(6 - back as i64);
    let n: usize = max_weeks;
    let mut weeks: Vec<[Option<(Date, i64)>; 7]> = Vec::new();
    let mut k: usize = 0;
    while k < n
        invariant
            k <= n,
            n == max_weeks,
            daily@.len() > 0,
            heatmap_in_range(daily@, max_weeks as int),
            week_end.jd() == heatmap_week_end(daily@),
            forall|d: i32| #[trigger]
                by_day@.contains_key(d) ==> entry_for(daily@, d as int) == Some((d as int, by_day@[d])),
            forall|d: i32| !#[trigger] by_day@.contains_key(d) ==> entry_for(daily@, d as int) is None,
            weeks@.len() == k,
            forall|kk: int, i: int|
                0 <= kk < k && 0 <= i < 7 ==> cell_view(#[trigger] weeks@[kk]@[i]) == entry_for(
                    daily@,
                    heatmap_week_end(daily@) - 7 * (n - kk) + 1 + i,
                ),
        decreases n - k,
    {
        let w: i64 = (n - 1 - k) as i64;
        let sunday = week_end.add_days(-(7 * w + 6));
        let c0 = entry_for_day(&by_day, Ghost(daily@), sunday);
        let c1 = entry_for_day(&by_day, Ghost(daily@), sunday.add_days(1));
        let c2 = entry_for_day(&by_day, Ghost(daily@), sunday.add_days(2));
        let c3 = entry_for_day(&by_day, Ghost(daily@), sunday.add_days(3));
        let c4 = entry_for_day(&by_day, Ghost(daily@), sunday.add_days(4));
        let c5 = entry_for_day(&by_day, Ghost(daily@), sunday.add_days(5));
        let c6 = entry_for_day(&by_day, Ghost(daily@), sunday.add_days(6));
        let column = [c0, c1, c2, c3, c4, c5, c6];
        weeks.push(column);
        proof {
            assert forall|i: int| 0 <= i < 7 implies cell_view(#[trigger] weeks@[k as int]@[i])
                == entry_for(daily@, heatmap_week_end(daily@) - 7 * (n - k) + 1 + i) by {
                assert(weeks@[k as int]@ == seq![c0, c1, c2, c3, c4, c5, c6]);
            }
        }
        k = k + 1;
    }
    weeks
}

} // verus!
