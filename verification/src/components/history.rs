//! The history pane's state: the loaded daily series and which aggregation is shown.

use vstd::prelude::*;

use crate::action::{Action, KeyCode};
use crate::calendar::{calendar_of_julian, Date};
use crate::history::HistoryView;
use crate::text::{dec, push_dec, push_str, string_of};

verus! {

/// The loaded daily series and the active view; switching views (`d`/`w`/`c`) is local.
#[derive(Debug)]
pub struct HistoryComponent {
    pub daily: Vec<(Date, i64)>,
    pub view: HistoryView,
}

/// The series with today's entry replaced by the live total for today.
pub open spec fn adjusted(daily: Seq<(Date, i64)>, today: Date, today_total_secs: u64) -> Seq<(Date, i64)> {
    daily.map_values(|e: (Date, i64)| if e.0.jd() == today.jd() {
        (e.0, today_total_secs as i64)
    } else {
        e
    })
}

/// The pane's series keeps every day of the loaded one, in order; each entry dated today holds
/// exactly the live total for today, whatever was stored for it, and every other entry is as
/// loaded.
pub proof fn law_adjusted_shows_live_today(daily: Seq<(Date, i64)>, today: Date, today_total_secs: u64)
    ensures
        adjusted(daily, today, today_total_secs).len() == daily.len(),
        forall|i: int| 0 <= i < daily.len() ==> {
            let e = #[trigger] adjusted(daily, today, today_total_secs)[i];
            &&& e.0 == daily[i].0
            &&& daily[i].0.jd() == today.jd() ==> e.1 == today_total_secs as i64
            &&& daily[i].0.jd() == today.jd() && today_total_secs <= i64::MAX ==> e.1 == today_total_secs
            &&& daily[i].0.jd() != today.jd() ==> e.1 == daily[i].1
        },
{
}

fn copy_series(v: &Vec<(Date, i64)>) -> (r: Vec<(Date, i64)>)
    ensures
        r@ == v@,
{
    let mut r: Vec<(Date, i64)> = Vec::new();
    let mut i: usize = 0;
    while i < v.len()
        invariant
            i <= v@.len(),
            r@ == v@.subrange(0, i as int),
        decreases v@.len() - i,
    {
        r.push(v[i]);
        i = i + 1;
        assert(r@ =~= v@.subrange(0, i as int));
    }
    assert(v@.subrange(0, i as int) =~= v@);
    r
}

impl HistoryComponent {
    pub fn new() -> (r: Self)
        ensures
            r.daily@.len() == 0,
            r.view == HistoryView::Daily,
    {
        HistoryComponent { daily: Vec::new(), view: HistoryView::Daily }
    }

    pub fn set_view(&mut self, view: HistoryView)
        ensures
            final(self).view == view,
            final(self).daily == old(self).daily,
    {
        self.view = view;
    }

    /// The loaded series with today's bucket replaced by `today_total_secs`, so the pane shows
    /// the running session's live time rather than only what is stored.
    pub fn adjusted_daily(&self, today: Date, today_total_secs: u64) -> (r: Vec<(Date, i64)>)
        ensures
            r@ == adjusted(self.daily@, today, today_total_secs),
    {
        let mut r: Vec<(Date, i64)> = Vec::new();
        let t = today.julian_day();
        let mut i: usize = 0;
        while i < self.daily.len()
            invariant
                i <= self.daily@.len(),
                t == today.jd(),
                r@ == adjusted(self.daily@.subrange(0, i as int), today, today_total_secs),
            decreases self.daily@.len() - i,
        {
            let (d, secs) = self.daily[i];
            if d.julian_day() == t {
                r.push((d, today_total_secs as i64));
            } else {
                r.push((d, secs));
            }
            i = i + 1;
            assert(r@ =~= adjusted(self.daily@.subrange(0, i as int), today, today_total_secs));
        }
        assert(self.daily@.subrange(0, i as int) =~= self.daily@);
        r
    }

    /// Takes a loaded series, or switches view on `d` (daily), `w` (weekly), `c` (cumulative).
    pub fn handle_action(&mut self, action: &Action) -> (r: Option<Action>)
        ensures
            r is None,
            match action {
                Action::HistoryLoaded(entries) => final(self).daily@ == entries@ && final(self).view
                    == old(self).view,
                Action::Key(k) => final(self).daily == old(self).daily && final(self).view == (match k.code {
                    KeyCode::Char('d') => HistoryView::Daily,
                    KeyCode::Char('w') => HistoryView::Weekly,
                    KeyCode::Char('c') => HistoryView::Cumulative,
                    _ => old(self).view,
                }),
                _ => final(self).daily == old(self).daily && final(self).view == old(self).view,
            },
    {
        match action {
            Action::HistoryLoaded(entries) => {
                self.daily = copy_series(entries);
            },
            Action::Key(key) => {
                match key.code {
                    KeyCode::Char('d') => self.view = HistoryView::Daily,
                    KeyCode::Char('w') => self.view = HistoryView::Weekly,
                    KeyCode::Char('c') => self.view = HistoryView::Cumulative,
                    _ => {},
                }
            },
            _ => {},
        }
        None
    }
}

impl Default for HistoryComponent {
    fn default() -> (r: Self)
        ensures
            r.daily@.len() == 0,
            r.view == HistoryView::Daily,
    {
        Self::new()
    }
}

/// `{h}h {m}m`, or `{m}m` under an hour, for a number of seconds (negative counts as zero).
pub open spec fn minutes_text(total_secs: int) -> Seq<char> {
    let total_min = (if total_secs < 0 { 0 } else { total_secs }) / 60;
    let h = total_min / 60;
    let m = total_min % 60;
    if h > 0 {
        dec(h as nat) + "h "@ + dec(m as nat) + "m"@
    } else {
        dec(m as nat) + "m"@
    }
}

/// Formats seconds as hours and minutes for the chart's stats line.
pub fn format_minutes(total_secs: i64) -> (r: String)
    ensures
        r@ == minutes_text(total_secs as int),
{
    let secs: u64 = if total_secs < 0 { 0 } else { total_secs as u64 };
    let total_min = secs / 60;
    let h = total_min / 60;
    let m = total_min % 60;
    let mut v: Vec<char> = Vec::new();
    if h > 0 {
        push_dec(&mut v, h);
        push_str(&mut v, "h ");
        push_dec(&mut v, m);
        push_str(&mut v, "m");
    } else {
        push_dec(&mut v, m);
        push_str(&mut v, "m");
    }
    assert(v@ =~= minutes_text(total_secs as int));
    string_of(v.as_slice())
}

/// The three-letter name of a month (1 is January).
pub open spec fn month_abbrev_text(month: int) -> Seq<char> {
    if month == 1 { "Jan"@ } else if month == 2 { "Feb"@ } else if month == 3 { "Mar"@ }
    else if month == 4 { "Apr"@ } else if month == 5 { "May"@ } else if month == 6 { "Jun"@ }
    else if month == 7 { "Jul"@ } else if month == 8 { "Aug"@ } else if month == 9 { "Sep"@ }
    else if month == 10 { "Oct"@ } else if month == 11 { "Nov"@ } else { "Dec"@ }
}

/// The heatmap's month label.
pub fn month_abbrev(month: u8) -> (r: &'static str)
    requires
        1 <= month <= 12,
    ensures
        r@ == month_abbrev_text(month as int),
{
    match month {
        1 => "Jan",
        2 => "Feb",
        3 => "Mar",
        4 => "Apr",
        5 => "May",
        6 => "Jun",
        7 => "Jul",
        8 => "Aug",
        9 => "Sep",
        10 => "Oct",
        11 => "Nov",
        _ => "Dec",
    }
}

/// The largest value of a series, or zero for an empty one.
pub open spec fn series_peak(s: Seq<(Date, i64)>) -> int
    decreases s.len(),
{
    if s.len() == 0 {
        0
    } else {
        let p = series_peak(s.drop_last());
        if s.len() == 1 || s.last().1 > p {
            s.last().1 as int
        } else {
            p
        }
    }
}

/// The sum of a series' values.
pub open spec fn series_total(s: Seq<(Date, i64)>) -> int
    decreases s.len(),
{
    if s.len() == 0 {
        0
    } else {
        series_total(s.drop_last()) + s.last().1
    }
}

/// Every running sum of the series fits in an `i64`.
pub open spec fn totals_fit(s: Seq<(Date, i64)>) -> bool {
    forall|k: int| 0 <= k <= s.len() ==> i64::MIN <= #[trigger] series_total(s.subrange(0, k)) <= i64::MAX
}

/// The peak and the total of a series, as the chart's stats line shows them.
pub fn peak_and_total(s: &[(Date, i64)]) -> (r: (i64, i64))
    requires
        totals_fit(s@),
    ensures
        r.0 == series_peak(s@),
        r.1 == series_total(s@),
{
    let mut peak: i64 = 0;
    let mut total: i64 = 0;
    let mut i: usize = 0;
    while i < s.len()
        invariant
            i <= s@.len(),
            totals_fit(s@),
            peak == series_peak(s@.subrange(0, i as int)),
            total == series_total(s@.subrange(0, i as int)),
        decreases s@.len() - i,
    {
        let v = s[i].1;
        proof {
            let pre = s@.subrange(0, i + 1);
            assert(pre.drop_last() =~= s@.subrange(0, i as int));
            assert(pre.last() == s@[i as int]);
            assert(i64::MIN <= series_total(s@.subrange(0, i + 1)) <= i64::MAX);
        }
        if i == 0 || v > peak {
            peak = v;
        }
        total = total + v;
        i = i + 1;
    }
    assert(s@.subrange(0, i as int) =~= s@);
    (peak, total)
}

/// Whether every value of the series is zero (nothing recorded yet).
pub fn all_zero(s: &[(Date, i64)]) -> (r: bool)
    ensures
        r == forall|k: int| 0 <= k < s@.len() ==> #[trigger] s@[k].1 == 0,
{
    let mut i: usize = 0;
    while i < s.len()
        invariant
            i <= s@.len(),
            forall|k: int| 0 <= k < i ==> #[trigger] s@[k].1 == 0,
        decreases s@.len() - i,
    {
        if s[i].1 != 0 {
            return false;
        }
        i = i + 1;
    }
    true
}

/// How many week columns the heatmap draws in a grid `width` cells wide (past the weekday
/// gutter) for `days` days of data: as many two-cell columns as fit, but no more than the data
/// can fill (one more than its whole weeks, for partial weeks at both ends), and at least one.
pub open spec fn heatmap_columns_for(width: int, days: int) -> int {
    let capacity = if (width - 3) / 2 < 1 { 1 } else { (width - 3) / 2 };
    let data_weeks = (days + 6) / 7 + 1;
    if capacity < data_weeks { capacity } else { data_weeks }
}

pub fn heatmap_column_count(width: u16, days: usize) -> (r: usize)
    requires
        width > 3,
        days < usize::MAX - 7,
    ensures
        r == heatmap_columns_for(width as int, days as int),
{
    let c: usize = ((width - 3) / 2) as usize;
    let capacity: usize = if c < 1 { 1 } else { c };
    let data_weeks: usize = (days + 6) / 7 + 1;
    if capacity < data_weeks { capacity } else { data_weeks }
}

/// A bar's height in the weekly and cumulative charts: whole minutes, negatives as zero.
pub fn bar_minutes(secs: i64) -> (r: u64)
    ensures
        r == (if secs < 0 { 0 } else { secs / 60 }),
{
    if secs < 0 { 0 } else { (secs / 60) as u64 }
}

/// The month of the first cell of a week column that falls on the first of a month, if any.
pub open spec fn first_of_month(week: Seq<Option<(Date, i64)>>) -> Option<u8>
    decreases week.len(),
{
    if week.len() == 0 {
        None
    } else {
        match week[0] {
            Some(e) => if calendar_of_julian(e.0.jd() as i32).2 == 1 {
                Some(calendar_of_julian(e.0.jd() as i32).1)
            } else {
                first_of_month(week.drop_first())
            },
            None => first_of_month(week.drop_first()),
        }
    }
}

/// The month label over each heatmap column: the month starting in that column, shown only
/// when it differs from the last label shown to its left.
pub open spec fn month_labels(weeks: Seq<[Option<(Date, i64)>; 7]>, last: Option<u8>) -> Seq<Option<u8>>
    decreases weeks.len(),
{
    if weeks.len() == 0 {
        Seq::empty()
    } else {
        match first_of_month(weeks[0]@) {
            Some(m) => if last != Some(m) {
                seq![Some(m)] + month_labels(weeks.drop_first(), Some(m))
            } else {
                seq![None::<u8>] + month_labels(weeks.drop_first(), last)
            },
            None => seq![None::<u8>] + month_labels(weeks.drop_first(), last),
        }
    }
}

fn first_of_month_in(week: &[Option<(Date, i64)>; 7]) -> (r: Option<u8>)
    ensures
        r == first_of_month(week@),
{
    let mut i: usize = 0;
    proof {
        assert(week@.subrange(0, 7) =~= week@);
    }
    while i < 7
        invariant
            i <= 7,
            week@.len() == 7,
            first_of_month(week@) == first_of_month(week@.subrange(i as int, 7)),
        decreases 7 - i,
    {
        proof {
            assert(week@.subrange(i as int, 7).drop_first() =~= week@.subrange(i + 1, 7));
            assert(week@.subrange(i as int, 7)[0] == week@[i as int]);
        }
        if let Some((d, _)) = week[i] {
            let (_, month, day) = d.to_calendar_date();
            if day == 1 {
                return Some(month);
            }
        }
        i = i + 1;
    }
    proof {
        assert(week@.subrange(7, 7) =~= Seq::<Option<(Date, i64)>>::empty());
    }
    None
}

/// The month labels over the heatmap's columns, left to right.
pub fn heatmap_month_labels(weeks: &Vec<[Option<(Date, i64)>; 7]>) -> (r: Vec<Option<u8>>)
    ensures
        r@ == month_labels(weeks@, None),
{
    let mut out: Vec<Option<u8>> = Vec::new();
    let mut last: Option<u8> = None;
    let mut i: usize = 0;
    proof {
        assert(weeks@.subrange(0, weeks@.len() as int) =~= weeks@);
    }
    while i < weeks.len()
        invariant
            i <= weeks@.len(),
            month_labels(weeks@, None) == out@ + month_labels(weeks@.subrange(i as int, weeks@.len() as int), last),
        decreases weeks@.len() - i,
    {
        let ghost rest = weeks@.subrange(i as int, weeks@.len() as int);
        proof {
            assert(rest.drop_first() =~= weeks@.subrange(i + 1, weeks@.len() as int));
            assert(rest[0] == weeks@[i as int]);
        }
        let ghost old_last = last;
        let label = match first_of_month_in(&weeks[i]) {
            Some(m) => if last != Some(m) {
                last = Some(m);
                Some(m)
            } else {
                None
            },
            None => None,
        };
        let ghost before = out@;
        out.push(label);
        proof {
            let next = weeks@.subrange(i + 1, weeks@.len() as int);
            assert(month_labels(rest, old_last) == seq![label] + month_labels(next, last));
            assert(out@ + month_labels(next, last) =~= before + (seq![label] + month_labels(next, last)));
        }
        i = i + 1;
    }
    proof {
        assert(weeks@.subrange(i as int, weeks@.len() as int) =~= Seq::<[Option<(Date, i64)>; 7]>::empty());
        assert(out@ + Seq::<Option<u8>>::empty() =~= out@);
    }
    out
}

} // verus!
