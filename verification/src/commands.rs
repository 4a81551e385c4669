//! The neovim-style `:command` line: tokenizing, duration and start-time arguments, and the
//! verb table that turns a line into a `Command`.

use vstd::prelude::*;

use crate::calendar::{
    moment_nanos_at, now_local, parse_hm, parse_ymd_hm, parsed_hm, parsed_ymd_hm, Date, Moment,
};
use crate::errors::{invalid_command, invalid_message, invalid_with, AppError};
use crate::history::{history_view_named, today_local, HistoryView};
use crate::session_filter::words_from;
use crate::text::{
    lemma_digits_value_nonneg, all_digits, char_is_digit, chars_eq, chars_of, digits_u64, digits_value, find_non_ws, find_ws,
    is_digit, is_ws, non_ws_from, parse_i64, parse_i64_spec, string_of, sub_chars, trim, trimmed,
    ws_from, lemma_non_ws_from_bounds, lemma_ws_from_bounds,
};

verus! {

/// Seconds per duration unit letter, 0 for a letter that is not a unit.
pub open spec fn unit_secs(c: char) -> int {
    if c == 'h' {
        3600
    } else if c == 'm' {
        60
    } else if c == 's' {
        1
    } else {
        0
    }
}

/// Where scanning a compound duration such as `1h30m` stands after some characters.
pub enum DurState {
    /// Still reading: `total` seconds so far, the pending number starts at `num_start`, and
    /// `saw_unit` tells whether a unit has been read.
    Going { total: int, num_start: int, saw_unit: bool },
    /// The text is not a duration.
    Failed,
    /// A product or sum went past `u64::MAX` (the arithmetic panics there).
    Overflowed,
}

/// The scan state after the first `k` characters of `t`.
pub open spec fn dur_state(t: Seq<char>, k: int) -> DurState
    decreases k,
{
    if k <= 0 {
        DurState::Going { total: 0, num_start: 0, saw_unit: false }
    } else {
        match dur_state(t, k - 1) {
            DurState::Going { total, num_start, saw_unit } => {
                let c = t[k - 1];
                if is_digit(c) {
                    DurState::Going { total, num_start, saw_unit }
                } else {
                    let num = t.subrange(num_start, k - 1);
                    if num.len() == 0 || digits_value(num) > u64::MAX {
                        DurState::Failed
                    } else if unit_secs(c) == 0 {
                        DurState::Failed
                    } else {
                        let add = digits_value(num) * unit_secs(c);
                        if add > u64::MAX || total + add > u64::MAX {
                            DurState::Overflowed
                        } else {
                            DurState::Going { total: total + add, num_start: k, saw_unit: true }
                        }
                    }
                }
            },
            other => other,
        }
    }
}

/// What reading a duration argument gives.
pub enum DurOutcome {
    Invalid,
    Overflow,
    Secs(u64),
}

/// A duration argument: `1h`/`5m`/`30s`, optionally combined (`1h30m`), or a bare number of
/// minutes, with surrounding whitespace ignored.
pub open spec fn duration_outcome(s: Seq<char>) -> DurOutcome {
    let t = trim(s);
    if t.len() == 0 {
        DurOutcome::Invalid
    } else if all_digits(t) {
        if digits_value(t) > u64::MAX {
            DurOutcome::Invalid
        } else if digits_value(t) * 60 > u64::MAX {
            DurOutcome::Overflow
        } else {
            DurOutcome::Secs((digits_value(t) * 60) as u64)
        }
    } else {
        match dur_state(t, t.len() as int) {
            DurState::Going { total, num_start, saw_unit } => {
                if num_start < t.len() || !saw_unit {
                    DurOutcome::Invalid
                } else {
                    DurOutcome::Secs(total as u64)
                }
            },
            DurState::Failed => DurOutcome::Invalid,
            DurState::Overflowed => DurOutcome::Overflow,
        }
    }
}

proof fn lemma_dur_state_sticks(t: Seq<char>, i: int, k: int)
    requires
        0 <= i <= k,
        dur_state(t, i) is Failed || dur_state(t, i) is Overflowed,
    ensures
        dur_state(t, k) == dur_state(t, i),
    decreases k - i,
{
    if k > i {
        lemma_dur_state_sticks(t, i, k - 1);
    }
}

proof fn lemma_dur_state_going(t: Seq<char>, k: int)
    requires
        0 <= k <= t.len(),
        dur_state(t, k) is Going,
    ensures
        0 <= dur_state(t, k)->num_start <= k,
        0 <= dur_state(t, k)->total <= u64::MAX,
        all_digits(t.subrange(dur_state(t, k)->num_start, k)),
    decreases k,
{
    if k > 0 {
        lemma_dur_state_going(t, k - 1);
        let p = dur_state(t, k - 1);
        if is_digit(t[k - 1]) {
            let ns = p->num_start;
            assert(t.subrange(ns, k).drop_last() =~= t.subrange(ns, k - 1));
            assert forall|i: int| 0 <= i < k - ns implies is_digit(#[trigger] t.subrange(ns, k)[i]) by {
                if i < k - 1 - ns {
                    assert(t.subrange(ns, k)[i] == t.subrange(ns, k - 1)[i]);
                }
            }
        } else {
            assert(t.subrange(k, k) =~= Seq::<char>::empty());
            if p is Going {
                crate::text::lemma_digits_value_nonneg(t.subrange(p->num_start, k - 1));
            }
        }
    } else {
        assert(t.subrange(0, 0) =~= Seq::<char>::empty());
    }
}

/// Reads a duration argument, telling an invalid one from one too large for `u64` seconds.
pub fn read_duration(s: &Vec<char>) -> (r: DurOutcome)
    ensures
        r == duration_outcome(s@),
{
    let t = trimmed(s);
    if t.len() == 0 {
        return DurOutcome::Invalid;
    }
    let mut all: bool = true;
    let mut i: usize = 0;
    while i < t.len()
        invariant
            i <= t@.len(),
            all == all_digits(t@.subrange(0, i as int)),
        decreases t@.len() - i,
    {
        if !char_is_digit(t[i]) {
            all = false;
        }
        i = i + 1;
        proof {
            if all {
                assert forall|k: int| 0 <= k < i implies is_digit(#[trigger] t@.subrange(0, i as int)[k]) by {
                    if k < i - 1 {
                        assert(t@.subrange(0, i as int)[k] == t@.subrange(0, i - 1)[k]);
                    }
                }
            } else {
                if all_digits(t@.subrange(0, i as int)) {
                    assert forall|k: int| 0 <= k < i - 1 implies is_digit(#[trigger] t@.subrange(0, i - 1)[k]) by {
                        assert(t@.subrange(0, i as int)[k] == t@.subrange(0, i - 1)[k]);
                    }
                    assert(t@.subrange(0, i as int)[i - 1] == t@[i - 1]);
                }
            }
        }
    }
    assert(t@.subrange(0, i as int) =~= t@);
    if all {
        assert(t@.subrange(0, t@.len() as int) =~= t@);
        match digits_u64(&t, 0, t.len()) {
            Some(m) => {
                proof {
                    lemma_digits_value_nonneg(t@);
                    assert(digits_value(t@) == m);
                }
                match m.checked_mul(60) {
                    Some(v) => {
                        return DurOutcome::Secs(v);
                    },
                    None => {
                        return DurOutcome::Overflow;
                    },
                }
            },
            None => {
                return DurOutcome::Invalid;
            },
        }
    }
    let mut total: u64 = 0;
    let mut num_start: usize = 0;
    let mut saw_unit: bool = false;
    let mut k: usize = 0;
    while k < t.len()
        invariant
            k <= t@.len(),
            t@ == trim(s@),
            !all_digits(t@),
            dur_state(t@, k as int) == (DurState::Going {
                total: total as int,
                num_start: num_start as int,
                saw_unit,
            }),
            num_start <= k,
        decreases t@.len() - k,
    {
        let c = t[k];
        if char_is_digit(c) {
            k = k + 1;
        } else {
            let ghost num = t@.subrange(num_start as int, k as int);
            let n = digits_u64(&t, num_start, k);
            proof {
                lemma_dur_state_going(t@, k as int);
            }
            match n {
                None => {
                    proof {
                        lemma_dur_state_sticks(t@, k + 1, t@.len() as int);
                    }
                    return DurOutcome::Invalid;
                },
                Some(n) => {
                    if num_start == k {
                        proof {
                            lemma_dur_state_sticks(t@, k + 1, t@.len() as int);
                        }
                        return DurOutcome::Invalid;
                    }
                    let unit: u64 = if c == 'h' {
                        3600
                    } else if c == 'm' {
                        60
                    } else if c == 's' {
                        1
                    } else {
                        0
                    };
                    if unit == 0 {
                        proof {
                            lemma_dur_state_sticks(t@, k + 1, t@.len() as int);
                        }
                        return DurOutcome::Invalid;
                    }
                    let ghost add: int = n as int * unit as int;
                    proof {
                        lemma_digits_value_nonneg(num);
                        assert(digits_value(num) == n);
                        assert(unit as int == unit_secs(c));
                        assert(0 <= add) by (nonlinear_arith)
                            requires
                                add == n as int * unit as int,
                        ;
                    }
                    let prod = match n.checked_mul(unit) {
                        Some(p) => p,
                        None => {
                            proof {
                                assert(dur_state(t@, k + 1) == DurState::Overflowed);
                                lemma_dur_state_sticks(t@, k + 1, t@.len() as int);
                            }
                            return DurOutcome::Overflow;
                        },
                    };
                    let sum = match total.checked_add(prod) {
                        Some(x) => x,
                        None => {
                            proof {
                                assert(dur_state(t@, k + 1) == DurState::Overflowed);
                                lemma_dur_state_sticks(t@, k + 1, t@.len() as int);
                            }
                            return DurOutcome::Overflow;
                        },
                    };
                    total = sum;
                    saw_unit = true;
                    k = k + 1;
                    num_start = k;
                }
            }
        }
    }
    if num_start < t.len() || !saw_unit {
        return DurOutcome::Invalid;
    }
    DurOutcome::Secs(total)
}

proof fn lemma_subrange_of_prefix(t: Seq<char>, t2: Seq<char>, k: int, a: int, b: int)
    requires
        0 <= a <= b <= k <= t.len(),
        k <= t2.len(),
        t.subrange(0, k) == t2.subrange(0, k),
    ensures
        t.subrange(a, b) == t2.subrange(a, b),
{
    assert forall|i: int| 0 <= i < b - a implies #[trigger] t.subrange(a, b)[i] == t2.subrange(a, b)[i] by {
        let x = t.subrange(0, k);
        let y = t2.subrange(0, k);
        assert(x[a + i] == t[a + i]);
        assert(y[a + i] == t2[a + i]);
        assert(x[a + i] == y[a + i]);
        assert(t.subrange(a, b)[i] == t[a + i]);
        assert(t2.subrange(a, b)[i] == t2[a + i]);
    }
    assert(t.subrange(a, b) =~= t2.subrange(a, b));
}

proof fn lemma_dur_state_prefix(t: Seq<char>, t2: Seq<char>, k: int)
    requires
        0 <= k <= t.len(),
        k <= t2.len(),
        t.subrange(0, k) == t2.subrange(0, k),
    ensures
        dur_state(t, k) == dur_state(t2, k),
    decreases k,
{
    if k > 0 {
        lemma_subrange_of_prefix(t, t2, k, 0, k - 1);
        lemma_dur_state_prefix(t, t2, k - 1);
        lemma_subrange_of_prefix(t, t2, k, k - 1, k);
        assert(t[k - 1] == t.subrange(k - 1, k)[0]);
        assert(t2[k - 1] == t2.subrange(k - 1, k)[0]);
        let p = dur_state(t, k - 1);
        if p is Going {
            lemma_dur_state_going(t, k - 1);
            lemma_subrange_of_prefix(t, t2, k, p->num_start, k - 1);
        }
    }
}

proof fn lemma_dur_state_digits(t: Seq<char>, a: int, k: int)
    requires
        0 <= a <= k <= t.len(),
        dur_state(t, a) is Going,
        forall|i: int| a <= i < k ==> is_digit(#[trigger] t[i]),
    ensures
        dur_state(t, k) == dur_state(t, a),
    decreases k - a,
{
    if k > a {
        lemma_dur_state_digits(t, a, k - 1);
    }
}

/// A part of a compound duration: a non-empty run of digits and a unit letter `h`, `m` or `s`.
pub open spec fn duration_part_ok(p: (Seq<char>, char)) -> bool {
    p.0.len() > 0 && all_digits(p.0) && unit_secs(p.1) > 0
}

/// The text of a compound duration: each number followed by its unit letter, as in `1h30m`.
pub open spec fn compound_text(parts: Seq<(Seq<char>, char)>) -> Seq<char>
    decreases parts.len(),
{
    if parts.len() == 0 {
        Seq::empty()
    } else {
        compound_text(parts.drop_last()) + parts.last().0 + seq![parts.last().1]
    }
}

/// The seconds a compound duration stands for: each number times the seconds of its unit.
pub open spec fn compound_secs(parts: Seq<(Seq<char>, char)>) -> int
    decreases parts.len(),
{
    if parts.len() == 0 {
        0
    } else {
        compound_secs(parts.drop_last()) + digits_value(parts.last().0) * unit_secs(parts.last().1)
    }
}

proof fn lemma_compound_state(parts: Seq<(Seq<char>, char)>)
    requires
        forall|i: int| 0 <= i < parts.len() ==> duration_part_ok(#[trigger] parts[i]),
        compound_secs(parts) <= u64::MAX,
    ensures
        compound_secs(parts) >= 0,
        dur_state(compound_text(parts), compound_text(parts).len() as int) == (DurState::Going {
            total: compound_secs(parts),
            num_start: compound_text(parts).len() as int,
            saw_unit: parts.len() > 0,
        }),
    decreases parts.len(),
{
    if parts.len() > 0 {
        let d = parts.drop_last();
        let n = parts.last().0;
        let u = parts.last().1;
        assert(duration_part_ok(parts[parts.len() - 1]));
        lemma_digits_value_nonneg(n);
        let add = digits_value(n) * unit_secs(u);
        assert(add >= digits_value(n)) by (nonlinear_arith)
            requires
                add == digits_value(n) * unit_secs(u),
                digits_value(n) >= 0,
                unit_secs(u) >= 1,
        ;
        assert forall|i: int| 0 <= i < d.len() implies duration_part_ok(#[trigger] d[i]) by {
            assert(d[i] == parts[i]);
        }
        lemma_compound_state(d);
        let pre = compound_text(d);
        let t = compound_text(parts);
        let a = pre.len() as int;
        let b = a + n.len();
        assert(t == pre + n + seq![u]);
        assert(t.subrange(0, a) =~= pre.subrange(0, a));
        lemma_dur_state_prefix(pre, t, a);
        assert forall|i: int| a <= i < b implies is_digit(#[trigger] t[i]) by {
            assert(t[i] == n[i - a]);
        }
        lemma_dur_state_digits(t, a, b);
        assert(t.subrange(a, b) =~= n);
        assert(t[b] == u);
        assert(t.len() == b + 1);
    }
}

/// Durations read as their grammar says, surrounding whitespace ignored: a bare number is that
/// many minutes, and numbers each followed by `h`, `m` or `s` add up hours, minutes and seconds
/// (`1h30m` is 5400 seconds), whenever the total fits in `u64` seconds.
pub proof fn law_duration_grammar(s: Seq<char>, parts: Seq<(Seq<char>, char)>)
    ensures
        trim(s).len() > 0 && all_digits(trim(s)) && digits_value(trim(s)) * 60 <= u64::MAX
            ==> duration_outcome(s) == DurOutcome::Secs((digits_value(trim(s)) * 60) as u64),
        trim(s) == compound_text(parts) && parts.len() > 0 && (forall|i: int|
            0 <= i < parts.len() ==> duration_part_ok(#[trigger] parts[i])) && compound_secs(parts)
            <= u64::MAX ==> duration_outcome(s) == DurOutcome::Secs(compound_secs(parts) as u64),
{
    if trim(s).len() > 0 && all_digits(trim(s)) {
        lemma_digits_value_nonneg(trim(s));
    }
    if trim(s) == compound_text(parts) && parts.len() > 0 && (forall|i: int|
        0 <= i < parts.len() ==> duration_part_ok(#[trigger] parts[i])) && compound_secs(parts)
        <= u64::MAX {
        lemma_compound_state(parts);
        let t = compound_text(parts);
        let u = parts.last().1;
        assert(t == compound_text(parts.drop_last()) + parts.last().0 + seq![u]);
        assert(t[t.len() - 1] == u);
        assert(duration_part_ok(parts[parts.len() - 1]));
        assert(!is_digit(t[t.len() - 1]));
    }
}

/// Reads a duration argument into seconds.
pub fn parse_duration(s: &Vec<char>) -> (r: Result<u64, AppError>)
    requires
        !(duration_outcome(s@) is Overflow),
    ensures
        match duration_outcome(s@) {
            DurOutcome::Secs(v) => r == Ok::<u64, AppError>(v),
            _ => r matches Err(e) && invalid_with(e, "invalid duration: "@ + s@),
        },
{
    match read_duration(s) {
        DurOutcome::Secs(v) => Ok(v),
        _ => Err(invalid_command("invalid duration: ", s)),
    }
}

/// Index of the first `"` of `s` at or after `i`, or `s.len()` if none.
pub open spec fn quote_from(s: Seq<char>, i: int) -> int
    decreases s.len() - i,
{
    if i < 0 || i >= s.len() {
        s.len() as int
    } else if s[i] == '"' {
        i
    } else {
        quote_from(s, i + 1)
    }
}

pub proof fn lemma_quote_from_bounds(s: Seq<char>, i: int)
    requires
        0 <= i <= s.len(),
    ensures
        i <= quote_from(s, i) <= s.len(),
        quote_from(s, i) < s.len() ==> s[quote_from(s, i)] == '"',
    decreases s.len() - i,
{
    if i < s.len() && s[i] != '"' {
        lemma_quote_from_bounds(s, i + 1);
    }
}

/// The tokens of `s` from position `i` on: whitespace-separated, with a `"..."` span forming a
/// single token without its quotes; `None` when a quote is never closed.
pub open spec fn tokens_from(s: Seq<char>, i: int) -> Option<Seq<Seq<char>>>
    decreases s.len() - i,
{
    if i < 0 || i > s.len() {
        Some(Seq::empty())
    } else {
        let j = non_ws_from(s, i);
        proof {
            lemma_non_ws_from_bounds(s, i);
        }
        if j >= s.len() {
            Some(Seq::empty())
        } else if s[j] == '"' {
            let q = quote_from(s, j + 1);
            proof {
                lemma_quote_from_bounds(s, j + 1);
            }
            if q >= s.len() {
                None
            } else {
                match tokens_from(s, q + 1) {
                    Some(rest) => Some(seq![s.subrange(j + 1, q)] + rest),
                    None => None,
                }
            }
        } else {
            let e = ws_from(s, j);
            proof {
                lemma_ws_from_bounds(s, j);
                lemma_ws_from_bounds(s, j + 1);
            }
            match tokens_from(s, e) {
                Some(rest) => Some(seq![s.subrange(j, e)] + rest),
                None => None,
            }
        }
    }
}

proof fn lemma_tokens_unquoted(s: Seq<char>, i: int)
    requires
        forall|k: int| 0 <= k < s.len() ==> s[k] != '"',
    ensures
        tokens_from(s, i) == Some(words_from(s, i)),
    decreases s.len() - i,
{
    if 0 <= i <= s.len() {
        lemma_non_ws_from_bounds(s, i);
        let j = non_ws_from(s, i);
        if j < s.len() {
            lemma_ws_from_bounds(s, j);
            lemma_ws_from_bounds(s, j + 1);
            assert(ws_from(s, j) == ws_from(s, j + 1));
            lemma_tokens_unquoted(s, ws_from(s, j));
        }
    }
}

/// Text without a double quote tokenizes exactly as it splits at whitespace.
pub proof fn law_tokenize_unquoted(s: Seq<char>)
    requires
        forall|k: int| 0 <= k < s.len() ==> s[k] != '"',
    ensures
        tokens_from(s, 0) == Some(words_from(s, 0)),
{
    lemma_tokens_unquoted(s, 0);
}

/// A token in double quotes.
pub open spec fn quoted(t: Seq<char>) -> Seq<char> {
    seq!['"'] + t + seq!['"']
}

/// The tokens `ts`, each in double quotes, joined by single spaces.
pub open spec fn quoted_line(ts: Seq<Seq<char>>) -> Seq<char>
    decreases ts.len(),
{
    if ts.len() == 0 {
        Seq::empty()
    } else if ts.len() == 1 {
        quoted(ts[0])
    } else {
        quoted(ts[0]) + seq![' '] + quoted_line(ts.drop_first())
    }
}

proof fn lemma_quote_at(s: Seq<char>, i: int, k: int)
    requires
        0 <= i <= k < s.len(),
        s[k] == '"',
        forall|m: int| i <= m < k ==> s[m] != '"',
    ensures
        quote_from(s, i) == k,
    decreases k - i,
{
    if i < k {
        lemma_quote_at(s, i + 1, k);
    }
}

proof fn lemma_tokens_of_quoted_line(s: Seq<char>, i: int, ts: Seq<Seq<char>>)
    requires
        0 <= i <= s.len(),
        s.subrange(i, s.len() as int) == quoted_line(ts),
        forall|k: int| 0 <= k < ts.len() ==> !(#[trigger] ts[k]).contains('"'),
    ensures
        tokens_from(s, i) == Some(ts),
    decreases ts.len(),
{
    let u = s.subrange(i, s.len() as int);
    if ts.len() == 0 {
        assert(u.len() == 0);
        assert(non_ws_from(s, i) == s.len());
    } else {
        let t = ts[0];
        let q = i + 1 + t.len();
        let tail = if ts.len() == 1 {
            Seq::<char>::empty()
        } else {
            seq![' '] + quoted_line(ts.drop_first())
        };
        assert(u =~= quoted(t) + tail);
        assert forall|m: int| 0 <= m < t.len() implies #[trigger] u[m + 1] == t[m] by {
            assert((quoted(t) + tail)[m + 1] == quoted(t)[m + 1]);
            assert((seq!['"'] + t + seq!['"'])[m + 1] == (seq!['"'] + t)[m + 1]);
        }
        assert(u[q - i] == '"') by {
            assert((quoted(t) + tail)[q - i] == quoted(t)[q - i]);
        }
        assert(u.len() >= t.len() + 2);
        assert(s[i] == u[0]);
        assert(non_ws_from(s, i) == i);
        assert forall|m: int| i + 1 <= m < q implies s[m] != '"' by {
            assert(s[m] == u[m - i]);
            assert(u[m - i] == t[m - i - 1]);
            if s[m] == '"' {
                assert(t.contains('"'));
            }
        }
        assert(s[q] == u[q - i]);
        lemma_quote_at(s, i + 1, q);
        assert forall|m: int| 0 <= m < t.len() implies #[trigger] s.subrange(i + 1, q)[m] == t[m] by {
            assert(s[i + 1 + m] == u[m + 1]);
        }
        assert(s.subrange(i + 1, q) =~= t);
        if ts.len() == 1 {
            assert(q + 1 == s.len());
            assert(non_ws_from(s, q + 1) == s.len());
            assert(tokens_from(s, q + 1) == Some(Seq::<Seq<char>>::empty()));
            assert(seq![t] + Seq::<Seq<char>>::empty() =~= ts);
        } else {
            let rest = ts.drop_first();
            assert(s[q + 1] == u[q + 1 - i]);
            assert forall|m: int| 0 <= m < s.len() - (q + 2) implies #[trigger] s.subrange(
                q + 2,
                s.len() as int,
            )[m] == quoted_line(rest)[m] by {
                assert(s[q + 2 + m] == u[q + 2 + m - i]);
                assert(u[q + 2 + m - i] == tail[m + 1]);
            }
            assert(s.subrange(q + 2, s.len() as int) =~= quoted_line(rest));
            assert forall|k: int| 0 <= k < rest.len() implies !(#[trigger] rest[k]).contains('"') by {
                assert(rest[k] == ts[k + 1]);
            }
            lemma_tokens_of_quoted_line(s, q + 2, rest);
            assert(s[q + 2] == u[q + 2 - i]);
            assert(non_ws_from(s, q + 2) == q + 2);
            assert(non_ws_from(s, q + 1) == q + 2);
            assert(tokens_from(s, q + 1) == tokens_from(s, q + 2));
            assert(seq![t] + rest =~= ts);
        }
    }
}

/// Quoting each token and joining them with single spaces is undone by the tokenizer, for
/// tokens without a double quote in them.
pub proof fn law_tokenize_quoted_round_trip(ts: Seq<Seq<char>>)
    requires
        forall|k: int| 0 <= k < ts.len() ==> !(#[trigger] ts[k]).contains('"'),
    ensures
        tokens_from(quoted_line(ts), 0) == Some(ts),
{
    let s = quoted_line(ts);
    assert(s.subrange(0, s.len() as int) =~= s);
    lemma_tokens_of_quoted_line(s, 0, ts);
}

/// `acc` followed by the tokens in `r`, if any.
pub open spec fn prepend_tokens(acc: Seq<Seq<char>>, r: Option<Seq<Seq<char>>>) -> Option<
    Seq<Seq<char>>,
> {
    match r {
        Some(x) => Some(acc + x),
        None => None,
    }
}

pub open spec fn token_views(v: Seq<Vec<char>>) -> Seq<Seq<char>> {
    v.map_values(|t: Vec<char>| t@)
}

fn find_quote(v: &Vec<char>, i: usize) -> (r: usize)
    requires
        i <= v@.len(),
    ensures
        r == quote_from(v@, i as int),
{
    let mut k: usize = i;
    while k < v.len() && v[k] != '"'
        invariant
            i <= k <= v@.len(),
            quote_from(v@, k as int) == quote_from(v@, i as int),
        decreases v@.len() - k,
    {
        k = k + 1;
    }
    k
}

/// Splits `s` into whitespace-separated tokens, a `"..."` span being a single token with the
/// quotes stripped.
pub fn tokenize(s: &Vec<char>) -> (r: Result<Vec<Vec<char>>, AppError>)
    ensures
        match tokens_from(s@, 0) {
            Some(ts) => r matches Ok(v) && token_views(v@) == ts,
            None => r matches Err(e) && invalid_with(e, "unterminated quote"@),
        },
{
    let mut tokens: Vec<Vec<char>> = Vec::new();
    let mut i: usize = 0;
    while i < s.len()
        invariant
            i <= s@.len(),
            tokens_from(s@, 0) == prepend_tokens(token_views(tokens@), tokens_from(s@, i as int)),
        decreases s@.len() - i,
    {
        let ghost old_views = token_views(tokens@);
        let j = find_non_ws(s, i);
        proof {
            lemma_non_ws_from_bounds(s@, i as int);
        }
        if j >= s.len() {
            proof {
                assert(tokens_from(s@, i as int) == Some(Seq::<Seq<char>>::empty()));
                assert(tokens_from(s@, s@.len() as int) == Some(Seq::<Seq<char>>::empty())) by {
                    lemma_non_ws_from_bounds(s@, s@.len() as int);
                }
                assert(old_views + Seq::<Seq<char>>::empty() =~= old_views);
            }
            i = s.len();
        } else if s[j] == '"' {
            let q = find_quote(s, j + 1);
            proof {
                lemma_quote_from_bounds(s@, j + 1);
            }
            if q >= s.len() {
                return Err(invalid_message("unterminated quote"));
            }
            let tok = sub_chars(s, j + 1, q);
            tokens.push(tok);
            proof {
                assert(token_views(tokens@) =~= old_views + seq![s@.subrange(j + 1, q as int)]);
                match tokens_from(s@, q + 1) {
                    Some(rest) => {
                        assert(old_views + (seq![s@.subrange(j + 1, q as int)] + rest) =~= (old_views
                            + seq![s@.subrange(j + 1, q as int)]) + rest);
                    },
                    None => {},
                }
            }
            i = q + 1;
        } else {
            let e = find_ws(s, j);
            proof {
                lemma_ws_from_bounds(s@, j as int);
                lemma_ws_from_bounds(s@, j + 1);
            }
            let tok = sub_chars(s, j, e);
            tokens.push(tok);
            proof {
                assert(token_views(tokens@) =~= old_views + seq![s@.subrange(j as int, e as int)]);
                match tokens_from(s@, e as int) {
                    Some(rest) => {
                        assert(old_views + (seq![s@.subrange(j as int, e as int)] + rest) =~= (
                        old_views + seq![s@.subrange(j as int, e as int)]) + rest);
                    },
                    None => {},
                }
            }
            i = e;
        }
    }
    proof {
        assert(tokens_from(s@, s@.len() as int) == Some(Seq::<Seq<char>>::empty())) by {
            lemma_non_ws_from_bounds(s@, s@.len() as int);
        }
        assert(token_views(tokens@) + Seq::<Seq<char>>::empty() =~= token_views(tokens@));
    }
    Ok(tokens)
}

/// Whether a start-time argument parses, and the message when it does not.
pub open spec fn start_outcome(tok: Seq<char>) -> Result<(), Seq<char>> {
    let s = trim(tok);
    if parsed_ymd_hm(s) is Some || parsed_hm(s) is Some {
        Ok(())
    } else {
        Err("invalid start time: "@ + s)
    }
}

/// `m` is the moment a start-time argument names: `YYYY-MM-DD HH:MM` on that date, or bare
/// `HH:MM` on the current local date, in either case at the local UTC offset.
pub open spec fn start_matches(tok: Seq<char>, m: Moment) -> bool {
    let s = trim(tok);
    match parsed_ymd_hm(s) {
        Some(p) => m.local_jd() == p.0 && m.nanos() == moment_nanos_at(
            p.0 as int,
            p.1 as int,
            p.2 as int,
            0,
            m.offset(),
        ),
        None => match parsed_hm(s) {
            Some(p) => m.nanos() == moment_nanos_at(m.local_jd(), p.0 as int, p.1 as int, 0, m.offset()),
            None => false,
        },
    }
}

/// The local UTC offset in seconds, falling back to UTC when it cannot be determined.
pub fn local_offset() -> (r: i32)
    ensures
        -crate::calendar::MAX_OFFSET_SECONDS <= r <= crate::calendar::MAX_OFFSET_SECONDS,
{
    now_local().offset_seconds()
}

/// `m` is the moment a start-time argument names when today is Julian day `today` and the local
/// UTC offset is `offset` seconds: `YYYY-MM-DD HH:MM` on that date, or bare `HH:MM` on `today`,
/// in either case at `offset`.
pub open spec fn start_at(tok: Seq<char>, today: int, offset: int, m: Moment) -> bool {
    let s = trim(tok);
    &&& m.offset() == offset
    &&& match parsed_ymd_hm(s) {
        Some(p) => m.local_jd() == p.0 && m.nanos() == moment_nanos_at(
            p.0 as int,
            p.1 as int,
            p.2 as int,
            0,
            offset,
        ),
        None => match parsed_hm(s) {
            Some(p) => m.local_jd() == today && m.nanos() == moment_nanos_at(
                today,
                p.0 as int,
                p.1 as int,
                0,
                offset,
            ),
            None => false,
        },
    }
}

/// A start moment read for a given day and offset is a moment the argument names.
pub proof fn lemma_start_at_matches(tok: Seq<char>, today: int, offset: int, m: Moment)
    requires
        start_at(tok, today, offset, m),
    ensures
        start_matches(tok, m),
{
}

/// Reads an `:add` start time for the local date `today` and local UTC offset `offset_secs`:
/// `YYYY-MM-DD HH:MM` on that date, or bare `HH:MM` on `today`, at `offset_secs`.
pub fn start_moment(s: &str, today: Date, offset_secs: i32) -> (r: Result<Moment, AppError>)
    requires
        -crate::calendar::MAX_OFFSET_SECONDS <= offset_secs <= crate::calendar::MAX_OFFSET_SECONDS,
    ensures
        match start_outcome(s@) {
            Ok(_) => r matches Ok(m) && start_at(s@, today.jd(), offset_secs as int, m),
            Err(msg) => r matches Err(e) && invalid_with(e, msg),
        },
{
    let t = trimmed(&chars_of(s));
    let ts = string_of(t.as_slice());
    match parse_ymd_hm(ts.as_str()) {
        Some((date, hour, minute)) => {
            let m = Moment::at(date, hour, minute, 0, offset_secs);
            return Ok(m);
        },
        None => {},
    }
    match parse_hm(ts.as_str()) {
        Some((hour, minute)) => {
            let m = Moment::at(today, hour, minute, 0, offset_secs);
            Ok(m)
        },
        None => Err(invalid_command("invalid start time: ", &t)),
    }
}

/// Reads an `:add` start time: `YYYY-MM-DD HH:MM`, or bare `HH:MM` meaning today, at the local
/// offset. Today's date and the offset are read from the clock once, then `start_moment` reads
/// the argument.
pub fn parse_start_time(s: &str) -> (r: Result<Moment, AppError>)
    ensures
        match start_outcome(s@) {
            Ok(_) => r matches Ok(m) && start_matches(s@, m),
            Err(msg) => r matches Err(e) && invalid_with(e, msg),
        },
{
    let r = start_moment(s, today_local(), local_offset());
    proof {
        if r is Ok {
            let m = r->Ok_0;
            lemma_start_at_matches(s@, m.local_jd(), m.offset(), m);
        }
    }
    r
}

/// A parsed `:command` line. Durations are whole seconds.
#[derive(Clone, Debug, PartialEq, Eq)]
pub enum Command {
    Topic(String),
    Pause,
    Resume,
    ToggleBreak(Option<u64>),
    ResumePrevious(Option<i64>),
    Sessions,
    History(Option<HistoryView>),
    Complete,
    Quit,
    Discord(bool),
    Theme(String),
    Add { topic: String, start: Moment, duration: u64 },
    Remove(i64),
}

/// What a command line says, before any clock is read: `Add` keeps its start argument as text.
pub enum CommandSpec {
    Topic(Seq<char>),
    Pause,
    Resume,
    ToggleBreak(Option<u64>),
    ResumePrevious(Option<i64>),
    Sessions,
    History(Option<HistoryView>),
    Complete,
    Quit,
    Discord(bool),
    Theme(Seq<char>),
    Add { topic: Seq<char>, start: Seq<char>, duration: u64 },
    Remove(i64),
}

/// `c` is a command that the line-level meaning `cs` describes.
pub open spec fn command_matches(c: Command, cs: CommandSpec) -> bool {
    match (c, cs) {
        (Command::Topic(a), CommandSpec::Topic(b)) => a@ == b,
        (Command::Pause, CommandSpec::Pause) => true,
        (Command::Resume, CommandSpec::Resume) => true,
        (Command::ToggleBreak(a), CommandSpec::ToggleBreak(b)) => a == b,
        (Command::ResumePrevious(a), CommandSpec::ResumePrevious(b)) => a == b,
        (Command::Sessions, CommandSpec::Sessions) => true,
        (Command::History(a), CommandSpec::History(b)) => a == b,
        (Command::Complete, CommandSpec::Complete) => true,
        (Command::Quit, CommandSpec::Quit) => true,
        (Command::Discord(a), CommandSpec::Discord(b)) => a == b,
        (Command::Theme(a), CommandSpec::Theme(b)) => a@ == b,
        (
            Command::Add { topic, start, duration },
            CommandSpec::Add { topic: t, start: st, duration: d },
        ) => topic@ == t && start_matches(st, start) && duration == d,
        (Command::Remove(a), CommandSpec::Remove(b)) => a == b,
        _ => false,
    }
}

/// `r` is what parsing the line `input` gives: a command that the line's meaning describes, or
/// an `InvalidCommand` error carrying the message for the line.
pub open spec fn parsed_as(input: Seq<char>, r: Result<Command, AppError>) -> bool {
    match parse_outcome(input) {
        Ok(cs) => r matches Ok(c) && command_matches(c, cs),
        Err(msg) => r matches Err(e) && invalid_with(e, msg),
    }
}

/// The verb of a trimmed line: everything before its first whitespace character.
pub open spec fn verb_of(t: Seq<char>) -> Seq<char> {
    t.subrange(0, ws_from(t, 0))
}

/// The arguments of a trimmed line: everything after its first whitespace character, trimmed.
pub open spec fn rest_of(t: Seq<char>) -> Seq<char> {
    let k = ws_from(t, 0);
    if k < t.len() {
        trim(t.subrange(k + 1, t.len() as int))
    } else {
        Seq::empty()
    }
}

/// The meaning of an `:add` argument list.
pub open spec fn add_outcome(rest: Seq<char>) -> Result<CommandSpec, Seq<char>> {
    match tokens_from(rest, 0) {
        None => Err("unterminated quote"@),
        Some(ts) => if ts.len() == 3 {
            match start_outcome(ts[1]) {
                Err(m) => Err(m),
                Ok(_) => match duration_outcome(ts[2]) {
                    DurOutcome::Secs(d) => Ok(CommandSpec::Add { topic: ts[0], start: ts[1], duration: d }),
                    _ => Err("invalid duration: "@ + ts[2]),
                },
            }
        } else {
            Err("usage: add <topic> <start> <duration>"@)
        },
    }
}

/// The meaning of a command line (the text after `:`), or the message it is rejected with.
pub open spec fn parse_outcome(input: Seq<char>) -> Result<CommandSpec, Seq<char>> {
    let t = trim(input);
    let verb = verb_of(t);
    let rest = rest_of(t);
    if verb == "topic"@ {
        if rest.len() > 0 {
            Ok(CommandSpec::Topic(rest))
        } else {
            Err("usage: topic <name>"@)
        }
    } else if verb == "pause"@ {
        Ok(CommandSpec::Pause)
    } else if verb == "resume"@ || verb == "play"@ {
        Ok(CommandSpec::Resume)
    } else if verb == "break"@ {
        if rest.len() == 0 {
            Ok(CommandSpec::ToggleBreak(None))
        } else {
            match duration_outcome(rest) {
                DurOutcome::Secs(d) => Ok(CommandSpec::ToggleBreak(Some(d))),
                _ => Err("invalid duration: "@ + rest),
            }
        }
    } else if verb == "resume-previous"@ {
        if rest.len() == 0 {
            Ok(CommandSpec::ResumePrevious(None))
        } else {
            match parse_i64_spec(rest) {
                Some(id) => Ok(CommandSpec::ResumePrevious(Some(id))),
                None => Err("invalid session id: "@ + rest),
            }
        }
    } else if verb == "sessions"@ {
        Ok(CommandSpec::Sessions)
    } else if verb == "history"@ || verb == "hist"@ {
        if rest.len() == 0 {
            Ok(CommandSpec::History(None))
        } else {
            match history_view_named(rest) {
                Some(v) => Ok(CommandSpec::History(Some(v))),
                None => Err("invalid history view: "@ + rest),
            }
        }
    } else if verb == "complete"@ || verb == "end"@ || verb == "done"@ {
        Ok(CommandSpec::Complete)
    } else if verb == "quit"@ || verb == "q"@ {
        Ok(CommandSpec::Quit)
    } else if verb == "discord"@ {
        if rest == "on"@ {
            Ok(CommandSpec::Discord(true))
        } else if rest == "off"@ {
            Ok(CommandSpec::Discord(false))
        } else {
            Err("usage: discord <on|off>"@)
        }
    } else if verb == "theme"@ {
        if rest.len() == 0 {
            Err("usage: theme <name>"@)
        } else {
            Ok(CommandSpec::Theme(rest))
        }
    } else if verb == "add"@ {
        add_outcome(rest)
    } else if verb == "remove"@ || verb == "rm"@ {
        if rest.len() == 0 {
            Err("usage: remove <id>"@)
        } else {
            match parse_i64_spec(rest) {
                Some(id) => Ok(CommandSpec::Remove(id)),
                None => Err("invalid session id: "@ + rest),
            }
        }
    } else if verb.len() == 0 {
        Err("empty command"@)
    } else {
        Err("unknown command: "@ + verb)
    }
}

/// Reading the line would compute a duration past `u64::MAX` seconds, where the arithmetic
/// panics.
pub open spec fn parse_overflows(input: Seq<char>) -> bool {
    let t = trim(input);
    let verb = verb_of(t);
    let rest = rest_of(t);
    ||| verb == "break"@ && rest.len() > 0 && duration_outcome(rest) is Overflow
    ||| verb == "add"@ && (match tokens_from(rest, 0) {
        Some(ts) => ts.len() == 3 && start_outcome(ts[1]) is Ok && duration_outcome(ts[2]) is Overflow,
        None => false,
    })
}

/// Reads the argument list of `:add`.
fn parse_add(rest: &Vec<char>, today: Date, offset_secs: i32) -> (r: Result<Command, AppError>)
    requires
        !(match tokens_from(rest@, 0) {
            Some(ts) => ts.len() == 3 && start_outcome(ts[1]) is Ok && duration_outcome(ts[2]) is Overflow,
            None => false,
        }),
        -crate::calendar::MAX_OFFSET_SECONDS <= offset_secs <= crate::calendar::MAX_OFFSET_SECONDS,
    ensures
        match add_outcome(rest@) {
            Ok(cs) => r matches Ok(c) && command_matches(c, cs) && start_read_at(
                cs,
                today.jd(),
                offset_secs as int,
                c,
            ),
            Err(msg) => r matches Err(e) && invalid_with(e, msg),
        },
{
    let tokens = match tokenize(rest) {
        Ok(v) => v,
        Err(e) => {
            return Err(e);
        },
    };
    if tokens.len() != 3 {
        return Err(invalid_message("usage: add <topic> <start> <duration>"));
    }
    proof {
        assert(token_views(tokens@)[0] == tokens@[0]@);
        assert(token_views(tokens@)[1] == tokens@[1]@);
        assert(token_views(tokens@)[2] == tokens@[2]@);
    }
    let start_text = string_of(tokens[1].as_slice());
    let start = match start_moment(start_text.as_str(), today, offset_secs) {
        Ok(m) => {
            proof {
                lemma_start_at_matches(tokens@[1]@, today.jd(), offset_secs as int, m);
            }
            m
        },
        Err(e) => {
            return Err(e);
        },
    };
    let duration = match parse_duration(&tokens[2]) {
        Ok(d) => d,
        Err(e) => {
            return Err(e);
        },
    };
    Ok(Command::Add { topic: string_of(tokens[0].as_slice()), start, duration })
}

/// An `:add` command's start is read for the local date `today` and UTC offset `offset`; other
/// commands read no clock.
pub open spec fn start_read_at(cs: CommandSpec, today: int, offset: int, c: Command) -> bool {
    cs matches CommandSpec::Add { start: st, .. } ==> c matches Command::Add { start, .. }
        && start_at(st, today, offset, start)
}

/// `r` is what parsing `input` gives when today is Julian day `today` and the local UTC offset
/// is `offset` seconds.
pub open spec fn parsed_at(input: Seq<char>, today: int, offset: int, r: Result<Command, AppError>) -> bool {
    &&& parsed_as(input, r)
    &&& parse_outcome(input) is Ok ==> start_read_at(parse_outcome(input)->Ok_0, today, offset, r->Ok_0)
}

/// Parses a command line (the text after `:`) for the local date `today` and local UTC offset
/// `offset_secs`: surrounding whitespace is ignored, the first word is the verb and the rest,
/// trimmed, its argument; an `:add` start given as bare `HH:MM` is on `today`.
pub fn parse_at(input: &str, today: Date, offset_secs: i32) -> (r: Result<Command, AppError>)
    requires
        !parse_overflows(input@),
        -crate::calendar::MAX_OFFSET_SECONDS <= offset_secs <= crate::calendar::MAX_OFFSET_SECONDS,
    ensures
        parsed_at(input@, today.jd(), offset_secs as int, r),
{
    let t = trimmed(&chars_of(input));
    let k = find_ws(&t, 0);
    let verb = sub_chars(&t, 0, k);
    let rest = if k < t.len() {
        trimmed(&sub_chars(&t, k + 1, t.len()))
    } else {
        Vec::new()
    };
    assert(rest@ == rest_of(t@));
    if chars_eq(&verb, "topic") {
        if rest.len() > 0 {
            Ok(Command::Topic(string_of(rest.as_slice())))
        } else {
            Err(invalid_message("usage: topic <name>"))
        }
    } else if chars_eq(&verb, "pause") {
        Ok(Command::Pause)
    } else if chars_eq(&verb, "resume") || chars_eq(&verb, "play") {
        Ok(Command::Resume)
    } else if chars_eq(&verb, "break") {
        if rest.len() == 0 {
            Ok(Command::ToggleBreak(None))
        } else {
            match parse_duration(&rest) {
                Ok(d) => Ok(Command::ToggleBreak(Some(d))),
                Err(e) => Err(e),
            }
        }
    } else if chars_eq(&verb, "resume-previous") {
        if rest.len() == 0 {
            Ok(Command::ResumePrevious(None))
        } else {
            match parse_i64(&rest) {
                Some(id) => Ok(Command::ResumePrevious(Some(id))),
                None => Err(invalid_command("invalid session id: ", &rest)),
            }
        }
    } else if chars_eq(&verb, "sessions") {
        Ok(Command::Sessions)
    } else if chars_eq(&verb, "history") || chars_eq(&verb, "hist") {
        if rest.len() == 0 {
            Ok(Command::History(None))
        } else {
            let arg = string_of(rest.as_slice());
            match HistoryView::parse(arg.as_str()) {
                Some(v) => Ok(Command::History(Some(v))),
                None => Err(invalid_command("invalid history view: ", &rest)),
            }
        }
    } else if chars_eq(&verb, "complete") || chars_eq(&verb, "end") || chars_eq(&verb, "done") {
        Ok(Command::Complete)
    } else if chars_eq(&verb, "quit") || chars_eq(&verb, "q") {
        Ok(Command::Quit)
    } else if chars_eq(&verb, "discord") {
        if chars_eq(&rest, "on") {
            Ok(Command::Discord(true))
        } else if chars_eq(&rest, "off") {
            Ok(Command::Discord(false))
        } else {
            Err(invalid_message("usage: discord <on|off>"))
        }
    } else if chars_eq(&verb, "theme") {
        if rest.len() == 0 {
            Err(invalid_message("usage: theme <name>"))
        } else {
            Ok(Command::Theme(string_of(rest.as_slice())))
        }
    } else if chars_eq(&verb, "add") {
        parse_add(&rest, today, offset_secs)
    } else if chars_eq(&verb, "remove") || chars_eq(&verb, "rm") {
        if rest.len() == 0 {
            Err(invalid_message("usage: remove <id>"))
        } else {
            match parse_i64(&rest) {
                Some(id) => Ok(Command::Remove(id)),
                None => Err(invalid_command("invalid session id: ", &rest)),
            }
        }
    } else if verb.len() == 0 {
        proof {
            reveal_strlit("empty command");
        }
        Err(invalid_message("empty command"))
    } else {
        Err(invalid_command("unknown command: ", &verb))
    }
}

/// Parses a command line (the text after `:`): surrounding whitespace is ignored, the first
/// word is the verb and the rest, trimmed, its argument. Today's date and the local offset, for
/// an `:add` start, are read from the clock once, then `parse_at` reads the line.
pub fn parse(input: &str) -> (r: Result<Command, AppError>)
    requires
        !parse_overflows(input@),
    ensures
        parsed_as(input@, r),
{
    parse_at(input, today_local(), local_offset())
}

/// Whether a start-time argument parses.
fn start_parses(tok: &Vec<char>) -> (r: bool)
    ensures
        r == (start_outcome(tok@) is Ok),
{
    let t = trimmed(tok);
    let ts = string_of(t.as_slice());
    parse_ymd_hm(ts.as_str()).is_some() || parse_hm(ts.as_str()).is_some()
}

/// Whether reading `input` would compute a duration past `u64::MAX` seconds.
pub fn parse_would_overflow(input: &str) -> (r: bool)
    ensures
        r == parse_overflows(input@),
{
    let t = trimmed(&chars_of(input));
    let k = find_ws(&t, 0);
    let verb = sub_chars(&t, 0, k);
    let rest = if k < t.len() {
        trimmed(&sub_chars(&t, k + 1, t.len()))
    } else {
        Vec::new()
    };
    assert(rest@ == rest_of(t@));
    proof {
        reveal_strlit("break");
        reveal_strlit("add");
    }
    if chars_eq(&verb, "break") {
        assert("break"@.len() == 5 && "add"@.len() == 3);
        assert(verb@ != "add"@);
        if rest.len() == 0 {
            return false;
        }
        match read_duration(&rest) {
            DurOutcome::Overflow => {
                true
            },
            _ => {
                false
            },
        }
    } else if chars_eq(&verb, "add") {
        match tokenize(&rest) {
            Ok(tokens) => {
                assert(token_views(tokens@).len() == tokens@.len());
                if tokens.len() != 3 {
                    false
                } else {
                    proof {
                        assert(token_views(tokens@)[1] == tokens@[1]@);
                        assert(token_views(tokens@)[2] == tokens@[2]@);
                    }
                    if !start_parses(&tokens[1]) {
                        return false;
                    }
                    match read_duration(&tokens[2]) {
                        DurOutcome::Overflow => {
                            true
                        },
                        _ => {
                            false
                        },
                    }
                }
            },
            Err(_) => {
                false
            },
        }
    } else {
        false
    }
}

/// `parse`, or `None` on a line whose duration would not fit in `u64` seconds (on which the
/// unchecked arithmetic of the duration reader panics).
pub fn parse_checked(input: &str) -> (r: Option<Result<Command, AppError>>)
    ensures
        r is None <==> parse_overflows(input@),
        r matches Some(res) ==> parsed_as(input@, res),
{
    if parse_would_overflow(input) {
        None
    } else {
        Some(parse(input))
    }
}

} // verus!
