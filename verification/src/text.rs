//! Character-level text helpers shared by the command parser, the session filter and the
//! formatting code: whitespace classification, trimming, splitting and integer parsing, all
//! stated over `Seq<char>` views.

use vstd::prelude::*;

verus! {

/// Unicode `White_Space`, which is what `char::is_whitespace` tests.
pub open spec fn is_ws(c: char) -> bool {
    ||| c == ' '
    ||| ('\u{9}' <= c && c <= '\u{d}')
    ||| c == '\u{85}'
    ||| c == '\u{a0}'
    ||| c == '\u{1680}'
    ||| ('\u{2000}' <= c && c <= '\u{200a}')
    ||| c == '\u{2028}'
    ||| c == '\u{2029}'
    ||| c == '\u{202f}'
    ||| c == '\u{205f}'
    ||| c == '\u{3000}'
}

pub open spec fn is_digit(c: char) -> bool {
    '0' <= c && c <= '9'
}

pub fn char_is_ws(c: char) -> (b: bool)
    ensures
        b == is_ws(c),
{
    c == ' ' || ('\u{9}' <= c && c <= '\u{d}') || c == '\u{85}' || c == '\u{a0}'
        || c == '\u{1680}' || ('\u{2000}' <= c && c <= '\u{200a}') || c == '\u{2028}'
        || c == '\u{2029}' || c == '\u{202f}' || c == '\u{205f}' || c == '\u{3000}'
}

pub fn char_is_digit(c: char) -> (b: bool)
    ensures
        b == is_digit(c),
{
    '0' <= c && c <= '9'
}

/// The characters of `s`, in order.
pub fn chars_of(s: &str) -> (v: Vec<char>)
    ensures
        v@ == s@,
{
    let mut v: Vec<char> = Vec::new();
    for c in it: s.chars()
        invariant
            v@ == it.seq().take(it.index() as int),
            it.seq() == s@,
    {
        v.push(c);
    }
    v
}

} // verus!

verus! {

/// `s` with leading whitespace removed (`str::trim_start`).
pub open spec fn trim_start(s: Seq<char>) -> Seq<char>
    decreases s.len(),
{
    if s.len() > 0 && is_ws(s[0]) {
        trim_start(s.drop_first())
    } else {
        s
    }
}

/// `s` with trailing whitespace removed (`str::trim_end`).
pub open spec fn trim_end(s: Seq<char>) -> Seq<char>
    decreases s.len(),
{
    if s.len() > 0 && is_ws(s.last()) {
        trim_end(s.drop_last())
    } else {
        s
    }
}

/// `s` with whitespace removed at both ends (`str::trim`).
pub open spec fn trim(s: Seq<char>) -> Seq<char> {
    trim_end(trim_start(s))
}

/// Index of the first whitespace character of `s` at or after `i`, or `s.len()` if none.
pub open spec fn ws_from(s: Seq<char>, i: int) -> int
    decreases s.len() - i,
{
    if i < 0 || i >= s.len() {
        s.len() as int
    } else if is_ws(s[i]) {
        i
    } else {
        ws_from(s, i + 1)
    }
}

/// Index of the first non-whitespace character of `s` at or after `i`, or `s.len()` if none.
pub open spec fn non_ws_from(s: Seq<char>, i: int) -> int
    decreases s.len() - i,
{
    if i < 0 || i >= s.len() {
        s.len() as int
    } else if !is_ws(s[i]) {
        i
    } else {
        non_ws_from(s, i + 1)
    }
}

pub proof fn lemma_ws_from_bounds(s: Seq<char>, i: int)
    requires
        0 <= i <= s.len(),
    ensures
        i <= ws_from(s, i) <= s.len(),
        ws_from(s, i) < s.len() ==> is_ws(s[ws_from(s, i)]),
        forall|j: int| i <= j < ws_from(s, i) ==> !is_ws(#[trigger] s[j]),
    decreases s.len() - i,
{
    if i < s.len() && !is_ws(s[i]) {
        lemma_ws_from_bounds(s, i + 1);
    }
}

pub proof fn lemma_non_ws_from_bounds(s: Seq<char>, i: int)
    requires
        0 <= i <= s.len(),
    ensures
        i <= non_ws_from(s, i) <= s.len(),
        non_ws_from(s, i) < s.len() ==> !is_ws(s[non_ws_from(s, i)]),
        forall|j: int| i <= j < non_ws_from(s, i) ==> is_ws(#[trigger] s[j]),
    decreases s.len() - i,
{
    if i < s.len() && is_ws(s[i]) {
        lemma_non_ws_from_bounds(s, i + 1);
    }
}

proof fn lemma_trim_start_sub(s: Seq<char>, i: int)
    requires
        0 <= i <= s.len(),
    ensures
        trim_start(s.subrange(i, s.len() as int)) == s.subrange(
            non_ws_from(s, i),
            s.len() as int,
        ),
    decreases s.len() - i,
{
    let t = s.subrange(i, s.len() as int);
    if i < s.len() && is_ws(s[i]) {
        assert(t.drop_first() =~= s.subrange(i + 1, s.len() as int));
        lemma_trim_start_sub(s, i + 1);
    }
}

proof fn lemma_trim_end_prefix(s: Seq<char>, j: int)
    requires
        0 <= j <= s.len(),
        forall|k: int| j <= k < s.len() ==> is_ws(#[trigger] s[k]),
    ensures
        trim_end(s) == trim_end(s.subrange(0, j)),
    decreases s.len() - j,
{
    if j < s.len() {
        assert(s.drop_last() =~= s.subrange(0, s.len() - 1));
        let d = s.drop_last();
        lemma_trim_end_prefix(d, j);
        assert(d.subrange(0, j) =~= s.subrange(0, j));
    } else {
        assert(s.subrange(0, j) =~= s);
    }
}

/// `trim(s)` is the range of `s` from its first to just past its last non-whitespace character.
pub proof fn lemma_trim_range(s: Seq<char>, lo: int, hi: int)
    requires
        0 <= lo <= hi <= s.len(),
        forall|k: int| 0 <= k < lo ==> is_ws(#[trigger] s[k]),
        forall|k: int| hi <= k < s.len() ==> is_ws(#[trigger] s[k]),
        lo < hi ==> !is_ws(s[lo]) && !is_ws(s[hi - 1]),
        lo == hi ==> hi == s.len(),
    ensures
        trim(s) == s.subrange(lo, hi),
{
    lemma_non_ws_from_bounds(s, 0);
    lemma_trim_start_sub(s, 0);
    assert(s.subrange(0, s.len() as int) =~= s);
    let n = non_ws_from(s, 0);
    if lo < hi {
        assert(n == lo) by {
            if n < lo {
                assert(is_ws(s[n]));
            }
            if n > lo {
                assert(is_ws(s[lo]));
            }
        }
        let t = s.subrange(lo, s.len() as int);
        lemma_trim_end_prefix(t, hi - lo);
        assert(t.subrange(0, hi - lo) =~= s.subrange(lo, hi));
        assert(trim_end(s.subrange(lo, hi)) == s.subrange(lo, hi)) by {
            let u = s.subrange(lo, hi);
            assert(u.last() == s[hi - 1]);
            assert(u.len() > 0);
        }
    } else {
        assert(n == s.len()) by {
            if n < s.len() {
                assert(is_ws(s[n]));
            }
        }
        assert(s.subrange(n, s.len() as int) =~= Seq::<char>::empty());
        assert(s.subrange(lo, hi) =~= Seq::<char>::empty());
    }
}

/// Bounds `(lo, hi)` such that `v@.subrange(lo, hi)` is `trim(v@)`.
pub fn trim_bounds(v: &Vec<char>) -> (r: (usize, usize))
    ensures
        r.0 <= r.1 <= v@.len(),
        v@.subrange(r.0 as int, r.1 as int) == trim(v@),
{
    let n: usize = v.len();
    let mut lo: usize = 0;
    while lo < n && char_is_ws(v[lo])
        invariant
            n == v@.len(),
            lo <= n,
            forall|k: int| 0 <= k < lo ==> is_ws(#[trigger] v@[k]),
        decreases n - lo,
    {
        lo = lo + 1;
    }
    let mut hi: usize = n;
    while hi > lo && char_is_ws(v[hi - 1])
        invariant
            n == v@.len(),
            lo <= hi <= n,
            forall|k: int| hi <= k < n ==> is_ws(#[trigger] v@[k]),
        decreases hi,
    {
        hi = hi - 1;
    }
    proof {
        lemma_trim_range(v@, lo as int, hi as int);
    }
    (lo, hi)
}

/// A copy of `v@[lo..hi]`.
pub fn sub_chars(v: &Vec<char>, lo: usize, hi: usize) -> (r: Vec<char>)
    requires
        lo <= hi <= v@.len(),
    ensures
        r@ == v@.subrange(lo as int, hi as int),
{
    let mut r: Vec<char> = Vec::new();
    let mut i: usize = lo;
    while i < hi
        invariant
            lo <= i <= hi <= v@.len(),
            r@ == v@.subrange(lo as int, i as int),
        decreases hi - i,
    {
        r.push(v[i]);
        i = i + 1;
        assert(r@ =~= v@.subrange(lo as int, i as int));
    }
    r
}

/// `trim(v@)` as a new vector.
pub fn trimmed(v: &Vec<char>) -> (r: Vec<char>)
    ensures
        r@ == trim(v@),
{
    let (lo, hi) = trim_bounds(v);
    sub_chars(v, lo, hi)
}

/// Index of the first whitespace character of `v` at or after `i`, or its length.
pub fn find_ws(v: &Vec<char>, i: usize) -> (r: usize)
    requires
        i <= v@.len(),
    ensures
        r == ws_from(v@, i as int),
        i <= r <= v@.len(),
{
    let mut k: usize = i;
    proof {
        lemma_ws_from_bounds(v@, i as int);
    }
    while k < v.len() && !char_is_ws(v[k])
        invariant
            i <= k <= v@.len(),
            ws_from(v@, k as int) == ws_from(v@, i as int),
        decreases v@.len() - k,
    {
        k = k + 1;
    }
    k
}

/// Index of the first non-whitespace character of `v` at or after `i`, or its length.
pub fn find_non_ws(v: &Vec<char>, i: usize) -> (r: usize)
    requires
        i <= v@.len(),
    ensures
        r == non_ws_from(v@, i as int),
        i <= r <= v@.len(),
{
    let mut k: usize = i;
    proof {
        lemma_non_ws_from_bounds(v@, i as int);
    }
    while k < v.len() && char_is_ws(v[k])
        invariant
            i <= k <= v@.len(),
            non_ws_from(v@, k as int) == non_ws_from(v@, i as int),
        decreases v@.len() - k,
    {
        k = k + 1;
    }
    k
}

/// Builds a `String` holding exactly the characters of `v`; `String: FromIterator<char>`.
#[verifier::external_body]
pub(crate) fn string_of(v: &[char]) -> (s: String)
    ensures
        s@ == v@,
{
    v.iter().collect()
}

/// `a` equals `b` character for character.
pub fn chars_eq(a: &Vec<char>, b: &str) -> (r: bool)
    ensures
        r == (a@ == b@),
{
    let bv = chars_of(b);
    same_chars(a, &bv)
}

/// Whether two character sequences are equal.
pub fn same_chars(a: &Vec<char>, b: &Vec<char>) -> (r: bool)
    ensures
        r == (a@ == b@),
{
    if a.len() != b.len() {
        return false;
    }
    let mut i: usize = 0;
    while i < a.len()
        invariant
            a@.len() == b@.len(),
            i <= a@.len(),
            forall|k: int| 0 <= k < i ==> a@[k] == b@[k],
        decreases a@.len() - i,
    {
        if a[i] != b[i] {
            return false;
        }
        i = i + 1;
    }
    assert(a@ =~= b@);
    true
}

} // verus!

verus! {

pub open spec fn all_digits(s: Seq<char>) -> bool {
    forall|i: int| 0 <= i < s.len() ==> is_digit(#[trigger] s[i])
}

pub open spec fn digit_val(c: char) -> int {
    (c as int) - ('0' as int)
}

/// The decimal value of a digit string.
pub open spec fn digits_value(s: Seq<char>) -> int
    decreases s.len(),
{
    if s.len() == 0 {
        0
    } else {
        digits_value(s.drop_last()) * 10 + digit_val(s.last())
    }
}

/// The digits of an unsigned number as `u64::from_str` reads them: an optional leading `+`.
pub open spec fn unsigned_part(s: Seq<char>) -> Seq<char> {
    if s.len() > 0 && s[0] == '+' {
        s.drop_first()
    } else {
        s
    }
}

/// What `s.parse::<u64>()` returns, `None` standing for any error.
pub open spec fn parse_u64_spec(s: Seq<char>) -> Option<u64> {
    let d = unsigned_part(s);
    if d.len() > 0 && all_digits(d) && digits_value(d) <= u64::MAX {
        Some(digits_value(d) as u64)
    } else {
        None
    }
}

/// What `s.parse::<i64>()` returns, `None` standing for any error.
pub open spec fn parse_i64_spec(s: Seq<char>) -> Option<i64> {
    if s.len() > 0 && s[0] == '-' {
        let d = s.drop_first();
        if d.len() > 0 && all_digits(d) && digits_value(d) <= 0x8000_0000_0000_0000 {
            Some((-digits_value(d)) as i64)
        } else {
            None
        }
    } else {
        let d = unsigned_part(s);
        if d.len() > 0 && all_digits(d) && digits_value(d) <= i64::MAX {
            Some(digits_value(d) as i64)
        } else {
            None
        }
    }
}

pub proof fn lemma_digits_value_nonneg(s: Seq<char>)
    requires
        all_digits(s),
    ensures
        digits_value(s) >= 0,
    decreases s.len(),
{
    if s.len() > 0 {
        lemma_digits_value_nonneg(s.drop_last());
    }
}

/// The value of an all-digit string is at least that of any of its prefixes.
pub proof fn lemma_digits_value_prefix(s: Seq<char>, k: int)
    requires
        all_digits(s),
        0 <= k <= s.len(),
    ensures
        digits_value(s.subrange(0, k)) <= digits_value(s),
    decreases s.len() - k,
{
    if k < s.len() {
        let d = s.drop_last();
        assert(all_digits(d));
        lemma_digits_value_prefix(d, k);
        assert(d.subrange(0, k) =~= s.subrange(0, k));
        lemma_digits_value_nonneg(d);
        assert(is_digit(s.last()));
    } else {
        assert(s.subrange(0, k) =~= s);
    }
}

/// The value of `v@[lo..hi]` if it is all digits and fits in a `u64`.
pub fn digits_u64(v: &Vec<char>, lo: usize, hi: usize) -> (r: Option<u64>)
    requires
        lo <= hi <= v@.len(),
    ensures
        ({
            let d = v@.subrange(lo as int, hi as int);
            r == (if all_digits(d) && digits_value(d) <= u64::MAX {
                Some(digits_value(d) as u64)
            } else {
                None::<u64>
            })
        }),
{
    let ghost d = v@.subrange(lo as int, hi as int);
    let mut val: u64 = 0;
    let mut i: usize = lo;
    while i < hi
        invariant
            lo <= i <= hi <= v@.len(),
            d == v@.subrange(lo as int, hi as int),
            all_digits(v@.subrange(lo as int, i as int)),
            val == digits_value(v@.subrange(lo as int, i as int)),
        decreases hi - i,
    {
        let c = v[i];
        let ghost p = v@.subrange(lo as int, i as int);
        let ghost q = v@.subrange(lo as int, i + 1);
        assert(q.drop_last() =~= p);
        if !char_is_digit(c) {
            assert(!is_digit(d[i - lo]));
            return None;
        }
        let dv: u64 = (c as u64) - ('0' as u64);
        assert(all_digits(q));
        match val.checked_mul(10) {
            Some(m) => match m.checked_add(dv) {
                Some(nv) => {
                    val = nv;
                },
                None => {
                    proof {
                        if all_digits(d) {
                            assert(d.subrange(0, i + 1 - lo) =~= q);
                            lemma_digits_value_prefix(d, i + 1 - lo);
                        }
                    }
                    return None;
                },
            },
            None => {
                proof {
                    if all_digits(d) {
                        assert(d.subrange(0, i + 1 - lo) =~= q);
                        lemma_digits_value_prefix(d, i + 1 - lo);
                        lemma_digits_value_nonneg(p);
                    }
                }
                return None;
            },
        }
        i = i + 1;
    }
    assert(v@.subrange(lo as int, i as int) =~= d);
    Some(val)
}

/// `s.parse::<u64>()` over characters.
pub fn parse_u64(v: &Vec<char>) -> (r: Option<u64>)
    ensures
        r == parse_u64_spec(v@),
{
    let lo: usize = if v.len() > 0 && v[0] == '+' { 1 } else { 0 };
    assert(v@.subrange(lo as int, v@.len() as int) =~= unsigned_part(v@));
    if lo == v.len() {
        return None;
    }
    digits_u64(v, lo, v.len())
}

/// `s.parse::<i64>()` over characters.
pub fn parse_i64(v: &Vec<char>) -> (r: Option<i64>)
    ensures
        r == parse_i64_spec(v@),
{
    if v.len() > 0 && v[0] == '-' {
        let ghost d = v@.drop_first();
        assert(v@.subrange(1, v@.len() as int) =~= d);
        if v.len() == 1 {
            return None;
        }
        match digits_u64(v, 1, v.len()) {
            Some(m) => {
                proof {
                    lemma_digits_value_nonneg(d);
                }
                assert(all_digits(d) && digits_value(d) == m);
                if m <= 0x8000_0000_0000_0000u64 {
                    if m == 0x8000_0000_0000_0000u64 {
                        assert((-(m as int)) as i64 == i64::MIN);
                        Some(i64::MIN)
                    } else {
                        let r: i64 = -(m as i64);
                        assert(r as int == -(m as int));
                        Some(r)
                    }
                } else {
                    None
                }
            },
            None => {
                assert(!(all_digits(d) && digits_value(d) <= u64::MAX));
                None
            },
        }
    } else {
        let ghost d = unsigned_part(v@);
        match parse_u64(v) {
            Some(m) => {
                proof {
                    lemma_digits_value_nonneg(d);
                }
                assert(all_digits(d) && digits_value(d) == m && d.len() > 0);
                if m <= i64::MAX as u64 {
                    Some(m as i64)
                } else {
                    None
                }
            },
            None => None,
        }
    }
}

/// The character of a decimal digit.
pub open spec fn digit_char(d: int) -> char {
    (d + ('0' as int)) as char
}

/// Decimal representation of `n`, with no leading zeros (`"0"` for zero).
pub open spec fn dec(n: nat) -> Seq<char>
    decreases n,
{
    if n < 10 {
        seq![digit_char(n as int)]
    } else {
        dec(n / 10).push(digit_char((n % 10) as int))
    }
}

/// `s` left-padded with `'0'` to at least `w` characters (the `{:0w}` format).
pub open spec fn pad_zeros(s: Seq<char>, w: nat) -> Seq<char> {
    if s.len() >= w {
        s
    } else {
        Seq::new((w - s.len()) as nat, |i: int| '0') + s
    }
}

/// Appends the decimal representation of `n`.
pub fn push_dec(v: &mut Vec<char>, n: u64)
    ensures
        final(v)@ == old(v)@ + dec(n as nat),
    decreases n,
{
    if n >= 10 {
        push_dec(v, n / 10);
    }
    let d: u8 = (n % 10) as u8;
    let c: char = (48u8 + d) as char;
    assert(c == digit_char((n % 10) as int));
    v.push(c);
    assert(v@ =~= old(v)@ + dec(n as nat));
}

pub proof fn lemma_dec_len(n: nat)
    ensures
        dec(n).len() >= 1,
        n < 10 ==> dec(n).len() == 1,
        10 <= n < 100 ==> dec(n).len() == 2,
    decreases n,
{
    if n >= 10 {
        lemma_dec_len(n / 10);
    }
}

/// Appends `n` in decimal, zero-padded to `w` characters.
pub fn push_dec_padded(v: &mut Vec<char>, n: u64, w: usize)
    ensures
        final(v)@ == old(v)@ + pad_zeros(dec(n as nat), w as nat),
{
    let mut digits: Vec<char> = Vec::new();
    push_dec(&mut digits, n);
    assert(digits@ =~= dec(n as nat));
    let len: usize = digits.len();
    if len < w {
        let mut k: usize = 0;
        while k < w - len
            invariant
                len < w,
                k <= w - len,
                v@ == old(v)@ + Seq::new(k as nat, |i: int| '0'),
            decreases w - len - k,
        {
            v.push('0');
            k = k + 1;
            assert(v@ =~= old(v)@ + Seq::new(k as nat, |i: int| '0'));
        }
    }
    let mut j: usize = 0;
    let ghost base = v@;
    while j < len
        invariant
            len == digits@.len(),
            j <= len,
            v@ == base + digits@.subrange(0, j as int),
        decreases len - j,
    {
        v.push(digits[j]);
        j = j + 1;
        assert(v@ =~= base + digits@.subrange(0, j as int));
    }
    assert(digits@.subrange(0, len as int) =~= digits@);
    assert(v@ =~= old(v)@ + pad_zeros(dec(n as nat), w as nat));
}

/// Appends every character of `s`.
pub fn push_str(v: &mut Vec<char>, s: &str)
    ensures
        final(v)@ == old(v)@ + s@,
{
    let cs = chars_of(s);
    let mut j: usize = 0;
    while j < cs.len()
        invariant
            j <= cs@.len(),
            v@ == old(v)@ + cs@.subrange(0, j as int),
        decreases cs@.len() - j,
    {
        v.push(cs[j]);
        j = j + 1;
        assert(v@ =~= old(v)@ + cs@.subrange(0, j as int));
    }
    assert(cs@.subrange(0, cs@.len() as int) =~= cs@);
}

/// The views of a sequence of strings.
pub open spec fn string_views(v: Seq<String>) -> Seq<Seq<char>> {
    v.map_values(|s: String| s@)
}

/// `parts` joined with `sep` between consecutive parts (`[String]::join`).
pub open spec fn joined(parts: Seq<Seq<char>>, sep: Seq<char>) -> Seq<char>
    decreases parts.len(),
{
    if parts.len() == 0 {
        Seq::empty()
    } else if parts.len() == 1 {
        parts[0]
    } else {
        joined(parts.drop_last(), sep) + sep + parts.last()
    }
}

/// Appends every character of `s` (a `String`).
pub fn push_string(v: &mut Vec<char>, s: &String)
    ensures
        final(v)@ == old(v)@ + s@,
{
    push_str(v, s.as_str());
}

/// Joins `parts` with `sep` between consecutive parts.
pub fn join_strings(parts: &Vec<String>, sep: &str) -> (r: String)
    ensures
        r@ == joined(string_views(parts@), sep@),
{
    let mut acc: Vec<char> = Vec::new();
    let mut i: usize = 0;
    while i < parts.len()
        invariant
            i <= parts@.len(),
            acc@ == joined(string_views(parts@.subrange(0, i as int)), sep@),
        decreases parts@.len() - i,
    {
        let ghost before = string_views(parts@.subrange(0, i as int));
        if i > 0 {
            push_str(&mut acc, sep);
        }
        push_string(&mut acc, &parts[i]);
        proof {
            let now = string_views(parts@.subrange(0, i + 1));
            assert(now.drop_last() =~= before);
            assert(now.last() == parts@[i as int]@);
            if i == 0 {
                assert(now.len() == 1);
                assert(acc@ =~= now[0]);
            } else {
                assert(acc@ =~= joined(before, sep@) + sep@ + now.last());
            }
        }
        i = i + 1;
    }
    assert(parts@.subrange(0, i as int) =~= parts@);
    string_of(acc.as_slice())
}

} // verus!

verus! {

pub open spec fn ascii_lower_char(c: char) -> char {
    if 'A' <= c && c <= 'Z' {
        ((c as int) + 32) as char
    } else {
        c
    }
}

/// `str::to_ascii_lowercase`.
pub open spec fn ascii_lower(s: Seq<char>) -> Seq<char> {
    s.map_values(|c: char| ascii_lower_char(c))
}

pub fn char_to_ascii_lower(c: char) -> (r: char)
    ensures
        r == ascii_lower_char(c),
{
    if 'A' <= c && c <= 'Z' {
        let u: u32 = c as u32 + 32;
        let r: char = (u as u8) as char;
        r
    } else {
        c
    }
}

pub fn to_ascii_lower(v: &Vec<char>) -> (r: Vec<char>)
    ensures
        r@ == ascii_lower(v@),
{
    let mut r: Vec<char> = Vec::new();
    let mut i: usize = 0;
    while i < v.len()
        invariant
            i <= v@.len(),
            r@ == ascii_lower(v@.subrange(0, i as int)),
        decreases v@.len() - i,
    {
        r.push(char_to_ascii_lower(v[i]));
        i = i + 1;
        assert(r@ =~= ascii_lower(v@.subrange(0, i as int)));
    }
    assert(v@.subrange(0, i as int) =~= v@);
    r
}

} // verus!
