//! A bounded queue that keeps the `N` most recent items, overwriting the oldest once full.

use vstd::prelude::*;
use vstd::arithmetic::div_mod::{lemma_add_mod_noop_right, lemma_small_mod, lemma_fundamental_div_mod_converse};

verus! {

/// Holds at most `N` items; pushing onto a full queue drops the oldest. Items are stored in a
/// ring: the oldest is at `head` once the buffer has filled.
#[derive(Debug)]
pub struct FixedQueue<T, const N: usize> {
    buf: Vec<T>,
    head: usize,
}

/// Item `i` (oldest first) of a ring buffer `buf` whose oldest item sits at `head`.
pub open spec fn ring_item<T>(buf: Seq<T>, head: int, i: int) -> T {
    if head + i < buf.len() {
        buf[head + i]
    } else {
        buf[head + i - buf.len()]
    }
}

/// The items after pushing `x` onto a queue of capacity `n` that holds `v`.
pub open spec fn pushed<T>(v: Seq<T>, x: T, n: int) -> Seq<T> {
    if v.len() < n {
        v.push(x)
    } else {
        v.drop_first().push(x)
    }
}

/// The `n` most recent of `pushes` (all of them when there are fewer), oldest first.
pub open spec fn most_recent<T>(pushes: Seq<T>, n: int) -> Seq<T> {
    if pushes.len() <= n {
        pushes
    } else {
        pushes.subrange(pushes.len() - n, pushes.len() as int)
    }
}

/// A queue of capacity `n` holds exactly the `n` most recently pushed items, oldest first:
/// pushing onto the most recent `n` of a history gives the most recent `n` of the longer one.
pub proof fn law_holds_most_recent<T>(pushes: Seq<T>, x: T, n: int)
    requires
        n > 0,
    ensures
        pushed(most_recent(pushes, n), x, n) == most_recent(pushes.push(x), n),
        most_recent(Seq::<T>::empty(), n) == Seq::<T>::empty(),
{
    let p2 = pushes.push(x);
    if pushes.len() < n {
    } else {
        assert(pushed(most_recent(pushes, n), x, n) =~= most_recent(p2, n));
    }
}

/// The items of a queue of capacity `n` after pushing the items of `v` in order onto an empty
/// one.
pub open spec fn after_pushes<T>(v: Seq<T>, n: int) -> Seq<T>
    decreases v.len(),
{
    if v.len() == 0 {
        Seq::empty()
    } else {
        pushed(after_pushes(v.drop_last(), n), v.last(), n)
    }
}

/// A queue of capacity `n` filled from empty by the pushes `v` holds the last `min(len, n)`
/// values pushed, oldest first.
pub proof fn law_pushes_keep_last<T>(v: Seq<T>, n: int)
    requires
        n > 0,
    ensures
        after_pushes(v, n) == most_recent(v, n),
        after_pushes(v, n).len() == if v.len() <= n { v.len() as int } else { n },
        forall|i: int| 0 <= i < after_pushes(v, n).len() ==> #[trigger] after_pushes(v, n)[i]
            == v[v.len() - after_pushes(v, n).len() + i],
    decreases v.len(),
{
    if v.len() > 0 {
        law_pushes_keep_last(v.drop_last(), n);
        law_holds_most_recent(v.drop_last(), v.last(), n);
        assert(v.drop_last().push(v.last()) =~= v);
    } else {
        assert(most_recent(v, n) =~= Seq::<T>::empty());
    }
}

impl<T, const N: usize> FixedQueue<T, N> {
    /// The ring is consistent: at most `N` items, and `head` is the oldest item's slot (zero
    /// until the buffer has filled).
    pub closed spec fn wf(self) -> bool {
        &&& self.buf@.len() <= N
        &&& self.buf@.len() < N ==> self.head == 0
        &&& self.buf@.len() == N ==> (self.head < N || N == 0)
    }

    /// The items, oldest first.
    pub closed spec fn view(self) -> Seq<T> {
        Seq::new(self.buf@.len(), |i: int| ring_item(self.buf@, self.head as int, i))
    }

    /// The slot of the oldest item in the ring.
    pub closed spec fn head_slot(self) -> int {
        self.head as int
    }

    /// A consistent queue holds at most `N` items, and its oldest item sits in one of its `N`
    /// slots.
    pub proof fn lemma_len_bound(self)
        requires
            self.wf(),
        ensures
            self.view().len() <= N,
            N > 0 ==> self.head_slot() < N,
    {
    }

    pub fn new() -> (r: Self)
        ensures
            r.wf(),
            r.view() == Seq::<T>::empty(),
    {
        let r = FixedQueue { buf: Vec::new(), head: 0 };
        assert(r.view() =~= Seq::<T>::empty());
        r
    }

    /// The number of items, never more than `N`; the oldest item sits in one of the `N` slots.
    pub fn len(&self) -> (r: usize)
        ensures
            r == self.view().len(),
            self.wf() ==> r <= N,
            self.wf() && N > 0 ==> self.head_slot() < N,
    {
        self.buf.len()
    }

    pub fn is_empty(&self) -> (r: bool)
        ensures
            r == (self.view().len() == 0),
    {
        self.buf.len() == 0
    }

    /// Appends `value` as the newest item; when `N` items are already held the oldest is dropped.
    pub fn push(&mut self, value: T)
        requires
            N > 0,
            old(self).wf(),
        ensures
            final(self).wf(),
            final(self).view() == pushed(old(self).view(), value, N as int),
            old(self).view().len() < N ==> final(self).view() == old(self).view().push(value),
            old(self).view().len() == N ==> final(self).view() == old(self).view().drop_first().push(value),
    {
        let ghost old_view = self.view();
        if self.buf.len() < N {
            self.buf.push(value);
            proof {
                assert(self.view() =~= old_view.push(value));
            }
        } else {
            let h = self.head;
            self.buf.set(h, value);
            let nh: usize = if h + 1 == N { 0 } else { h + 1 };
            self.head = nh;
            proof {
                assert forall|i: int| 0 <= i < N implies #[trigger] self.view()[i] == old_view.drop_first().push(value)[i] by {
                    if i < N - 1 {
                        assert(old_view.drop_first()[i] == old_view[i + 1]);
                    }
                }
                assert(self.view() =~= old_view.drop_first().push(value));
            }
        }
    }

    /// Item `index` counting from the oldest, wrapping around the held items. The slot sum
    /// `head + index` must not overflow (the arithmetic panics there); `len` tells a caller that
    /// the head slot is below `N`, so any `index <= usize::MAX - N` is accepted.
    pub fn index(&self, index: usize) -> (r: &T)
        requires
            self.wf(),
            self.view().len() > 0,
            self.head_slot() + index <= usize::MAX,
        ensures
            *r == self.view()[(index as int) % (self.view().len() as int)],
    {
        let len = self.buf.len();
        let pos = (self.head + index) % len;
        proof {
            let h = self.head as int;
            let i = index as int;
            let n = len as int;
            lemma_add_mod_noop_right(h, i, n);
            let k = i % n;
            assert(0 <= k < n);
            if h + k < n {
                lemma_small_mod((h + k) as nat, n as nat);
            } else {
                lemma_fundamental_div_mod_converse(h + k, n, 1, h + k - n);
            }
        }
        &self.buf[pos]
    }
}

impl<T, const N: usize> Default for FixedQueue<T, N> {
    fn default() -> (r: Self)
        ensures
            r.wf(),
            r.view() == Seq::<T>::empty(),
    {
        Self::new()
    }
}

} // verus!
