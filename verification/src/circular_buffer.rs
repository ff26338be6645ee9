//! A ring of exactly `N` values that always holds its full history.
//!
//! The buffer is filled at construction, so every logical position is valid at
//! all times. Position `N - 1` is the newest value, position `0` the oldest.

use std::ops::{Index, IndexMut};
use vstd::prelude::*;

verus! {

/// Fixed-capacity ring with copy semantics.
pub struct CircularBuffer<T: Copy, const N: usize> {
    values: Box<[T; N]>,
    insertion_index: usize,
}

/// The physical slot of logical position `i` when the cursor stands at `cursor`.
pub open spec fn slot_of(i: int, cursor: int, n: int) -> int {
    if i + cursor < n {
        i + cursor
    } else {
        i + cursor - n
    }
}

/// A history whose cursor was moved back by `k` places: the newest `k` values
/// wrap round to the oldest positions, all others move up by `k`.
pub open spec fn rewound<T>(s: Seq<T>, k: int) -> Seq<T>
    recommends
        0 <= k < s.len(),
{
    s.subrange(s.len() - k, s.len() as int) + s.subrange(0, s.len() - k)
}

/// A history after one more value arrived: the oldest value leaves.
pub open spec fn pushed<T>(s: Seq<T>, x: T) -> Seq<T>
    recommends
        s.len() > 0,
{
    s.subrange(1, s.len() as int).push(x)
}

/// A history after every value of `xs` arrived in turn.
pub open spec fn pushed_all<T>(s: Seq<T>, xs: Seq<T>) -> Seq<T>
    decreases xs.len(),
{
    if xs.len() == 0 {
        s
    } else {
        pushed(pushed_all(s, xs.drop_last()), xs.last())
    }
}

/// A push keeps the length of the history and puts the new value last.
pub proof fn lemma_push_then_last<T>(s: Seq<T>, x: T)
    requires
        s.len() > 0,
    ensures
        pushed(s, x).len() == s.len(),
        pushed(s, x).last() == x,
        forall|i: int| 0 <= i < s.len() - 1 ==> pushed(s, x)[i] == s[i + 1],
{
}

/// Once at least as many values arrived as the history holds, the history is
/// exactly the most recent of them, in arrival order.
pub proof fn lemma_pushes_fill_history<T>(s: Seq<T>, xs: Seq<T>)
    requires
        s.len() > 0,
        xs.len() >= s.len(),
    ensures
        pushed_all(s, xs) == xs.subrange(xs.len() - s.len(), xs.len() as int),
{
    lemma_pushes_tail(s, xs);
}

/// After any number of pushes the history has its old length; its newest
/// entries are the values that arrived, its oldest what was left of the old.
proof fn lemma_pushes_tail<T>(s: Seq<T>, xs: Seq<T>)
    requires
        s.len() > 0,
    ensures
        pushed_all(s, xs).len() == s.len(),
        forall|i: int|
            0 <= i < s.len() ==> pushed_all(s, xs)[i] == if i + xs.len() < s.len() {
                s[i + xs.len()]
            } else {
                xs[i + xs.len() - s.len()]
            },
    decreases xs.len(),
{
    if xs.len() > 0 {
        lemma_pushes_tail(s, xs.drop_last());
    }
}

/// A rewind by `k` followed by a push: the pushed value is the newest, and
/// every older position holds what the rewound history held one place later.
/// In terms of the history before the rewind, the value `k` places from the
/// end is overwritten and the `k - 1` values after it wrap to the front.
pub proof fn lemma_rewind_then_push<T>(s: Seq<T>, k: int, x: T)
    requires
        0 <= k < s.len(),
    ensures
        pushed(rewound(s, k), x).len() == s.len(),
        pushed(rewound(s, k), x).last() == x,
        forall|i: int|
            0 <= i < s.len() - 1 ==> pushed(rewound(s, k), x)[i] == rewound(s, k)[i + 1],
        forall|i: int|
            0 <= i < s.len() - 1 ==> pushed(rewound(s, k), x)[i] == if i + 1 >= k {
                s[i + 1 - k]
            } else {
                s[s.len() - k + i + 1]
            },
{
}

/// Rewriting the past: after a rewind by `k`, a push of `x` and a push of
/// each of `k` further values, the history is what it was from its second
/// value up to the one `k` places from the end, then `x`, then the further
/// values. The newest `k` values of old are gone, and so is the oldest.
pub proof fn lemma_rewrite_history<T>(s: Seq<T>, k: int, x: T, later: Seq<T>)
    requires
        0 <= k < s.len(),
        later.len() == k,
    ensures
        pushed_all(pushed(rewound(s, k), x), later) == s.subrange(1, s.len() - k).push(x) + later,
{
    let rewritten = pushed(rewound(s, k), x);
    lemma_rewind_then_push(s, k, x);
    lemma_pushes_tail(rewritten, later);
}

/// A rewind by nothing leaves the history as it was.
pub proof fn lemma_rewind_zero<T>(s: Seq<T>)
    ensures
        rewound(s, 0) == s,
{
}

impl<T: Copy, const N: usize> CircularBuffer<T, N> {
    #[verifier::type_invariant]
    spec fn inv(self) -> bool {
        self.insertion_index < N
    }

    /// The history in logical order, oldest first. It always has `N` entries.
    pub closed spec fn view(&self) -> Seq<T> {
        Seq::new(
            N as nat,
            |i: int| self.values@[slot_of(i, self.insertion_index as int, N as int)],
        )
    }

    /// Every buffer holds exactly `N` values.
    pub proof fn lemma_len(&self)
        ensures
            self@.len() == N,
    {
    }

    /// Creates a buffer whose `N` positions all hold `fill`.
    pub fn new(fill: T) -> (b: Self)
        requires
            N > 0,
        ensures
            b@ == Seq::new(N as nat, |i: int| fill),
    {
        let b = Self { values: Box::new([fill; N]), insertion_index: 0 };
        b
    }

    /// Appends `x` as the newest value; the oldest one is overwritten.
    pub fn push(&mut self, x: T)
        ensures
            final(self)@ == pushed(old(self)@, x),
        no_unwind
    {
        proof {
            use_type_invariant(&*self);
        }
        self.values[self.insertion_index] = x;
        let next = self.insertion_index + 1;
        self.insertion_index = if next == N {
            0
        } else {
            next
        };
    }

    /// Moves the insertion cursor back by `amount` places, modulo `N`.
    pub fn rewind(&mut self, amount: usize)
        ensures
            final(self)@ == rewound(old(self)@, amount as int % N as int),
        no_unwind
    {
        proof {
            use_type_invariant(&*self);
        }
        let k = amount % N;
        if self.insertion_index >= k {
            self.insertion_index = self.insertion_index - k;
        } else {
            self.insertion_index = self.insertion_index + (N - k);
        }
    }

    /// The newest value.
    pub fn last(&self) -> (r: &T)
        ensures
            *r == self@[N - 1],
    {
        proof {
            use_type_invariant(self);
            vstd::arithmetic::div_mod::lemma_small_mod((N - 1) as nat, N as nat);
        }
        &self[N - 1]
    }

    /// The newest value, for writing.
    pub fn last_mut(&mut self) -> (r: &mut T)
        ensures
            *r == old(self)@[N - 1],
            final(self)@ == old(self)@.update(N - 1, *final(r)),
        no_unwind
    {
        proof {
            use_type_invariant(&*self);
            vstd::arithmetic::div_mod::lemma_small_mod((N - 1) as nat, N as nat);
        }
        let at = self.slot(N - 1);
        slot_mut(&mut self.values, at)
    }

    /// The physical slot of logical position `index` modulo `N`.
    fn slot(&self, index: usize) -> (at: usize)
        ensures
            at == slot_of(index as int % N as int, self.insertion_index as int, N as int),
            at < N,
        no_unwind
    {
        proof {
            use_type_invariant(self);
        }
        let i = index % N;
        let rest = N - self.insertion_index;
        if i < rest {
            i + self.insertion_index
        } else {
            i - rest
        }
    }
}

/// The physical slot `at` of the storage, for writing.
fn slot_mut<T: Copy, const N: usize>(values: &mut Box<[T; N]>, at: usize) -> (r: &mut T)
    requires
        at < N,
    ensures
        *r == old(values)@[at as int],
        final(values)@ == old(values)@.update(at as int, *final(r)),
    no_unwind
{
    &mut values[at]
}

impl<T: Copy, const N: usize> Index<usize> for CircularBuffer<T, N> {
    type Output = T;

    /// The value at logical position `index` modulo `N`.
    fn index(&self, index: usize) -> (r: &T)
        ensures
            *r == self@[index as int % N as int],
    {
        let at = self.slot(index);
        &self.values[at]
    }
}

impl<T: Copy, const N: usize> IndexMut<usize> for CircularBuffer<T, N> {
    /// The value at logical position `index` modulo `N`, for writing.
    fn index_mut(&mut self, index: usize) -> (r: &mut T)
        ensures
            *r == old(self)@[index as int % N as int],
            final(self)@ == old(self)@.update(index as int % N as int, *final(r)),
    {
        proof {
            use_type_invariant(&*self);
        }
        let at = self.slot(index);
        slot_mut(&mut self.values, at)
    }
}

impl<T: Copy, const N: usize> vstd::std_specs::core::IndexSpecImpl<usize> for CircularBuffer<T, N> {
    open spec fn index_req(&self, index: &usize) -> bool {
        true
    }
}

} // verus!
