//! Stepping through the values of a range, from the front and, where the range
//! is bounded above, from the back.
//!
//! Each range is its own cursor: `next` moves `start` up, `next_back` moves
//! `end` down, and the range ends once they meet. The contracts state each
//! step over the positions (`Step::ord`) of the bounds; the laws at the end of
//! each section state what a whole run of steps yields.
use vstd::prelude::*;

use crate::step::steps;
use crate::step::ExactStep;
use crate::step::Step;
use crate::RangeFromExclusive;
use crate::RangeFromExclusiveToExclusive;
use crate::RangeFromExclusiveToInclusive;

verus! {

// ---------------------------------------------------------------------------
// RangeFromExclusive: forward only, never exhausted.
// ---------------------------------------------------------------------------

impl<T: Step> RangeFromExclusive<T> {
    /// Steps `start` forward by one and returns the new `start`.
    pub fn next(&mut self) -> (r: Option<T>)
        requires
            old(self).start.ord() < T::ord_max(),
        ensures
            final(self).start == T::from_ord(old(self).start.ord() + 1),
            r == Some(final(self).start),
    {
        self.start = T::forward_checked(self.start, 1).unwrap();
        Some(self.start)
    }

    /// The range never runs out: at least `usize::MAX` values remain, and no
    /// upper bound is known.
    pub fn size_hint(&self) -> (r: (usize, Option<usize>))
        ensures
            r == (usize::MAX, None::<usize>),
    {
        (usize::MAX, None)
    }

    /// Steps `start` forward by `n + 1` at once and returns the new `start`,
    /// as `n + 1` calls of `next` would.
    pub fn nth(&mut self, n: usize) -> (r: Option<T>)
        requires
            old(self).start.ord() + n + 1 <= T::ord_max(),
        ensures
            final(self).start == T::from_ord(old(self).start.ord() + n + 1),
            r == Some(final(self).start),
    {
        proof {
            T::lemma_ord(self.start);
            T::lemma_from_ord(self.start.ord() + n);
        }
        let skipped = T::forward_checked(self.start, n).unwrap();
        self.start = T::forward_checked(skipped, 1).unwrap();
        Some(self.start)
    }

    /// The least value of the range, the first that `next` returns.
    pub fn min(self) -> (r: Option<T>)
        requires
            self.start.ord() < T::ord_max(),
        ensures
            r == Some(T::from_ord(self.start.ord() + 1)),
    {
        let mut range = self;
        range.next()
    }
}

// ---------------------------------------------------------------------------
// RangeFromExclusiveToInclusive: `start < x <= end`, from either end.
// ---------------------------------------------------------------------------

impl<T: Step> RangeFromExclusiveToInclusive<T> {
    /// The values of the range in increasing order: the positions
    /// `start + 1 ..= end`.
    pub open spec fn items(self) -> Seq<T> {
        if self.start.ord() < self.end.ord() {
            Seq::new(
                (self.end.ord() - self.start.ord()) as nat,
                |i: int| T::from_ord(self.start.ord() + 1 + i),
            )
        } else {
            Seq::empty()
        }
    }

    /// The range after one call of `next`, and what the call returns.
    pub open spec fn spec_next(self) -> (Self, Option<T>) {
        if self.start.ord() < self.end.ord() {
            let v = T::from_ord(self.start.ord() + 1);
            (RangeFromExclusiveToInclusive { start: v, end: self.end }, Some(v))
        } else {
            (self, None)
        }
    }

    /// The range after one call of `next_back`, and what the call returns.
    pub open spec fn spec_next_back(self) -> (Self, Option<T>) {
        if self.start.ord() < self.end.ord() {
            (
                RangeFromExclusiveToInclusive {
                    start: self.start,
                    end: T::from_ord(self.end.ord() - 1),
                },
                Some(self.end),
            )
        } else {
            (self, None)
        }
    }

    /// The range after `nth(n)`, and what the call returns. Past the last
    /// value, `start` is clamped to `end`.
    pub open spec fn spec_nth(self, n: nat) -> (Self, Option<T>) {
        if self.start.ord() == self.end.ord() {
            (self, None)
        } else if self.start.ord() + n < self.end.ord() {
            let v = T::from_ord(self.start.ord() + n + 1);
            (RangeFromExclusiveToInclusive { start: v, end: self.end }, Some(v))
        } else {
            (RangeFromExclusiveToInclusive { start: self.end, end: self.end }, None)
        }
    }

    /// The range after `nth_back(n)`, and what the call returns. Past the
    /// first value, `end` is clamped to `start`.
    pub open spec fn spec_nth_back(self, n: nat) -> (Self, Option<T>) {
        if self.start.ord() >= self.end.ord() {
            (self, None)
        } else if self.start.ord() < self.end.ord() - n {
            (
                RangeFromExclusiveToInclusive {
                    start: self.start,
                    end: T::from_ord(self.end.ord() - n - 1),
                },
                Some(T::from_ord(self.end.ord() - n)),
            )
        } else {
            (RangeFromExclusiveToInclusive { start: self.start, end: self.start }, None)
        }
    }

    /// What `k` successive calls of `next` return, starting from `self`.
    pub open spec fn next_results(self, k: nat) -> Seq<Option<T>>
        decreases k,
    {
        if k == 0 {
            Seq::empty()
        } else {
            seq![self.spec_next().1] + self.spec_next().0.next_results((k - 1) as nat)
        }
    }

    /// What `k` successive calls of `next_back` return, starting from `self`.
    pub open spec fn next_back_results(self, k: nat) -> Seq<Option<T>>
        decreases k,
    {
        if k == 0 {
            Seq::empty()
        } else {
            seq![self.spec_next_back().1] + self.spec_next_back().0.next_back_results(
                (k - 1) as nat,
            )
        }
    }

    /// Returns the least remaining value and moves `start` up to it, or
    /// returns `None` once `start` has reached `end`.
    pub fn next(&mut self) -> (r: Option<T>)
        ensures
            (*final(self), r) == old(self).spec_next(),
    {
        if T::precedes(&self.start, &self.end) {
            proof {
                T::lemma_ord(self.end);
            }
            self.start = T::forward_checked(self.start, 1).unwrap();
            Some(self.start)
        } else {
            None
        }
    }

    /// Returns the greatest remaining value, `end`, and moves `end` down by
    /// one, or returns `None` once `start` has reached `end`.
    pub fn next_back(&mut self) -> (r: Option<T>)
        ensures
            (*final(self), r) == old(self).spec_next_back(),
    {
        if T::precedes(&self.start, &self.end) {
            proof {
                T::lemma_ord(self.start);
            }
            let below = T::backward_checked(self.end, 1).unwrap();
            let last = self.end;
            self.end = below;
            Some(last)
        } else {
            None
        }
    }

    /// The number of remaining values when it fits in a `usize` (then both
    /// bounds give it), else `usize::MAX` and no upper bound.
    pub fn size_hint(&self) -> (r: (usize, Option<usize>))
        ensures
            r == (if self.start.ord() < self.end.ord() {
                match steps(self.start.ord(), self.end.ord()) {
                    Some(k) => (k, Some(k)),
                    None => (usize::MAX, None),
                }
            } else {
                (0, Some(0))
            }),
    {
        if T::precedes(&self.start, &self.end) {
            let hint = T::steps_between(&self.start, &self.end);
            match hint {
                Some(k) => (k, Some(k)),
                None => (usize::MAX, None),
            }
        } else {
            (0, Some(0))
        }
    }

    /// Skips `n` values and returns the next one, leaving `start` on it. When
    /// fewer than `n + 1` values remain, returns `None` and leaves the range
    /// exhausted with `start == end`.
    pub fn nth(&mut self, n: usize) -> (r: Option<T>)
        ensures
            (*final(self), r) == old(self).spec_nth(n as nat),
    {
        if !T::precedes(&self.start, &self.end) && !T::precedes(&self.end, &self.start) {
            return None;
        }
        proof {
            T::lemma_ord(self.start);
            T::lemma_ord(self.end);
        }
        match T::forward_checked(self.start, n) {
            Some(plus_n) => {
                proof {
                    T::lemma_from_ord(self.start.ord() + n);
                }
                if T::precedes(&plus_n, &self.end) {
                    self.start = T::forward_checked(plus_n, 1).unwrap();
                    return Some(self.start);
                }
            },
            None => {},
        }
        self.start = self.end;
        None
    }

    /// Skips `n` values from the back and returns the one before them,
    /// leaving `end` just below it. When fewer than `n + 1` values remain,
    /// returns `None` and leaves the range exhausted with `end == start`.
    pub fn nth_back(&mut self, n: usize) -> (r: Option<T>)
        ensures
            (*final(self), r) == old(self).spec_nth_back(n as nat),
    {
        if !T::precedes(&self.start, &self.end) {
            return None;
        }
        proof {
            T::lemma_ord(self.start);
            T::lemma_ord(self.end);
        }
        match T::backward_checked(self.end, n) {
            Some(minus_n) => {
                proof {
                    T::lemma_from_ord(self.end.ord() - n);
                }
                if T::precedes(&self.start, &minus_n) {
                    self.end = T::backward_checked(minus_n, 1).unwrap();
                    return Some(minus_n);
                }
            },
            None => {},
        }
        self.end = self.start;
        None
    }

    /// The greatest value of the range, which `next_back` would return.
    pub fn last(self) -> (r: Option<T>)
        ensures
            r == self.spec_next_back().1,
    {
        let mut range = self;
        range.next_back()
    }

    /// The least value of the range, which `next` would return.
    pub fn min(self) -> (r: Option<T>)
        ensures
            r == self.spec_next().1,
    {
        let mut range = self;
        range.next()
    }

    /// The greatest value of the range, which `next_back` would return.
    pub fn max(self) -> (r: Option<T>)
        ensures
            r == self.spec_next_back().1,
    {
        let mut range = self;
        range.next_back()
    }
}

impl<T: ExactStep> RangeFromExclusiveToInclusive<T> {
    /// The exact number of remaining values: `end - start` steps, or `0` for
    /// an empty range.
    pub fn len(&self) -> (r: usize)
        ensures
            r == self.items().len(),
    {
        if T::precedes(&self.start, &self.end) {
            proof {
                T::lemma_span_fits();
                T::lemma_ord(self.start);
                T::lemma_ord(self.end);
            }
            T::steps_between(&self.start, &self.end).unwrap()
        } else {
            0
        }
    }
}

impl<T: Step> RangeFromExclusiveToInclusive<T> {
    proof fn lemma_next_pops_front(r: Self)
        ensures
            r.start.ord() < r.end.ord() ==> r.spec_next().1 == Some(r.items()[0])
                && r.spec_next().0.items() == r.items().drop_first(),
            r.start.ord() >= r.end.ord() ==> r.spec_next().1 is None && r.items().len() == 0,
    {
        if r.start.ord() < r.end.ord() {
            T::lemma_ord(r.start);
            T::lemma_ord(r.end);
            T::lemma_from_ord(r.start.ord() + 1);
            assert(r.spec_next().0.items() =~= r.items().drop_first());
        }
    }

    proof fn lemma_next_back_pops_back(r: Self)
        ensures
            r.start.ord() < r.end.ord() ==> r.spec_next_back().1 == Some(r.items().last())
                && r.spec_next_back().0.items() == r.items().drop_last(),
            r.start.ord() >= r.end.ord() ==> r.spec_next_back().1 is None && r.items().len()
                == 0,
    {
        if r.start.ord() < r.end.ord() {
            T::lemma_ord(r.start);
            T::lemma_ord(r.end);
            T::lemma_from_ord(r.end.ord() - 1);
            assert(r.spec_next_back().0.items() =~= r.items().drop_last());
        }
    }

    /// Stepping forward through a range yields its values in increasing
    /// order, `start + 1` up to and including `end`, one per call of `next`,
    /// and then `None` on every later call: `k` calls return the values,
    /// then `None`s. A range with `start < end` holds `end - start` values.
    pub proof fn lemma_forward_yields_items(r: Self, k: nat)
        requires
            k >= r.items().len(),
        ensures
            r.next_results(k) == r.items().map_values(|v: T| Some(v)) + Seq::new(
                (k - r.items().len()) as nat,
                |i: int| None::<T>,
            ),
            r.start.ord() < r.end.ord() ==> r.items().len() == r.end.ord() - r.start.ord(),
        decreases k,
    {
        Self::lemma_next_pops_front(r);
        let n = r.items().len();
        if k == 0 {
            assert(r.next_results(0) =~= r.items().map_values(|v: T| Some(v)) + Seq::new(
                0,
                |i: int| None::<T>,
            ));
        } else if r.start.ord() < r.end.ord() {
            let rest = r.spec_next().0;
            Self::lemma_forward_yields_items(rest, (k - 1) as nat);
            assert(r.next_results(k) == seq![Some(r.items()[0])] + rest.next_results(
                (k - 1) as nat,
            ));
            assert(r.next_results(k) =~= r.items().map_values(|v: T| Some(v)) + Seq::new(
                (k - n) as nat,
                |i: int| None::<T>,
            ));
        } else {
            Self::lemma_forward_yields_items(r, (k - 1) as nat);
            assert(r.next_results(k) == seq![None::<T>] + r.next_results((k - 1) as nat));
            assert(r.next_results(k) =~= r.items().map_values(|v: T| Some(v)) + Seq::new(
                (k - n) as nat,
                |i: int| None::<T>,
            ));
        }
    }

    /// Stepping backward through a range yields its values in decreasing
    /// order, one per call of `next_back`, and then `None` on every later
    /// call: the `i`-th call of `next_back` returns what the `i`-th call of
    /// `next` from the far end would, so the two runs are each other reversed.
    pub proof fn lemma_backward_reverses_forward(r: Self, k: nat)
        requires
            k >= r.items().len(),
        ensures
            r.next_back_results(k) == r.items().reverse().map_values(|v: T| Some(v)) + Seq::new(
                (k - r.items().len()) as nat,
                |i: int| None::<T>,
            ),
            forall|i: int|
                0 <= i < r.items().len() ==> #[trigger] r.next_back_results(k)[i]
                    == r.next_results(k)[r.items().len() - 1 - i],
            forall|i: int| r.items().len() <= i < k ==> #[trigger] r.next_back_results(k)[i] is None,
        decreases k,
    {
        Self::lemma_next_back_pops_back(r);
        Self::lemma_forward_yields_items(r, k);
        let n = r.items().len();
        let nones = Seq::new((k - n) as nat, |i: int| None::<T>);
        if k == 0 {
            assert(r.next_back_results(0) =~= r.items().reverse().map_values(|v: T| Some(v))
                + nones);
        } else if r.start.ord() < r.end.ord() {
            let rest = r.spec_next_back().0;
            Self::lemma_backward_reverses_forward(rest, (k - 1) as nat);
            assert(r.next_back_results(k) == seq![Some(r.items().last())]
                + rest.next_back_results((k - 1) as nat));
            assert(r.next_back_results(k) =~= r.items().reverse().map_values(|v: T| Some(v))
                + nones);
        } else {
            Self::lemma_backward_reverses_forward(r, (k - 1) as nat);
            assert(r.next_back_results(k) == seq![None::<T>] + r.next_back_results(
                (k - 1) as nat,
            ));
            assert(r.next_back_results(k) =~= r.items().reverse().map_values(|v: T| Some(v))
                + nones);
        }
        assert forall|i: int| 0 <= i < n implies #[trigger] r.next_back_results(k)[i]
            == r.next_results(k)[n - 1 - i] by {
            assert(r.next_back_results(k)[i] == Some(r.items().reverse()[i]));
            assert(r.next_results(k)[n - 1 - i] == Some(r.items()[n - 1 - i]));
        }
        assert forall|i: int| n <= i < k implies #[trigger] r.next_back_results(k)[i] is None by {
            assert(r.next_back_results(k)[i] == nones[i - n]);
        }
    }

    /// Asking `nth` or `nth_back` to skip every remaining value exhausts the
    /// range: it returns `None` and leaves `start` and `end` equal, neither
    /// crossed nor apart.
    pub proof fn lemma_nth_overshoot_clamps(r: Self, n: nat)
        requires
            r.start.ord() <= r.end.ord(),
            n >= r.items().len(),
        ensures
            r.spec_nth(n).1 is None,
            r.spec_nth(n).0.start == r.spec_nth(n).0.end,
            r.spec_nth(n).0.items().len() == 0,
            r.spec_nth_back(n).1 is None,
            r.spec_nth_back(n).0.start == r.spec_nth_back(n).0.end,
            r.spec_nth_back(n).0.items().len() == 0,
    {
        T::lemma_ord(r.start);
        T::lemma_ord(r.end);
    }
}

// ---------------------------------------------------------------------------
// RangeFromExclusiveToExclusive: `start < x < end`, from either end.
// ---------------------------------------------------------------------------

/// Whether more than one step leads from `start` to `end`, that is whether a
/// range bounded exclusively by them on both sides holds a value.
fn gap_exceeds_one<T: Step>(start: &T, end: &T) -> (r: bool)
    ensures
        r == (start.ord() + 1 < end.ord()),
{
    proof {
        T::lemma_ord(*start);
        T::lemma_ord(*end);
    }
    match T::forward_checked(*start, 1) {
        Some(next) => {
            proof {
                T::lemma_from_ord(start.ord() + 1);
            }
            T::precedes(&next, end)
        },
        None => false,
    }
}

impl<T: Step> RangeFromExclusiveToExclusive<T> {
    /// The values of the range in increasing order: the positions
    /// `start + 1 .. end`.
    pub open spec fn items(self) -> Seq<T> {
        if self.start.ord() + 1 < self.end.ord() {
            Seq::new(
                (self.end.ord() - self.start.ord() - 1) as nat,
                |i: int| T::from_ord(self.start.ord() + 1 + i),
            )
        } else {
            Seq::empty()
        }
    }

    /// The range after one call of `next`, and what the call returns.
    pub open spec fn spec_next(self) -> (Self, Option<T>) {
        if self.start.ord() + 1 < self.end.ord() {
            let v = T::from_ord(self.start.ord() + 1);
            (RangeFromExclusiveToExclusive { start: v, end: self.end }, Some(v))
        } else {
            (self, None)
        }
    }

    /// The range after one call of `next_back`, and what the call returns.
    pub open spec fn spec_next_back(self) -> (Self, Option<T>) {
        if self.start.ord() + 1 < self.end.ord() {
            let v = T::from_ord(self.end.ord() - 1);
            (RangeFromExclusiveToExclusive { start: self.start, end: v }, Some(v))
        } else {
            (self, None)
        }
    }

    /// The range after `nth(n)`, and what the call returns. Past the last
    /// value, `start` is clamped to one step below `end`.
    pub open spec fn spec_nth(self, n: nat) -> (Self, Option<T>) {
        if self.start.ord() + 1 >= self.end.ord() {
            (self, None)
        } else if self.start.ord() + n + 1 < self.end.ord() {
            let v = T::from_ord(self.start.ord() + n + 1);
            (RangeFromExclusiveToExclusive { start: v, end: self.end }, Some(v))
        } else {
            (
                RangeFromExclusiveToExclusive {
                    start: T::from_ord(self.end.ord() - 1),
                    end: self.end,
                },
                None,
            )
        }
    }

    /// The range after `nth_back(n)`, and what the call returns. Past the
    /// first value, `end` is clamped to one step above `start`.
    pub open spec fn spec_nth_back(self, n: nat) -> (Self, Option<T>) {
        if self.start.ord() + 1 >= self.end.ord() {
            (self, None)
        } else if self.start.ord() + 1 < self.end.ord() - n {
            let v = T::from_ord(self.end.ord() - n - 1);
            (RangeFromExclusiveToExclusive { start: self.start, end: v }, Some(v))
        } else {
            (
                RangeFromExclusiveToExclusive {
                    start: self.start,
                    end: T::from_ord(self.start.ord() + 1),
                },
                None,
            )
        }
    }

    /// What `k` successive calls of `next` return, starting from `self`.
    pub open spec fn next_results(self, k: nat) -> Seq<Option<T>>
        decreases k,
    {
        if k == 0 {
            Seq::empty()
        } else {
            seq![self.spec_next().1] + self.spec_next().0.next_results((k - 1) as nat)
        }
    }

    /// What `k` successive calls of `next_back` return, starting from `self`.
    pub open spec fn next_back_results(self, k: nat) -> Seq<Option<T>>
        decreases k,
    {
        if k == 0 {
            Seq::empty()
        } else {
            seq![self.spec_next_back().1] + self.spec_next_back().0.next_back_results(
                (k - 1) as nat,
            )
        }
    }

    /// Returns the least remaining value and moves `start` up to it, or
    /// returns `None` once fewer than two steps separate `start` from `end`.
    pub fn next(&mut self) -> (r: Option<T>)
        ensures
            (*final(self), r) == old(self).spec_next(),
    {
        if gap_exceeds_one(&self.start, &self.end) {
            proof {
                T::lemma_ord(self.end);
            }
            self.start = T::forward_checked(self.start, 1).unwrap();
            Some(self.start)
        } else {
            None
        }
    }

    /// Returns the greatest remaining value and moves `end` down to it, or
    /// returns `None` once fewer than two steps separate `start` from `end`.
    pub fn next_back(&mut self) -> (r: Option<T>)
        ensures
            (*final(self), r) == old(self).spec_next_back(),
    {
        if gap_exceeds_one(&self.start, &self.end) {
            proof {
                T::lemma_ord(self.start);
            }
            self.end = T::backward_checked(self.end, 1).unwrap();
            Some(self.end)
        } else {
            None
        }
    }

    /// The number of remaining values, one less than the steps from `start`
    /// to `end`, when that count fits in a `usize`. Otherwise `(0, Some(0))`
    /// for a range whose `end` does not lie above `start`, and `usize::MAX`
    /// with no upper bound for one whose span is too large to count.
    pub fn size_hint(&self) -> (r: (usize, Option<usize>))
        ensures
            r == (match steps(self.start.ord(), self.end.ord()) {
                Some(k) => if k > 1 {
                    ((k - 1) as usize, Some((k - 1) as usize))
                } else {
                    (0, Some(0))
                },
                None => if self.start.ord() >= self.end.ord() {
                    (0, Some(0))
                } else {
                    (usize::MAX, None)
                },
            }),
    {
        match T::steps_between(&self.start, &self.end) {
            Some(hint) => {
                if hint > 1 {
                    (hint - 1, Some(hint - 1))
                } else {
                    (0, Some(0))
                }
            },
            None => {
                if !T::precedes(&self.start, &self.end) {
                    (0, Some(0))
                } else {
                    (usize::MAX, None)
                }
            },
        }
    }

    /// Skips `n` values and returns the next one, leaving `start` on it. When
    /// fewer than `n + 1` values remain, returns `None` and leaves `start` one
    /// step below `end`.
    pub fn nth(&mut self, n: usize) -> (r: Option<T>)
        ensures
            (*final(self), r) == old(self).spec_nth(n as nat),
    {
        if !gap_exceeds_one(&self.start, &self.end) {
            return None;
        }
        proof {
            T::lemma_ord(self.start);
            T::lemma_ord(self.end);
        }
        match T::forward_checked(self.start, n) {
            Some(plus_n) => {
                proof {
                    T::lemma_from_ord(self.start.ord() + n);
                }
                if gap_exceeds_one(&plus_n, &self.end) {
                    self.start = T::forward_checked(plus_n, 1).unwrap();
                    return Some(self.start);
                }
            },
            None => {},
        }
        self.start = T::backward_checked(self.end, 1).unwrap();
        None
    }

    /// Skips `n` values from the back and returns the one before them,
    /// leaving `end` on it. When fewer than `n + 1` values remain, returns
    /// `None` and leaves `end` one step above `start`.
    pub fn nth_back(&mut self, n: usize) -> (r: Option<T>)
        ensures
            (*final(self), r) == old(self).spec_nth_back(n as nat),
    {
        if !gap_exceeds_one(&self.start, &self.end) {
            return None;
        }
        proof {
            T::lemma_ord(self.start);
            T::lemma_ord(self.end);
        }
        match T::backward_checked(self.end, n) {
            Some(minus_n) => {
                proof {
                    T::lemma_from_ord(self.end.ord() - n);
                }
                if gap_exceeds_one(&self.start, &minus_n) {
                    self.end = T::backward_checked(minus_n, 1).unwrap();
                    return Some(self.end);
                }
            },
            None => {},
        }
        self.end = T::forward_checked(self.start, 1).unwrap();
        None
    }

    /// The greatest value of the range, which `next_back` would return.
    pub fn last(self) -> (r: Option<T>)
        ensures
            r == self.spec_next_back().1,
    {
        let mut range = self;
        range.next_back()
    }

    /// The least value of the range, which `next` would return.
    pub fn min(self) -> (r: Option<T>)
        ensures
            r == self.spec_next().1,
    {
        let mut range = self;
        range.next()
    }

    /// The greatest value of the range, which `next_back` would return.
    pub fn max(self) -> (r: Option<T>)
        ensures
            r == self.spec_next_back().1,
    {
        let mut range = self;
        range.next_back()
    }
}

impl<T: ExactStep> RangeFromExclusiveToExclusive<T> {
    /// The exact number of remaining values: one less than the steps from
    /// `start` to `end`, or `0` for an empty range.
    pub fn len(&self) -> (r: usize)
        ensures
            r == self.items().len(),
    {
        if T::precedes(&self.start, &self.end) {
            proof {
                T::lemma_span_fits();
                T::lemma_ord(self.start);
                T::lemma_ord(self.end);
            }
            T::steps_between(&self.start, &self.end).unwrap() - 1
        } else {
            0
        }
    }
}

impl<T: Step> RangeFromExclusiveToExclusive<T> {
    proof fn lemma_next_pops_front(r: Self)
        ensures
            r.start.ord() + 1 < r.end.ord() ==> r.spec_next().1 == Some(r.items()[0])
                && r.spec_next().0.items() == r.items().drop_first(),
            r.start.ord() + 1 >= r.end.ord() ==> r.spec_next().1 is None && r.items().len()
                == 0,
    {
        if r.start.ord() + 1 < r.end.ord() {
            T::lemma_ord(r.start);
            T::lemma_ord(r.end);
            T::lemma_from_ord(r.start.ord() + 1);
            assert(r.spec_next().0.items() =~= r.items().drop_first());
        }
    }

    proof fn lemma_next_back_pops_back(r: Self)
        ensures
            r.start.ord() + 1 < r.end.ord() ==> r.spec_next_back().1 == Some(r.items().last())
                && r.spec_next_back().0.items() == r.items().drop_last(),
            r.start.ord() + 1 >= r.end.ord() ==> r.spec_next_back().1 is None
                && r.items().len() == 0,
    {
        if r.start.ord() + 1 < r.end.ord() {
            T::lemma_ord(r.start);
            T::lemma_ord(r.end);
            T::lemma_from_ord(r.end.ord() - 1);
            assert(r.spec_next_back().0.items() =~= r.items().drop_last());
        }
    }

    /// Stepping forward through a range yields its values in increasing
    /// order, `start + 1` up to but excluding `end`, one per call of `next`,
    /// and then `None` on every later call: `k` calls return the values, then
    /// `None`s. A range with `start < end` holds `end - start - 1` values,
    /// none when `end` is one step above `start`.
    pub proof fn lemma_forward_yields_items(r: Self, k: nat)
        requires
            k >= r.items().len(),
        ensures
            r.next_results(k) == r.items().map_values(|v: T| Some(v)) + Seq::new(
                (k - r.items().len()) as nat,
                |i: int| None::<T>,
            ),
            r.start.ord() < r.end.ord() ==> r.items().len() == r.end.ord() - r.start.ord() - 1,
        decreases k,
    {
        Self::lemma_next_pops_front(r);
        let n = r.items().len();
        if k == 0 {
            assert(r.next_results(0) =~= r.items().map_values(|v: T| Some(v)) + Seq::new(
                0,
                |i: int| None::<T>,
            ));
        } else if r.start.ord() + 1 < r.end.ord() {
            let rest = r.spec_next().0;
            Self::lemma_forward_yields_items(rest, (k - 1) as nat);
            assert(r.next_results(k) == seq![Some(r.items()[0])] + rest.next_results(
                (k - 1) as nat,
            ));
            assert(r.next_results(k) =~= r.items().map_values(|v: T| Some(v)) + Seq::new(
                (k - n) as nat,
                |i: int| None::<T>,
            ));
        } else {
            Self::lemma_forward_yields_items(r, (k - 1) as nat);
            assert(r.next_results(k) == seq![None::<T>] + r.next_results((k - 1) as nat));
            assert(r.next_results(k) =~= r.items().map_values(|v: T| Some(v)) + Seq::new(
                (k - n) as nat,
                |i: int| None::<T>,
            ));
        }
    }

    /// Stepping backward through a range yields its values in decreasing
    /// order, one per call of `next_back`, and then `None` on every later
    /// call: the `i`-th call of `next_back` returns what the `i`-th call of
    /// `next` from the far end would, so the two runs are each other reversed.
    pub proof fn lemma_backward_reverses_forward(r: Self, k: nat)
        requires
            k >= r.items().len(),
        ensures
            r.next_back_results(k) == r.items().reverse().map_values(|v: T| Some(v)) + Seq::new(
                (k - r.items().len()) as nat,
                |i: int| None::<T>,
            ),
            forall|i: int|
                0 <= i < r.items().len() ==> #[trigger] r.next_back_results(k)[i]
                    == r.next_results(k)[r.items().len() - 1 - i],
            forall|i: int| r.items().len() <= i < k ==> #[trigger] r.next_back_results(k)[i] is None,
        decreases k,
    {
        Self::lemma_next_back_pops_back(r);
        Self::lemma_forward_yields_items(r, k);
        let n = r.items().len();
        let nones = Seq::new((k - n) as nat, |i: int| None::<T>);
        if k == 0 {
            assert(r.next_back_results(0) =~= r.items().reverse().map_values(|v: T| Some(v))
                + nones);
        } else if r.start.ord() + 1 < r.end.ord() {
            let rest = r.spec_next_back().0;
            Self::lemma_backward_reverses_forward(rest, (k - 1) as nat);
            assert(r.next_back_results(k) == seq![Some(r.items().last())]
                + rest.next_back_results((k - 1) as nat));
            assert(r.next_back_results(k) =~= r.items().reverse().map_values(|v: T| Some(v))
                + nones);
        } else {
            Self::lemma_backward_reverses_forward(r, (k - 1) as nat);
            assert(r.next_back_results(k) == seq![None::<T>] + r.next_back_results(
                (k - 1) as nat,
            ));
            assert(r.next_back_results(k) =~= r.items().reverse().map_values(|v: T| Some(v))
                + nones);
        }
        assert forall|i: int| 0 <= i < n implies #[trigger] r.next_back_results(k)[i]
            == r.next_results(k)[n - 1 - i] by {
            assert(r.next_back_results(k)[i] == Some(r.items().reverse()[i]));
            assert(r.next_results(k)[n - 1 - i] == Some(r.items()[n - 1 - i]));
        }
        assert forall|i: int| n <= i < k implies #[trigger] r.next_back_results(k)[i] is None by {
            assert(r.next_back_results(k)[i] == nones[i - n]);
        }
    }

    /// Asking `nth` or `nth_back` to skip every remaining value of a range
    /// with `start < end` exhausts it: it returns `None` and leaves `start`
    /// and `end` one step apart, never crossed.
    pub proof fn lemma_nth_overshoot_clamps(r: Self, n: nat)
        requires
            r.start.ord() < r.end.ord(),
            n >= r.items().len(),
        ensures
            r.spec_nth(n).1 is None,
            r.spec_nth(n).0.start.ord() + 1 == r.spec_nth(n).0.end.ord(),
            r.spec_nth(n).0.items().len() == 0,
            r.spec_nth_back(n).1 is None,
            r.spec_nth_back(n).0.start.ord() + 1 == r.spec_nth_back(n).0.end.ord(),
            r.spec_nth_back(n).0.items().len() == 0,
    {
        T::lemma_ord(r.start);
        T::lemma_ord(r.end);
        if r.start.ord() + 1 < r.end.ord() {
            T::lemma_from_ord(r.end.ord() - 1);
            T::lemma_from_ord(r.start.ord() + 1);
        }
    }
}

} // verus!
