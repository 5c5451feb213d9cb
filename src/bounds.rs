//! The bounds of each range, as the standard library's `RangeBounds` reports
//! them, so that the ranges work with code written against that trait.
use core::ops::Bound;
use core::ops::RangeBounds;
use vstd::prelude::*;

use crate::RangeFromExclusive;
use crate::RangeFromExclusiveToExclusive;
use crate::RangeFromExclusiveToInclusive;

verus! {

/// The standard library's `Bound`, declared with its three variants visible
/// so that the contracts below can say which one each bound is.
#[verifier::external_type_specification]
#[verifier::reject_recursive_types(T)]
pub struct ExBound<T>(Bound<T>);

impl<T> RangeBounds<T> for RangeFromExclusive<T> {
    fn start_bound(&self) -> (r: Bound<&T>)
        ensures
            r == Bound::Excluded(&self.start),
    {
        Bound::Excluded(&self.start)
    }

    fn end_bound(&self) -> (r: Bound<&T>)
        ensures
            r == Bound::<&T>::Unbounded,
    {
        Bound::Unbounded
    }
}

/// A range over references reports bounds that refer to the referents.
impl<'a, T> RangeBounds<T> for RangeFromExclusive<&'a T> {
    fn start_bound(&self) -> Bound<&T>
        returns
            Bound::<&T>::Excluded(self.start),
    {
        Bound::Excluded(self.start)
    }

    fn end_bound(&self) -> Bound<&T>
        returns
            Bound::<&T>::Unbounded,
    {
        Bound::Unbounded
    }
}

impl<T> RangeBounds<T> for RangeFromExclusiveToInclusive<T> {
    fn start_bound(&self) -> (r: Bound<&T>)
        ensures
            r == Bound::Excluded(&self.start),
    {
        Bound::Excluded(&self.start)
    }

    fn end_bound(&self) -> (r: Bound<&T>)
        ensures
            r == Bound::Included(&self.end),
    {
        Bound::Included(&self.end)
    }
}

/// A range over references reports bounds that refer to the referents.
impl<'a, T> RangeBounds<T> for RangeFromExclusiveToInclusive<&'a T> {
    fn start_bound(&self) -> Bound<&T>
        returns
            Bound::<&T>::Excluded(self.start),
    {
        Bound::Excluded(self.start)
    }

    fn end_bound(&self) -> Bound<&T>
        returns
            Bound::<&T>::Included(self.end),
    {
        Bound::Included(self.end)
    }
}

impl<T> RangeBounds<T> for RangeFromExclusiveToExclusive<T> {
    fn start_bound(&self) -> (r: Bound<&T>)
        ensures
            r == Bound::Excluded(&self.start),
    {
        Bound::Excluded(&self.start)
    }

    fn end_bound(&self) -> (r: Bound<&T>)
        ensures
            r == Bound::Excluded(&self.end),
    {
        Bound::Excluded(&self.end)
    }
}

/// A range over references reports bounds that refer to the referents.
impl<'a, T> RangeBounds<T> for RangeFromExclusiveToExclusive<&'a T> {
    fn start_bound(&self) -> Bound<&T>
        returns
            Bound::<&T>::Excluded(self.start),
    {
        Bound::Excluded(self.start)
    }

    fn end_bound(&self) -> Bound<&T>
        returns
            Bound::<&T>::Excluded(self.end),
    {
        Bound::Excluded(self.end)
    }
}

} // verus!
