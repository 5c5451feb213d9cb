//! Ranges bounded exclusively below.
//!
//! The standard library's ranges are bounded inclusively below or not at all.
//! The three range types here are bounded exclusively below:
//!
//! - [`RangeFromExclusive`] holds every `x` with `start < x`;
//! - [`RangeFromExclusiveToInclusive`] holds every `x` with `start < x <= end`;
//! - [`RangeFromExclusiveToExclusive`] holds every `x` with `start < x < end`.
//!
//! Each reports its bounds ([`core::ops::RangeBounds`]), selects a part of a
//! slice or a string when its index type is `usize` ([`index`]), and, over a
//! [`step::Step`] type, steps through its values from either end ([`iter`]).
//! [`record`] holds the rules for reading a range back from a serialized
//! record of its fields.
use vstd::prelude::*;

pub mod bounds;
pub mod index;
pub mod iter;
pub mod record;
pub mod step;

verus! {

/// A range only bounded exclusively below: all `x` with `start < x`.
#[derive(Clone, Debug, PartialEq, Eq, Hash)]
pub struct RangeFromExclusive<Idx> {
    /// The lower bound of the range (exclusive).
    pub start: Idx,
}

/// A range bounded exclusively below and inclusively above: all `x` with
/// `start < x <= end`. It is empty unless `start < end`.
#[derive(Clone, Debug, PartialEq, Eq, Hash)]
pub struct RangeFromExclusiveToInclusive<Idx> {
    /// The lower bound of the range (exclusive).
    pub start: Idx,
    /// The upper bound of the range (inclusive).
    pub end: Idx,
}

/// A range bounded exclusively below and above: all `x` with
/// `start < x < end`. It is empty unless at least two steps lead from `start`
/// to `end`.
#[derive(Clone, Debug, PartialEq, Eq, Hash)]
pub struct RangeFromExclusiveToExclusive<Idx> {
    /// The lower bound of the range (exclusive).
    pub start: Idx,
    /// The upper bound of the range (exclusive).
    pub end: Idx,
}

} // verus!
