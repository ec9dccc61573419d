//! The coordinate capability: every coordinate type maps logical values onto
//! an integer pixel span, reports its logical domain, and proposes tick
//! candidates. A discrete coordinate additionally enumerates its domain.

use vstd::prelude::*;
use std::ops::Range;

verus! {

/// The capability every coordinate type provides.
///
/// Each implementation fixes its behaviour through the three spec functions;
/// the executable methods are then pinned to them exactly. `spec_map` is the
/// mathematical value-to-pixel mapping, `spec_range` the full logical domain
/// as a half-open interval, and `spec_axis_pixel_range` the pixel sub-span
/// the coordinate's own domain occupies inside a given pixel limit.
pub trait Ranged: Sized {
    /// The type of the logical values this coordinate maps.
    type ValueType;

    /// Where a value lands inside the pixel limit `(low, high)`.
    spec fn spec_map(&self, value: Self::ValueType, limit: (i32, i32)) -> i32;

    /// The full logical domain `[start, end)` as a `(start, end)` pair.
    spec fn spec_range(&self) -> (Self::ValueType, Self::ValueType);

    /// The pixel interval the coordinate's own domain occupies within
    /// `limit`, as a `(start, end)` pair of the returned half-open range.
    spec fn spec_axis_pixel_range(&self, limit: (i32, i32)) -> (i32, i32);

    /// The tick candidates produced for a given budget.
    spec fn spec_key_points(&self, max_points: usize) -> Seq<Self::ValueType>;

    /// Map a value into the pixel span `[limit.0, limit.1)`. Values outside
    /// the logical domain are extrapolated, never rejected.
    fn map(&self, value: &Self::ValueType, limit: (i32, i32)) -> (r: i32)
        ensures
            r == self.spec_map(*value, limit),
    ;

    /// Produce at most `max_points` candidate tick values spanning the domain.
    fn key_points(&self, max_points: usize) -> (r: Vec<Self::ValueType>)
        ensures
            r@ == self.spec_key_points(max_points),
            r@.len() <= max_points,
    ;

    /// The full logical domain as a half-open interval.
    fn range(&self) -> (r: Range<Self::ValueType>)
        ensures
            r.start == self.spec_range().0,
            r.end == self.spec_range().1,
    ;

    /// The pixel interval that this coordinate's own domain should visually
    /// occupy within `limit`.
    fn axis_pixel_range(&self, limit: (i32, i32)) -> (r: Range<i32>)
        ensures
            r.start == self.spec_axis_pixel_range(limit).0,
            r.end == self.spec_axis_pixel_range(limit).1,
    ;
}

/// The extension capability for coordinates whose value domain is a finite,
/// ordered set indexable by a zero-based position.
///
/// Every implementation owes the round-trip laws `lemma_index_round_trip`
/// and `lemma_value_round_trip`: converting a valid index to a value and
/// back yields the same index, and converting a member value to its index
/// and back yields the same value.
pub trait DiscreteRanged: Ranged {
    /// How many distinct values the domain holds.
    spec fn spec_size(&self) -> usize;

    /// The zero-based position of a value in domain order, if it is a member.
    spec fn spec_index_of(&self, value: Self::ValueType) -> Option<usize>;

    /// The member value at a zero-based position, if the position is valid.
    spec fn spec_from_index(&self, index: usize) -> Option<Self::ValueType>;

    /// Law: `index_of` inverts `from_index` on every valid index.
    proof fn lemma_index_round_trip(&self, index: usize)
        requires
            index < self.spec_size(),
        ensures
            self.spec_from_index(index) is Some,
            self.spec_index_of(self.spec_from_index(index)->0) == Some(index),
    ;

    /// Law: `from_index` inverts `index_of` on every member value.
    proof fn lemma_value_round_trip(&self, value: Self::ValueType)
        requires
            self.spec_index_of(value) is Some,
        ensures
            self.spec_index_of(value)->0 < self.spec_size(),
            self.spec_from_index(self.spec_index_of(value)->0) == Some(value),
    ;

    /// Number of distinct values in the domain.
    fn size(&self) -> (r: usize)
        ensures
            r == self.spec_size(),
    ;

    /// Zero-based position of `value` in domain order, or `None` if `value`
    /// is not a member.
    fn index_of(&self, value: &Self::ValueType) -> (r: Option<usize>)
        ensures
            r == self.spec_index_of(*value),
    ;

    /// Inverse of `index_of`: the value at `index`, or `None` if `index` is
    /// outside `[0, size())`.
    fn from_index(&self, index: usize) -> (r: Option<Self::ValueType>)
        ensures
            r == self.spec_from_index(index),
    ;
}

/// The conversion capability that turns a user-facing domain description
/// (such as a plain `min..max` interval) into a concrete coordinate object.
pub trait AsRangedCoord: Sized {
    /// The concrete coordinate type this description converts into.
    type CoordDescType: Ranged;

    /// The coordinate object the description denotes.
    spec fn spec_coord(self) -> Self::CoordDescType;

    /// Build the coordinate object this description denotes.
    fn into_coord(self) -> (r: Self::CoordDescType)
        ensures
            r == self.spec_coord(),
    ;
}

} // verus!
