//! The partial-axis decorator: wraps any coordinate object and narrows the
//! *displayed* pixel span to the part of the pixel limit that a chosen
//! sub-interval of the logical domain occupies, while delegating the logical
//! value-to-pixel mapping to the wrapped coordinate unchanged.

use vstd::prelude::*;
use vstd::pervasive::cloned;
use std::ops::Range;
use crate::arith::{
    div_trunc_i128, trunc_div, lemma_mul_interval, lemma_trunc_div_bound, lemma_trunc_div_exact,
};
use crate::fraction::{part_span, Fraction};
use crate::numeric::RangedCoordI64;
use crate::ranged::{AsRangedCoord, DiscreteRanged, Ranged};

verus! {

/// An axis decorator that makes the axis display only part of the value
/// domain: the wrapped coordinate keeps its full logical domain and its
/// mapping, but the axis extent reported for rendering is shrunk to the
/// pixel span of the stored display interval.
pub struct PartialAxis<R: Ranged> {
    inner: R,
    display: Range<R::ValueType>,
}

impl<R: Ranged> PartialAxis<R> {
    /// The wrapped coordinate, which keeps the full logical domain.
    pub closed spec fn inner(&self) -> R {
        self.inner
    }

    /// The display interval: the sub-range of the domain whose pixel span
    /// is reported as the axis's own rendering boundary.
    pub closed spec fn display(&self) -> Range<R::ValueType> {
        Range { start: self.display.start, end: self.display.end }
    }
}

/// The capability of being converted into a partial axis.
pub trait IntoPartialAxis: AsRangedCoord {
    /// Wrap the coordinate this description denotes in a partial-axis
    /// decorator that displays only `axis_range` of the full domain.
    fn partial_axis(
        self,
        axis_range: Range<<Self::CoordDescType as Ranged>::ValueType>,
    ) -> (r: PartialAxis<Self::CoordDescType>)
        ensures
            r.inner() == self.spec_coord(),
            r.display().start == axis_range.start,
            r.display().end == axis_range.end,
    {
        PartialAxis { inner: self.into_coord(), display: axis_range }
    }
}

impl<R: AsRangedCoord> IntoPartialAxis for R {
}

impl<R: Ranged + Clone> Clone for PartialAxis<R> where R::ValueType: Clone {
    /// Duplicate the decorator: the inner coordinate and both display
    /// endpoints are duplicated with their own `clone` implementations.
    fn clone(&self) -> (r: Self)
        ensures
            cloned::<R>(self.inner(), r.inner()),
            cloned::<R::ValueType>(self.display().start, r.display().start),
            cloned::<R::ValueType>(self.display().end, r.display().end),
    {
        PartialAxis {
            inner: self.inner.clone(),
            display: Range { start: self.display.start.clone(), end: self.display.end.clone() },
        }
    }
}

impl<R: Ranged> Ranged for PartialAxis<R> {
    type ValueType = R::ValueType;

    open spec fn spec_map(&self, value: R::ValueType, limit: (i32, i32)) -> i32 {
        self.inner().spec_map(value, limit)
    }

    open spec fn spec_range(&self) -> (R::ValueType, R::ValueType) {
        self.inner().spec_range()
    }

    open spec fn spec_axis_pixel_range(&self, limit: (i32, i32)) -> (i32, i32) {
        let lo = self.inner().spec_map(self.display().start, limit);
        let hi = self.inner().spec_map(self.display().end, limit);
        if lo <= hi {
            (lo, hi)
        } else {
            (hi, lo)
        }
    }

    open spec fn spec_key_points(&self, max_points: usize) -> Seq<R::ValueType> {
        self.inner().spec_key_points(max_points)
    }

    fn map(&self, value: &R::ValueType, limit: (i32, i32)) -> (r: i32)
        ensures
            r == self.spec_map(*value, limit),
    {
        self.inner.map(value, limit)
    }

    fn key_points(&self, max_points: usize) -> (r: Vec<R::ValueType>)
        ensures
            r@ == self.spec_key_points(max_points),
            r@.len() <= max_points,
    {
        self.inner.key_points(max_points)
    }

    fn range(&self) -> (r: Range<R::ValueType>)
        ensures
            r.start == self.spec_range().0,
            r.end == self.spec_range().1,
    {
        self.inner.range()
    }

    fn axis_pixel_range(&self, limit: (i32, i32)) -> (r: Range<i32>)
        ensures
            r.start == self.spec_axis_pixel_range(limit).0,
            r.end == self.spec_axis_pixel_range(limit).1,
    {
        let lo = self.inner.map(&self.display.start, limit);
        let hi = self.inner.map(&self.display.end, limit);
        if lo <= hi {
            lo..hi
        } else {
            hi..lo
        }
    }
}

impl<R: DiscreteRanged> DiscreteRanged for PartialAxis<R> {
    open spec fn spec_size(&self) -> usize {
        self.inner().spec_size()
    }

    open spec fn spec_index_of(&self, value: R::ValueType) -> Option<usize> {
        self.inner().spec_index_of(value)
    }

    open spec fn spec_from_index(&self, index: usize) -> Option<R::ValueType> {
        self.inner().spec_from_index(index)
    }

    proof fn lemma_index_round_trip(&self, index: usize) {
        self.inner.lemma_index_round_trip(index);
    }

    proof fn lemma_value_round_trip(&self, value: R::ValueType) {
        self.inner.lemma_value_round_trip(value);
    }

    fn size(&self) -> (r: usize)
        ensures
            r == self.spec_size(),
    {
        self.inner.size()
    }

    fn index_of(&self, value: &R::ValueType) -> (r: Option<usize>)
        ensures
            r == self.spec_index_of(*value),
    {
        self.inner.index_of(value)
    }

    fn from_index(&self, index: usize) -> (r: Option<R::ValueType>)
        ensures
            r == self.spec_from_index(index),
    {
        self.inner.from_index(index)
    }
}

/// Law: decoration never changes where a value lands; the decorator's
/// mapping is the wrapped coordinate's mapping.
pub proof fn lemma_decoration_preserves_map<R: Ranged>(
    d: PartialAxis<R>,
    value: R::ValueType,
    limit: (i32, i32),
)
    ensures
        d.spec_map(value, limit) == d.inner().spec_map(value, limit),
{
}

/// Law: the decorator's axis pixel range is the normalized interval
/// between the pixel positions of the two display endpoints, each mapped
/// through the wrapped coordinate.
pub proof fn lemma_decorator_axis_pixel_range<R: Ranged>(d: PartialAxis<R>, limit: (i32, i32))
    ensures
        ({
            let lo = d.inner().spec_map(d.display().start, limit);
            let hi = d.inner().spec_map(d.display().end, limit);
            d.spec_axis_pixel_range(limit) == if lo <= hi {
                (lo, hi)
            } else {
                (hi, lo)
            }
        }),
{
}

/// Law: the decorator reports the wrapped coordinate's full domain and its
/// tick candidates unchanged; only the axis pixel range is decorated.
pub proof fn lemma_decoration_preserves_domain<R: Ranged>(d: PartialAxis<R>, max_points: usize)
    ensures
        d.spec_range() == d.inner().spec_range(),
        d.spec_key_points(max_points) == d.inner().spec_key_points(max_points),
{
}

/// The start of the back-solved full domain: the visible interval's start,
/// moved down by the part of the full length that lies before it. The
/// division truncates toward zero, as a real-to-integer conversion does.
pub open spec fn full_range_start(axis_range: Range<i64>, p0: Fraction, p1: Fraction) -> int {
    axis_range.start - trunc_div(
        (axis_range.end - axis_range.start) * (p1.spec_den() * p0.spec_num()),
        part_span(p0, p1),
    )
}

/// The end of the back-solved full domain: the visible interval's end,
/// moved up by the part of the full length that lies after it.
pub open spec fn full_range_end(axis_range: Range<i64>, p0: Fraction, p1: Fraction) -> int {
    axis_range.end + trunc_div(
        (axis_range.end - axis_range.start) * (p0.spec_den() * (p1.spec_den() - p1.spec_num())),
        part_span(p0, p1),
    )
}

/// The side conditions under which the percentage-based construction and
/// the subsequent mapping of the visible interval's endpoints lose nothing
/// to integer rounding or pixel clamping: every truncating division is
/// exact, the back-solved bounds are representable, the full domain is not
/// degenerate, and both mapped endpoints stay inside the pixel type.
pub open spec fn percentage_construction_is_exact(
    axis_range: Range<i64>,
    p0: Fraction,
    p1: Fraction,
    limit: (i32, i32),
) -> bool {
    let e = part_span(p0, p1);
    let fl = full_range_start(axis_range, p0, p1);
    let fr = full_range_end(axis_range, p0, p1);
    let width = limit.1 - limit.0;
    &&& e != 0
    &&& ((axis_range.end - axis_range.start) * (p1.spec_den() * p0.spec_num())) % e == 0
    &&& ((axis_range.end - axis_range.start) * (p0.spec_den() * (p1.spec_den() - p1.spec_num())))
        % e == 0
    &&& i64::MIN <= fl <= i64::MAX
    &&& i64::MIN <= fr <= i64::MAX
    &&& fl != fr
    &&& ((axis_range.start - fl) * width) % (fr - fl) == 0
    &&& ((axis_range.end - fl) * width) % (fr - fl) == 0
    &&& i32::MIN <= limit.0 + trunc_div((axis_range.start - fl) * width, fr - fl) <= i32::MAX
    &&& i32::MIN <= limit.0 + trunc_div((axis_range.end - fl) * width, fr - fl) <= i32::MAX
}

/// Law (the exact case of the percentage construction): when no integer
/// division of the back-solve or of the endpoint mapping loses a remainder
/// and no pixel position is clamped, the visible interval's pixel span is
/// exactly the fraction `part.end - part.start` of the pixel limit's
/// length: scaled by the fractions' denominators,
/// `den0 * den1 * (hi - lo) == part_span * (limit.1 - limit.0)`.
///
/// With inexact divisions the truncated bounds can shift the span by more
/// than a pixel, so the law is stated for the exact case only.
pub proof fn lemma_percentage_pixel_span(
    axis_range: Range<i64>,
    p0: Fraction,
    p1: Fraction,
    limit: (i32, i32),
)
    requires
        percentage_construction_is_exact(axis_range, p0, p1, limit),
    ensures
        ({
            let full = RangedCoordI64 {
                start: full_range_start(axis_range, p0, p1) as i64,
                end: full_range_end(axis_range, p0, p1) as i64,
            };
            let lo = full.spec_map(axis_range.start, limit);
            let hi = full.spec_map(axis_range.end, limit);
            (p0.spec_den() * p1.spec_den()) * (hi - lo) == part_span(p0, p1) * (limit.1 - limit.0)
        }),
{
    let l = axis_range.start as int;
    let r = axis_range.end as int;
    let a = p0.spec_num() as int;
    let c = p0.spec_den() as int;
    let b = p1.spec_num() as int;
    let d = p1.spec_den() as int;
    let e = part_span(p0, p1);
    let rl = r - l;
    let num_l = rl * (d * a);
    let num_r = rl * (c * (d - b));
    let fl = full_range_start(axis_range, p0, p1);
    let fr = full_range_end(axis_range, p0, p1);
    let width = (limit.1 - limit.0) as int;

    lemma_trunc_div_exact(num_l, e);
    lemma_trunc_div_exact(num_r, e);
    assert(e * (l - fl) == num_l);
    assert(e * (fr - r) == num_r);
    assert((fr - fl) * e == rl * (c * d)) by (nonlinear_arith)
        requires
            e * (l - fl) == (r - l) * (d * a),
            e * (fr - r) == (r - l) * (c * (d - b)),
            rl == r - l,
            e == b * c - a * d,
    ;

    let q_lo = trunc_div((l - fl) * width, fr - fl);
    let q_hi = trunc_div((r - fl) * width, fr - fl);
    lemma_trunc_div_exact((l - fl) * width, fr - fl);
    lemma_trunc_div_exact((r - fl) * width, fr - fl);
    assert((fr - fl) * (q_hi - q_lo) == rl * width) by (nonlinear_arith)
        requires
            (fr - fl) * q_lo == (l - fl) * width,
            (fr - fl) * q_hi == (r - fl) * width,
            rl == r - l,
    ;
    assert(rl != 0) by (nonlinear_arith)
        requires
            (fr - fl) * e == rl * (c * d),
            fr - fl != 0,
            e != 0,
    ;
    assert(rl * ((c * d) * (q_hi - q_lo)) == rl * (e * width)) by (nonlinear_arith)
        requires
            (fr - fl) * (q_hi - q_lo) == rl * width,
            (fr - fl) * e == rl * (c * d),
    ;
    assert((c * d) * (q_hi - q_lo) == e * width) by (nonlinear_arith)
        requires
            rl * ((c * d) * (q_hi - q_lo)) == rl * (e * width),
            rl != 0,
    ;

    let full = RangedCoordI64 {
        start: full_range_start(axis_range, p0, p1) as i64,
        end: full_range_end(axis_range, p0, p1) as i64,
    };
    assert(full.spec_map(axis_range.start, limit) == limit.0 + q_lo);
    assert(full.spec_map(axis_range.end, limit) == limit.0 + q_hi);
}

/// Make a partial axis based on the fraction of the axis that should be
/// visible: back-solve the full domain so that `axis_range` spans exactly
/// the portion `[part.start, part.end]` of it, and wrap a coordinate over
/// that full domain in a decorator displaying `axis_range`.
///
/// Returns `None` instead of faulting when the visible portion has zero
/// width, and when a bound of the back-solved domain is not representable
/// in the coordinate's value type.
pub fn make_partial_axis(axis_range: Range<i64>, part: Range<Fraction>) -> (r: Option<
    PartialAxis<RangedCoordI64>,
>)
    ensures
        ({
            let fl = full_range_start(axis_range, part.start, part.end);
            let fr = full_range_end(axis_range, part.start, part.end);
            let ok = part_span(part.start, part.end) != 0 && i64::MIN <= fl <= i64::MAX
                && i64::MIN <= fr <= i64::MAX;
            &&& r is Some <==> ok
            &&& (r matches Some(pa) ==> {
                &&& pa.inner() == (RangedCoordI64 { start: fl as i64, end: fr as i64 })
                &&& pa.display().start == axis_range.start
                &&& pa.display().end == axis_range.end
            })
        }),
{
    let a: i128 = part.start.num() as i128;
    let c: i128 = part.start.den() as i128;
    let b: i128 = part.end.num() as i128;
    let d: i128 = part.end.den() as i128;
    let left: i64 = axis_range.start;
    let right: i64 = axis_range.end;
    let rl: i128 = (right as i128) - (left as i128);
    proof {
        lemma_mul_interval(b as int, c as int, 0x8000_0000, 0x8000_0000);
        lemma_mul_interval(a as int, d as int, 0x8000_0000, 0x8000_0000);
    }
    let e: i128 = b * c - a * d;
    if e == 0 {
        return None;
    }
    proof {
        lemma_mul_interval(d as int, a as int, 0x7FFF_FFFF, 0x8000_0000);
        lemma_mul_interval(
            rl as int,
            (d as int) * (a as int),
            0xFFFF_FFFF_FFFF_FFFF,
            (0x7FFF_FFFF * 0x8000_0000) as int,
        );
        lemma_trunc_div_bound((rl as int) * ((d as int) * (a as int)), e as int);
    }
    let off_start: i128 = div_trunc_i128(rl * (d * a), e);
    let fl_i: i128 = (left as i128) - off_start;
    proof {
        lemma_mul_interval(c as int, (d as int) - (b as int), 0x7FFF_FFFF, 0xFFFF_FFFF);
        lemma_mul_interval(
            rl as int,
            (c as int) * ((d as int) - (b as int)),
            0xFFFF_FFFF_FFFF_FFFF,
            (0x7FFF_FFFF * 0xFFFF_FFFF) as int,
        );
        lemma_trunc_div_bound((rl as int) * ((c as int) * ((d as int) - (b as int))), e as int);
    }
    let off_end: i128 = div_trunc_i128(rl * (c * (d - b)), e);
    let fr_i: i128 = (right as i128) + off_end;
    if fl_i < i64::MIN as i128 || fl_i > i64::MAX as i128 {
        return None;
    }
    if fr_i < i64::MIN as i128 || fr_i > i64::MAX as i128 {
        return None;
    }
    let full = RangedCoordI64 { start: fl_i as i64, end: fr_i as i64 };
    Some(PartialAxis { inner: full, display: left..right })
}

} // verus!
