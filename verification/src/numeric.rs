//! The concrete numeric coordinate: a half-open `i64` value domain mapped
//! linearly onto an integer pixel span. It also implements the discrete
//! capability, since its domain is a finite ordered set of integers.

use vstd::prelude::*;
use vstd::arithmetic::div_mod::{lemma_div_non_zero, lemma_fundamental_div_mod};
use vstd::arithmetic::mul::lemma_mul_inequality;
use std::ops::Range;
use crate::arith::{clamp_to_i32, div_trunc_i128, trunc_div, lemma_mul_interval, lemma_trunc_div_bound};
use crate::ranged::{AsRangedCoord, DiscreteRanged, Ranged};

verus! {

/// A coordinate over the half-open value domain `[start, end)`, mapped
/// linearly onto a pixel span.
///
/// Mapping policy: a value `v` lands at
/// `limit.0 + trunc((v - start) * (limit.1 - limit.0) / (end - start))`,
/// the division truncating toward zero, the result clamped into the pixel
/// type's range. Values outside the domain are extrapolated by the same
/// formula. A degenerate domain (`start == end`) maps every value to
/// `limit.0`.
#[derive(Clone, Copy, PartialEq, Eq, Structural)]
pub struct RangedCoordI64 {
    /// Inclusive lower bound of the value domain.
    pub start: i64,
    /// Exclusive upper bound of the value domain.
    pub end: i64,
}

impl RangedCoordI64 {
    /// How many tick candidates a budget of `max_points` yields: the budget,
    /// or the whole domain when it is smaller.
    pub open spec fn spec_kp_count(&self, max_points: usize) -> int {
        let count = if self.start < self.end {
            self.end - self.start
        } else {
            0
        };
        if max_points as int <= count {
            max_points as int
        } else {
            count
        }
    }

    /// The distance between two consecutive tick candidates.
    pub open spec fn spec_kp_step(&self, max_points: usize) -> int {
        let count = if self.start < self.end {
            self.end - self.start
        } else {
            0
        };
        let n = self.spec_kp_count(max_points);
        if n > 0 {
            count / n
        } else {
            0
        }
    }
}

impl Ranged for RangedCoordI64 {
    type ValueType = i64;

    open spec fn spec_map(&self, value: i64, limit: (i32, i32)) -> i32 {
        if self.start == self.end {
            limit.0
        } else {
            clamp_to_i32(
                limit.0 + trunc_div(
                    (value - self.start) * (limit.1 - limit.0),
                    self.end - self.start,
                ),
            )
        }
    }

    open spec fn spec_range(&self) -> (i64, i64) {
        (self.start, self.end)
    }

    open spec fn spec_axis_pixel_range(&self, limit: (i32, i32)) -> (i32, i32) {
        limit
    }

    open spec fn spec_key_points(&self, max_points: usize) -> Seq<i64> {
        Seq::new(
            self.spec_kp_count(max_points) as nat,
            |j: int| (self.start + j * self.spec_kp_step(max_points)) as i64,
        )
    }

    fn map(&self, value: &i64, limit: (i32, i32)) -> (r: i32)
        ensures
            r == self.spec_map(*value, limit),
    {
        if self.start == self.end {
            return limit.0;
        }
        let dv: i128 = (*value as i128) - (self.start as i128);
        let dl: i128 = (limit.1 as i128) - (limit.0 as i128);
        let den: i128 = (self.end as i128) - (self.start as i128);
        proof {
            lemma_mul_interval(dv as int, dl as int, 0x1_0000_0000_0000_0000, 0x1_0000_0000);
        }
        let num: i128 = dv * dl;
        proof {
            lemma_trunc_div_bound(num as int, den as int);
        }
        let q: i128 = div_trunc_i128(num, den);
        let pos: i128 = (limit.0 as i128) + q;
        if pos < i32::MIN as i128 {
            i32::MIN
        } else if pos > i32::MAX as i128 {
            i32::MAX
        } else {
            pos as i32
        }
    }

    fn key_points(&self, max_points: usize) -> (r: Vec<i64>)
        ensures
            r@ == self.spec_key_points(max_points),
            r@.len() <= max_points,
    {
        let mut r: Vec<i64> = Vec::new();
        if self.start >= self.end || max_points == 0 {
            assert(r@ =~= self.spec_key_points(max_points));
            return r;
        }
        let count: i128 = (self.end as i128) - (self.start as i128);
        let n: i128 = if (max_points as i128) <= count {
            max_points as i128
        } else {
            count
        };
        let step: i128 = div_trunc_i128(count, n);
        proof {
            lemma_div_non_zero(count as int, n as int);
            lemma_fundamental_div_mod(count as int, n as int);
            assert(n * step <= count);
        }
        let total: usize = n as usize;
        let mut i: usize = 0;
        while i < total
            invariant
                self.start < self.end,
                0 < total <= max_points,
                count == self.end - self.start,
                total == self.spec_kp_count(max_points),
                step == self.spec_kp_step(max_points),
                1 <= step,
                n == total,
                n * step <= count,
                0 <= i <= total,
                r@.len() == i,
                forall|j: int|
                    0 <= j < i ==> r@[j] == (self.start + j * self.spec_kp_step(
                        max_points,
                    )) as i64,
            decreases total - i,
        {
            proof {
                lemma_mul_inequality(i as int, n - 1, step as int);
                lemma_mul_inequality(0, i as int, step as int);
                assert((n - 1) * step == n * step - step) by (nonlinear_arith);
            }
            let offset: i128 = (i as i128) * step;
            let v: i64 = ((self.start as i128) + offset) as i64;
            r.push(v);
            i = i + 1;
        }
        assert(r@ =~= self.spec_key_points(max_points));
        r
    }

    fn range(&self) -> (r: Range<i64>)
        ensures
            r.start == self.spec_range().0,
            r.end == self.spec_range().1,
    {
        self.start..self.end
    }

    fn axis_pixel_range(&self, limit: (i32, i32)) -> (r: Range<i32>)
        ensures
            r.start == self.spec_axis_pixel_range(limit).0,
            r.end == self.spec_axis_pixel_range(limit).1,
    {
        limit.0..limit.1
    }
}

impl DiscreteRanged for RangedCoordI64 {
    open spec fn spec_size(&self) -> usize {
        let count = if self.start <= self.end {
            self.end - self.start
        } else {
            0
        };
        if count > usize::MAX {
            usize::MAX
        } else {
            count as usize
        }
    }

    open spec fn spec_index_of(&self, value: i64) -> Option<usize> {
        if self.start <= value < self.end && value - self.start < self.spec_size() {
            Some((value - self.start) as usize)
        } else {
            None
        }
    }

    open spec fn spec_from_index(&self, index: usize) -> Option<i64> {
        if index < self.spec_size() {
            Some((self.start + index) as i64)
        } else {
            None
        }
    }

    proof fn lemma_index_round_trip(&self, index: usize) {
    }

    proof fn lemma_value_round_trip(&self, value: i64) {
    }

    fn size(&self) -> (r: usize)
        ensures
            r == self.spec_size(),
    {
        if self.start > self.end {
            return 0;
        }
        let count: i128 = (self.end as i128) - (self.start as i128);
        if count > usize::MAX as i128 {
            usize::MAX
        } else {
            count as usize
        }
    }

    fn index_of(&self, value: &i64) -> (r: Option<usize>)
        ensures
            r == self.spec_index_of(*value),
    {
        if self.start <= *value && *value < self.end {
            let k: i128 = (*value as i128) - (self.start as i128);
            if k < self.size() as i128 {
                Some(k as usize)
            } else {
                None
            }
        } else {
            None
        }
    }

    fn from_index(&self, index: usize) -> (r: Option<i64>)
        ensures
            r == self.spec_from_index(index),
    {
        if index < self.size() {
            Some(((self.start as i128) + (index as i128)) as i64)
        } else {
            None
        }
    }
}

impl AsRangedCoord for Range<i64> {
    type CoordDescType = RangedCoordI64;

    open spec fn spec_coord(self) -> RangedCoordI64 {
        RangedCoordI64 { start: self.start, end: self.end }
    }

    fn into_coord(self) -> (r: RangedCoordI64)
        ensures
            r == self.spec_coord(),
    {
        RangedCoordI64 { start: self.start, end: self.end }
    }
}

/// Law: on an undecorated coordinate, the axis pixel range is the whole
/// pixel limit.
pub proof fn lemma_undecorated_axis_spans_limit(c: RangedCoordI64, limit: (i32, i32))
    ensures
        c.spec_axis_pixel_range(limit) == limit,
{
}

} // verus!
