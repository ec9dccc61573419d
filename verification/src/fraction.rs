//! An exact fraction of the axis length. The percentage-based constructor
//! takes the visible portion of an axis as a pair of these, so that the
//! back-solved full domain is computed exactly, with the zero-width case
//! surfaced as an absent result instead of an arithmetic fault.

use vstd::prelude::*;

verus! {

/// A fraction `num / den` with a positive denominator, typically inside
/// `[0, 1]`: the portion of the total axis length at which the visible
/// interval starts or ends. Out-of-range fractions are not rejected; they
/// extrapolate, like out-of-domain values of a coordinate.
#[derive(Clone, Copy)]
pub struct Fraction {
    num: i32,
    den: i32,
}

impl Fraction {
    /// The numerator.
    pub closed spec fn spec_num(&self) -> i32 {
        self.num
    }

    /// The denominator; always positive.
    pub closed spec fn spec_den(&self) -> i32 {
        self.den
    }

    #[verifier::type_invariant]
    spec fn wf(&self) -> bool {
        self.den > 0
    }

    /// Build `num / den`. Returns `None` when `den` is not positive, so
    /// that every fraction value has a well-defined positive denominator.
    pub fn new(num: i32, den: i32) -> (r: Option<Fraction>)
        ensures
            r is Some <==> den > 0,
            r matches Some(f) ==> f.spec_num() == num && f.spec_den() == den,
    {
        if den > 0 {
            Some(Fraction { num, den })
        } else {
            None
        }
    }

    /// The numerator.
    pub fn num(&self) -> (r: i32)
        ensures
            r == self.spec_num(),
    {
        self.num
    }

    /// The denominator.
    pub fn den(&self) -> (r: i32)
        ensures
            r == self.spec_den(),
            r > 0,
    {
        proof {
            use_type_invariant(self);
        }
        self.den
    }
}

/// The scaled width of the span between two fractions: the numerator of
/// `p1 - p0` over the common denominator `p0.den * p1.den`. It is zero
/// exactly when the two fractions denote the same rational.
pub open spec fn part_span(p0: Fraction, p1: Fraction) -> int {
    p1.spec_num() * p0.spec_den() - p0.spec_num() * p1.spec_den()
}

/// Law: a zero-width visible portion has no span, whatever the fraction.
pub proof fn lemma_equal_fractions_have_no_span(p: Fraction)
    ensures
        part_span(p, p) == 0,
{
}

} // verus!
