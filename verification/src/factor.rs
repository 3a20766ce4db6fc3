//! Brightness factors: exact fractions in the closed interval from zero to one.

use vstd::prelude::*;

verus! {

/// The mathematical value of a brightness factor: the fraction `num / den`.
pub struct Ratio {
    pub num: int,
    pub den: int,
}

impl Ratio {
    /// A fraction that lies between zero and one, both included.
    pub open spec fn in_unit_interval(self) -> bool {
        0 <= self.num <= self.den && 0 < self.den
    }

    /// The fraction equals one: the source brightness.
    pub open spec fn is_one(self) -> bool {
        self.num == self.den
    }

    /// The fraction equals zero: black.
    pub open spec fn is_zero(self) -> bool {
        self.num == 0
    }

    /// Both fractions denote the same number.
    pub open spec fn same_value(self, other: Ratio) -> bool {
        self.num * other.den == other.num * self.den
    }

    /// `self` is at most `other`, as numbers.
    pub open spec fn at_most(self, other: Ratio) -> bool {
        self.num * other.den <= other.num * self.den
    }

    /// The fraction that, added to `self`, gives one.
    pub open spec fn complement(self) -> Ratio {
        Ratio { num: self.den - self.num, den: self.den }
    }
}

/// A colour sample multiplied by the fraction `f`, fractional part dropped.
pub open spec fn scaled(sample: u8, f: Ratio) -> int {
    (sample as int * f.num) / f.den
}

/// A brightness factor. Every value of this type lies between zero and one.
#[derive(Clone, Copy, Debug)]
pub struct Factor {
    num: u64,
    den: u64,
}

impl View for Factor {
    type V = Ratio;

    closed spec fn view(&self) -> Ratio {
        Ratio { num: self.num as int, den: self.den as int }
    }
}

impl Factor {
    /// What holds of every factor: it lies between zero and one.
    #[verifier::type_invariant]
    pub open spec fn in_range(self) -> bool {
        self@.in_unit_interval()
    }

    /// The factor `num / den`, where that is a fraction between zero and one.
    pub fn new(num: u64, den: u64) -> (factor: Option<Factor>)
        ensures
            factor.is_some() <==> 0 < den && num <= den,
            factor matches Some(f) ==> f@ == (Ratio { num: num as int, den: den as int }),
    {
        if 0 < den && num <= den {
            Some(Factor { num, den })
        } else {
            None
        }
    }

    /// The factor `num / den` of a fraction known to lie between zero and one.
    pub(crate) fn fraction(num: u64, den: u64) -> (factor: Factor)
        requires
            0 < den,
            num <= den,
        ensures
            factor@ == (Ratio { num: num as int, den: den as int }),
    {
        Factor { num, den }
    }

    /// Full brightness: the fraction `1 / 1`.
    pub fn one() -> (factor: Factor)
        ensures
            factor@ == (Ratio { num: 1, den: 1 }),
    {
        Factor { num: 1, den: 1 }
    }

    /// Black: the fraction `0 / 1`.
    pub fn zero() -> (factor: Factor)
        ensures
            factor@ == (Ratio { num: 0, den: 1 }),
    {
        Factor { num: 0, den: 1 }
    }

    /// The numerator of the fraction.
    pub fn numerator(&self) -> (num: u64)
        ensures
            num == self@.num,
    {
        self.num
    }

    /// The denominator of the fraction.
    pub fn denominator(&self) -> (den: u64)
        ensures
            den == self@.den,
            0 <= self@.num <= den,
            0 < den,
    {
        proof {
            use_type_invariant(self);
        }
        self.den
    }

    /// Multiplies a colour sample by this factor and drops the fractional part.
    pub fn scale(&self, sample: u8) -> (out: u8)
        ensures
            out == scaled(sample, self@),
            out <= sample,
    {
        proof {
            use_type_invariant(self);
            lemma_scaled_bounds(sample, self@);
            assert(sample as int * self.num as int <= 0xff * 0xffff_ffff_ffff_ffff) by (nonlinear_arith)
                requires
                    0 <= sample as int <= 0xff,
                    0 <= self.num as int <= 0xffff_ffff_ffff_ffff,
            ;
        }
        let product: u128 = (sample as u128) * (self.num as u128);
        let quotient: u128 = product / (self.den as u128);
        quotient as u8
    }
}

impl PartialEq for Factor {
    /// Two factors are equal when they denote the same number, as `1 / 2` and
    /// `2 / 4` do.
    fn eq(&self, other: &Factor) -> (equal: bool) {
        proof {
            assert(self.num as int * other.den as int <= 0xffff_ffff_ffff_ffff * 0xffff_ffff_ffff_ffff)
                by (nonlinear_arith)
                requires
                    0 <= self.num as int <= 0xffff_ffff_ffff_ffff,
                    0 <= other.den as int <= 0xffff_ffff_ffff_ffff,
            ;
            assert(other.num as int * self.den as int <= 0xffff_ffff_ffff_ffff * 0xffff_ffff_ffff_ffff)
                by (nonlinear_arith)
                requires
                    0 <= other.num as int <= 0xffff_ffff_ffff_ffff,
                    0 <= self.den as int <= 0xffff_ffff_ffff_ffff,
            ;
        }
        (self.num as u128) * (other.den as u128) == (other.num as u128) * (self.den as u128)
    }
}

impl vstd::std_specs::cmp::PartialEqSpecImpl for Factor {
    open spec fn obeys_eq_spec() -> bool {
        true
    }

    open spec fn eq_spec(&self, other: &Factor) -> bool {
        self@.same_value(other@)
    }
}

/// Scaling by a fraction between zero and one never brightens a sample.
pub proof fn lemma_scaled_bounds(sample: u8, f: Ratio)
    requires
        f.in_unit_interval(),
    ensures
        0 <= scaled(sample, f) <= sample,
{
    let s: int = sample as int;
    assert(0 <= s * f.num <= s * f.den) by (nonlinear_arith)
        requires
            0 <= s,
            0 <= f.num <= f.den,
    ;
    assert(0 <= (s * f.num) / f.den <= s) by (nonlinear_arith)
        requires
            0 <= s * f.num <= s * f.den,
            0 < f.den,
    ;
}

} // verus!
