//! Amounts as the machine holds them: a fraction of two 64-bit integers,
//! always in lowest terms, with arithmetic that is exact or says that the
//! result does not fit.

use vstd::prelude::*;
use vstd::arithmetic::div_mod::lemma_div_multiples_vanish;
use vstd::arithmetic::mul::lemma_mul_unary_negation;
use crate::fraction::{gcd, lemma_reduced, magnitude, Fraction};

verus! {

/// An exact rational number: a proper fraction in lowest terms.
#[derive(Clone, Copy, Debug, PartialEq, Eq, Structural)]
pub struct Ratio {
    num: i64,
    den: i64,
}

impl View for Ratio {
    type V = Fraction;

    closed spec fn view(&self) -> Fraction {
        Fraction { num: self.num as int, den: self.den as int }
    }
}

/// The fraction that `Ratio::new` is asked for: `num / den` with the sign
/// moved to the numerator.
pub open spec fn signed_fraction(num: int, den: int) -> Fraction {
    if den < 0 {
        Fraction { num: -num, den: -den }
    } else {
        Fraction { num, den }
    }
}

impl Ratio {
    /// The invariant of every `Ratio`: lowest terms, positive denominator,
    /// both parts in range.
    pub open spec fn wf(&self) -> bool {
        self@.is_reduced() && self@.fits()
    }

    /// Two ratios with the same view are the same value.
    pub proof fn lemma_view_injective(a: Ratio, b: Ratio)
        requires
            a@ == b@,
        ensures
            a == b,
    {
    }

    pub fn zero() -> (r: Ratio)
        ensures
            r.wf(),
            r@ == Fraction::zero(),
    {
        proof {
            reveal_with_fuel(gcd, 3);
        }
        Ratio { num: 0, den: 1 }
    }

    pub fn one() -> (r: Ratio)
        ensures
            r.wf(),
            r@ == Fraction::one(),
    {
        proof {
            reveal_with_fuel(gcd, 3);
        }
        Ratio { num: 1, den: 1 }
    }

    pub fn from_int(n: i64) -> (r: Ratio)
        ensures
            r.wf(),
            r@ == Fraction::from_int(n as int),
    {
        proof {
            reveal_with_fuel(gcd, 3);
        }
        Ratio { num: n, den: 1 }
    }

    /// The ratio `num / den` in lowest terms; `None` when `den` is zero or
    /// the lowest terms do not fit.
    pub fn new(num: i64, den: i64) -> (r: Option<Ratio>)
        ensures
            match r {
                Some(v) => den != 0 && v.wf() && v@ == signed_fraction(
                    num as int,
                    den as int,
                ).reduced(),
                None => den == 0 || !signed_fraction(num as int, den as int).representable(),
            },
    {
        if den == 0 {
            None
        } else if den < 0 {
            from_parts(-(num as i128), -(den as i128))
        } else {
            from_parts(num as i128, den as i128)
        }
    }

    pub fn numer(&self) -> (n: i64)
        ensures
            n == self@.num,
    {
        self.num
    }

    pub fn denom(&self) -> (d: i64)
        ensures
            d == self@.den,
    {
        self.den
    }

    pub fn is_zero(&self) -> (b: bool)
        ensures
            b == self@.is_zero(),
    {
        self.num == 0
    }

    pub fn is_positive(&self) -> (b: bool)
        ensures
            b == self@.is_positive(),
    {
        self.num > 0
    }

    pub fn is_negative(&self) -> (b: bool)
        ensures
            b == (self@.num < 0),
    {
        self.num < 0
    }

    /// The exact sum, or `None` when it does not fit.
    pub fn checked_add(&self, other: &Ratio) -> (r: Option<Ratio>)
        requires
            self.wf(),
            other.wf(),
        ensures
            match r {
                Some(v) => v.wf() && v@ == self@.plus(other@).reduced(),
                None => !self@.plus(other@).representable(),
            },
    {
        let sn: i128 = self.num as i128;
        let sd: i128 = self.den as i128;
        let on: i128 = other.num as i128;
        let od: i128 = other.den as i128;
        proof {
            lemma_product_bound(sn as int, od as int);
            lemma_product_bound(on as int, sd as int);
            lemma_product_bound(sd as int, od as int);
        }
        from_parts(sn * od + on * sd, sd * od)
    }

    /// The exact difference, or `None` when it does not fit.
    pub fn checked_sub(&self, other: &Ratio) -> (r: Option<Ratio>)
        requires
            self.wf(),
            other.wf(),
        ensures
            match r {
                Some(v) => v.wf() && v@ == self@.minus(other@).reduced(),
                None => !self@.minus(other@).representable(),
            },
    {
        let sn: i128 = self.num as i128;
        let sd: i128 = self.den as i128;
        let on: i128 = -(other.num as i128);
        let od: i128 = other.den as i128;
        proof {
            lemma_product_bound(sn as int, od as int);
            lemma_product_bound(on as int, sd as int);
            lemma_product_bound(sd as int, od as int);
        }
        from_parts(sn * od + on * sd, sd * od)
    }

    /// The exact product, or `None` when it does not fit.
    pub fn checked_mul(&self, other: &Ratio) -> (r: Option<Ratio>)
        requires
            self.wf(),
            other.wf(),
        ensures
            match r {
                Some(v) => v.wf() && v@ == self@.times(other@).reduced(),
                None => !self@.times(other@).representable(),
            },
    {
        let sn: i128 = self.num as i128;
        let sd: i128 = self.den as i128;
        let on: i128 = other.num as i128;
        let od: i128 = other.den as i128;
        proof {
            lemma_product_bound(sn as int, on as int);
            lemma_product_bound(sd as int, od as int);
        }
        from_parts(sn * on, sd * od)
    }

    /// The exact quotient; `None` when `other` is zero or the quotient does
    /// not fit.
    pub fn checked_div(&self, other: &Ratio) -> (r: Option<Ratio>)
        requires
            self.wf(),
            other.wf(),
        ensures
            match r {
                Some(v) => !other@.is_zero() && v.wf() && v@ == self@.over(other@).reduced(),
                None => other@.is_zero() || !self@.over(other@).representable(),
            },
    {
        let sn: i128 = self.num as i128;
        let sd: i128 = self.den as i128;
        if other.num == 0 {
            None
        } else if other.num > 0 {
            let on: i128 = other.num as i128;
            let od: i128 = other.den as i128;
            proof {
                lemma_product_bound(sn as int, od as int);
                lemma_product_bound(sd as int, on as int);
            }
            from_parts(sn * od, sd * on)
        } else {
            let on: i128 = -(other.num as i128);
            let od: i128 = -(other.den as i128);
            proof {
                lemma_product_bound(sn as int, od as int);
                lemma_product_bound(sd as int, on as int);
            }
            from_parts(sn * od, sd * on)
        }
    }
}

/// Euclid's algorithm.
fn gcd_of(a: u128, b: u128) -> (g: u128)
    ensures
        g == gcd(a as nat, b as nat),
{
    let mut x: u128 = a;
    let mut y: u128 = b;
    while y != 0
        invariant
            gcd(x as nat, y as nat) == gcd(a as nat, b as nat),
        decreases y,
    {
        let t: u128 = x % y;
        x = y;
        y = t;
    }
    x
}

/// The fraction `n / d` in lowest terms, where it fits.
fn from_parts(n: i128, d: i128) -> (r: Option<Ratio>)
    requires
        d > 0,
        n > i128::MIN,
    ensures
        match r {
            Some(v) => v.wf() && v@ == (Fraction { num: n as int, den: d as int }).reduced(),
            None => !(Fraction { num: n as int, den: d as int }).representable(),
        },
{
    let a: u128 = if n < 0 {
        (-n) as u128
    } else {
        n as u128
    };
    let g: u128 = gcd_of(a, d as u128);
    let ghost q = Fraction { num: n as int, den: d as int };
    proof {
        lemma_reduced(q);
        assert(magnitude(q.num) == a);
        assert(magnitude(q.den) == d);
        if n < 0 {
            lemma_mul_unary_negation(g as int, q.reduced().num);
            lemma_div_multiples_vanish(-q.reduced().num, g as int);
        } else {
            lemma_div_multiples_vanish(q.reduced().num, g as int);
        }
    }
    let a2: u128 = a / g;
    let d2: u128 = (d as u128) / g;
    assert(d2 == q.reduced().den);
    assert(a2 == magnitude(q.reduced().num));
    if d2 > 0x7fff_ffff_ffff_ffff {
        None
    } else if n < 0 {
        if a2 > 0x8000_0000_0000_0000 {
            None
        } else {
            let m: i128 = -(a2 as i128);
            Some(Ratio { num: m as i64, den: d2 as i64 })
        }
    } else {
        if a2 > 0x7fff_ffff_ffff_ffff {
            None
        } else {
            Some(Ratio { num: a2 as i64, den: d2 as i64 })
        }
    }
}

/// The product of two 64-bit magnitudes stays well inside 128 bits.
proof fn lemma_product_bound(x: int, y: int)
    requires
        -0x8000_0000_0000_0000 <= x <= 0x8000_0000_0000_0000,
        -0x8000_0000_0000_0000 <= y <= 0x8000_0000_0000_0000,
    ensures
        -0x4000_0000_0000_0000_0000_0000_0000_0000 <= x * y
            <= 0x4000_0000_0000_0000_0000_0000_0000_0000,
        (x > 0 && y > 0) ==> x * y > 0,
        (0 < y <= 0x7fff_ffff_ffff_ffff) ==> -0x3fff_ffff_ffff_ffff_8000_0000_0000_0000 <= x * y
            <= 0x3fff_ffff_ffff_ffff_8000_0000_0000_0000,
        (0 < x <= 0x7fff_ffff_ffff_ffff) ==> -0x3fff_ffff_ffff_ffff_8000_0000_0000_0000 <= x * y
            <= 0x3fff_ffff_ffff_ffff_8000_0000_0000_0000,
{
    assert(-0x4000_0000_0000_0000_0000_0000_0000_0000 <= x * y
        <= 0x4000_0000_0000_0000_0000_0000_0000_0000) by (nonlinear_arith)
        requires
            -0x8000_0000_0000_0000 <= x <= 0x8000_0000_0000_0000,
            -0x8000_0000_0000_0000 <= y <= 0x8000_0000_0000_0000,
    ;
    assert((x > 0 && y > 0) ==> x * y > 0) by (nonlinear_arith);
    assert((0 < y <= 0x7fff_ffff_ffff_ffff) ==> -0x3fff_ffff_ffff_ffff_8000_0000_0000_0000 <= x * y
        <= 0x3fff_ffff_ffff_ffff_8000_0000_0000_0000) by (nonlinear_arith)
        requires
            -0x8000_0000_0000_0000 <= x <= 0x8000_0000_0000_0000,
    ;
    assert((0 < x <= 0x7fff_ffff_ffff_ffff) ==> -0x3fff_ffff_ffff_ffff_8000_0000_0000_0000 <= x * y
        <= 0x3fff_ffff_ffff_ffff_8000_0000_0000_0000) by (nonlinear_arith)
        requires
            -0x8000_0000_0000_0000 <= y <= 0x8000_0000_0000_0000,
    ;
}

} // verus!
