//! The mathematical model of an amount: a fraction of two integers, with the
//! arithmetic of rational numbers and a normal form in lowest terms.

use vstd::prelude::*;
use vstd::arithmetic::div_mod::{
    lemma_div_multiples_vanish, lemma_fundamental_div_mod, lemma_mod_multiples_basic,
    lemma_mod_self_0, lemma_small_mod, lemma_truncate_middle,
};
use vstd::arithmetic::mul::{
    lemma_mul_basics, lemma_mul_cancels_negatives, lemma_mul_equality_converse,
    lemma_mul_is_commutative, lemma_mul_is_distributive_add_other_way,
    lemma_mul_strictly_positive,
};

verus! {

/// The greatest common divisor of two naturals, by Euclid's rule.
/// `gcd(0, 0)` is `0`.
pub open spec fn gcd(a: nat, b: nat) -> nat
    decreases b,
{
    if b == 0 {
        a
    } else {
        gcd(b, a % b)
    }
}

/// The absolute value of an integer.
pub open spec fn magnitude(n: int) -> nat {
    if n < 0 {
        (-n) as nat
    } else {
        n as nat
    }
}

/// A fraction `num / den`. It denotes a rational number when `den > 0`.
pub struct Fraction {
    pub num: int,
    pub den: int,
}

impl Fraction {
    pub open spec fn zero() -> Fraction {
        Fraction { num: 0, den: 1 }
    }

    pub open spec fn one() -> Fraction {
        Fraction { num: 1, den: 1 }
    }

    pub open spec fn from_int(n: int) -> Fraction {
        Fraction { num: n, den: 1 }
    }

    /// The denominator is positive, so the fraction denotes a number.
    pub open spec fn proper(self) -> bool {
        self.den > 0
    }

    /// Both fractions denote the same rational number.
    pub open spec fn same(self, other: Fraction) -> bool {
        self.num * other.den == other.num * self.den
    }

    pub open spec fn is_zero(self) -> bool {
        self.num == 0
    }

    /// The number denoted is greater than zero (for a proper fraction).
    pub open spec fn is_positive(self) -> bool {
        self.num > 0
    }

    pub open spec fn plus(self, other: Fraction) -> Fraction {
        Fraction {
            num: self.num * other.den + other.num * self.den,
            den: self.den * other.den,
        }
    }

    pub open spec fn negated(self) -> Fraction {
        Fraction { num: -self.num, den: self.den }
    }

    pub open spec fn minus(self, other: Fraction) -> Fraction {
        self.plus(other.negated())
    }

    pub open spec fn times(self, other: Fraction) -> Fraction {
        Fraction { num: self.num * other.num, den: self.den * other.den }
    }

    /// One over the number, with the sign carried by the numerator. The
    /// reciprocal of zero is given the value zero.
    pub open spec fn reciprocal(self) -> Fraction {
        if self.num > 0 {
            Fraction { num: self.den, den: self.num }
        } else if self.num < 0 {
            Fraction { num: -self.den, den: -self.num }
        } else {
            Fraction::zero()
        }
    }

    /// The quotient `self / other`. Division by zero is given the value
    /// zero; no valuation divides by zero.
    pub open spec fn over(self, other: Fraction) -> Fraction {
        self.times(other.reciprocal())
    }

    /// The same number in lowest terms.
    pub open spec fn reduced(self) -> Fraction {
        let g = gcd(magnitude(self.num), magnitude(self.den)) as int;
        Fraction { num: self.num / g, den: self.den / g }
    }

    /// Proper and in lowest terms.
    pub open spec fn is_reduced(self) -> bool {
        self.den > 0 && gcd(magnitude(self.num), magnitude(self.den)) == 1
    }

    /// Numerator and denominator fit the machine representation.
    pub open spec fn fits(self) -> bool {
        i64::MIN <= self.num <= i64::MAX && 0 < self.den <= i64::MAX
    }

    /// The number can be held exactly: its lowest terms fit.
    pub open spec fn representable(self) -> bool {
        self.reduced().fits()
    }
}

/// The greatest common divisor of two numbers that are not both zero is
/// positive.
pub proof fn lemma_gcd_positive(a: nat, b: nat)
    requires
        a > 0 || b > 0,
    ensures
        gcd(a, b) > 0,
    decreases b,
{
    if b != 0 {
        lemma_gcd_positive(b, a % b);
    }
}

/// The greatest common divisor divides both arguments.
pub proof fn lemma_gcd_divides(a: nat, b: nat)
    requires
        a > 0 || b > 0,
    ensures
        gcd(a, b) > 0,
        a % gcd(a, b) == 0,
        b % gcd(a, b) == 0,
    decreases b,
{
    lemma_gcd_positive(a, b);
    if b == 0 {
        lemma_mod_self_0(a as int);
        lemma_small_mod(0, a);
    } else {
        let g = gcd(a, b) as int;
        let r = (a % b) as int;
        lemma_gcd_divides(b, a % b);
        lemma_fundamental_div_mod(a as int, b as int);
        lemma_fundamental_div_mod(b as int, g);
        lemma_fundamental_div_mod(r, g);
        let x = (b as int) / g;
        let y = r / g;
        let q = (a as int) / (b as int);
        assert(a as int == (x * q + y) * g) by (nonlinear_arith)
            requires
                a as int == (b as int) * q + r,
                b as int == g * x,
                r == g * y,
        ;
        lemma_mod_multiples_basic(x * q + y, g);
    }
}

/// Scaling both arguments scales the greatest common divisor.
pub proof fn lemma_gcd_scale(k: nat, a: nat, b: nat)
    requires
        k > 0,
    ensures
        gcd(k * a, k * b) == k * gcd(a, b),
    decreases b,
{
    if b == 0 {
        assert(k * b == 0) by (nonlinear_arith)
            requires
                b == 0,
        ;
    } else {
        lemma_truncate_middle(a as int, k as int, b as int);
        assert(k * b > 0) by (nonlinear_arith)
            requires
                k > 0,
                b > 0,
        ;
        assert((k * a) % (k * b) == k * (a % b));
        lemma_gcd_scale(k, b, a % b);
    }
}

/// What lowest terms are: the numerator and denominator divided by their
/// greatest common divisor, which leaves the number unchanged and the two
/// coprime.
pub proof fn lemma_reduced(q: Fraction)
    requires
        q.proper(),
    ensures
        gcd(magnitude(q.num), magnitude(q.den)) > 0,
        q.num == gcd(magnitude(q.num), magnitude(q.den)) * q.reduced().num,
        q.den == gcd(magnitude(q.num), magnitude(q.den)) * q.reduced().den,
        q.reduced().is_reduced(),
        q.reduced().same(q),
{
    let a = magnitude(q.num);
    let d = magnitude(q.den);
    let g = gcd(a, d) as int;
    let r = q.reduced();
    lemma_gcd_divides(a, d);
    lemma_fundamental_div_mod(a as int, g);
    lemma_fundamental_div_mod(d as int, g);
    let x = (a as int) / g;
    let y = (d as int) / g;
    assert(y > 0 && x >= 0) by (nonlinear_arith)
        requires
            d as int == g * y,
            a as int == g * x,
            d > 0,
            g > 0,
    ;
    if q.num < 0 {
        assert(q.num == g * (-x)) by (nonlinear_arith)
            requires
                -q.num == g * x,
        ;
        lemma_div_multiples_vanish(-x, g);
    }
    assert(magnitude(r.num) == x);
    assert(magnitude(r.den) == y);
    lemma_gcd_scale(g as nat, x as nat, y as nat);
    lemma_mul_equality_converse(g, gcd(x as nat, y as nat) as int, 1);
    assert(r.num * q.den == q.num * r.den) by (nonlinear_arith)
        requires
            q.num == g * r.num,
            q.den == g * r.den,
    ;
}

/// Lowest terms are no larger than the fraction they come from, so a
/// fraction that fits can be held.
pub proof fn lemma_fits_representable(q: Fraction)
    requires
        q.proper(),
        q.fits(),
    ensures
        q.representable(),
{
    lemma_reduced(q);
    let g = gcd(magnitude(q.num), magnitude(q.den)) as int;
    let r = q.reduced();
    let rn = r.num;
    let rd = r.den;
    let qn = q.num;
    let qd = q.den;
    assert(rd <= qd && (qn >= 0 ==> 0 <= rn <= qn) && (qn <= 0 ==> qn <= rn <= 0))
        by (nonlinear_arith)
        requires
            qn == g * rn,
            qd == g * rd,
            g > 0,
            rd > 0,
    ;
}

/// A fraction in lowest terms is its own normal form.
pub proof fn lemma_reduced_fixed(q: Fraction)
    requires
        q.is_reduced(),
    ensures
        q.reduced() == q,
{
}

/// Lowest terms are unique: fractions that denote the same number have the
/// same normal form.
pub proof fn lemma_same_reduced(a: Fraction, b: Fraction)
    requires
        a.proper(),
        b.proper(),
        a.same(b),
    ensures
        a.reduced() == b.reduced(),
{
    let ra = a.reduced();
    let rb = b.reduced();
    let ga = gcd(magnitude(a.num), magnitude(a.den)) as int;
    let gb = gcd(magnitude(b.num), magnitude(b.den)) as int;
    lemma_reduced(a);
    lemma_reduced(b);
    let x = ra.num;
    let y = ra.den;
    let u = rb.num;
    let v = rb.den;
    assert(x * v == u * y) by (nonlinear_arith)
        requires
            a.num * b.den == b.num * a.den,
            a.num == ga * x,
            a.den == ga * y,
            b.num == gb * u,
            b.den == gb * v,
            ga > 0,
            gb > 0,
    ;
    let mx = magnitude(x);
    let mu = magnitude(u);
    assert(mx * v == mu * y) by (nonlinear_arith)
        requires
            x * v == u * y,
            v > 0,
            y > 0,
            mx == magnitude(x),
            mu == magnitude(u),
    ;
    lemma_gcd_scale(v as nat, mx, y as nat);
    lemma_gcd_scale(y as nat, mu, v as nat);
    assert(v * mx == y * mu) by (nonlinear_arith)
        requires
            mx * v == mu * y,
    ;
    assert(v * y == y * v) by (nonlinear_arith);
    assert(gcd((v * mx) as nat, (v * y) as nat) == v * 1) by (nonlinear_arith)
        requires
            gcd((v * mx) as nat, (v * y) as nat) == v * gcd(mx, y as nat),
            gcd(mx, y as nat) == 1,
    ;
    assert(gcd((y * mu) as nat, (y * v) as nat) == y * 1) by (nonlinear_arith)
        requires
            gcd((y * mu) as nat, (y * v) as nat) == y * gcd(mu, v as nat),
            gcd(mu, v as nat) == 1,
    ;
    assert(v == y);
    assert(y * x == y * u) by (nonlinear_arith)
        requires
            x * v == u * y,
            v == y,
    ;
    lemma_mul_equality_converse(y, x, u);
}

/// Denoting the same number is transitive.
pub proof fn lemma_same_transitive(a: Fraction, b: Fraction, c: Fraction)
    requires
        b.proper(),
        a.same(b),
        b.same(c),
    ensures
        a.same(c),
{
    let x = a.num * c.den;
    let y = c.num * a.den;
    lemma_rearrange(a.num, c.den, b.den, 1);
    lemma_rearrange(a.num, b.den, c.den, 1);
    assert(x * b.den == (a.num * b.den) * c.den) by {
        lemma_mul_basics(b.den);
        lemma_mul_basics(c.den);
    }
    lemma_rearrange(b.num, a.den, c.den, 1);
    lemma_rearrange(b.num, c.den, a.den, 1);
    assert((b.num * a.den) * c.den == (b.num * c.den) * a.den) by {
        lemma_mul_basics(a.den);
        lemma_mul_basics(c.den);
    }
    lemma_rearrange(c.num, b.den, a.den, 1);
    lemma_rearrange(c.num, a.den, b.den, 1);
    assert((c.num * b.den) * a.den == y * b.den) by {
        lemma_mul_basics(a.den);
        lemma_mul_basics(b.den);
    }
    lemma_mul_is_commutative(x, b.den);
    lemma_mul_is_commutative(y, b.den);
    lemma_mul_equality_converse(b.den, x, y);
}

/// The sum of proper fractions is proper and depends only on the numbers
/// that the two denote.
pub proof fn lemma_plus_same(a: Fraction, a2: Fraction, b: Fraction, b2: Fraction)
    requires
        a.proper(),
        a2.proper(),
        b.proper(),
        b2.proper(),
        a.same(a2),
        b.same(b2),
    ensures
        a.plus(b).proper(),
        a2.plus(b2).proper(),
        a.plus(b).same(a2.plus(b2)),
{
    lemma_mul_strictly_positive(a.den, b.den);
    lemma_mul_strictly_positive(a2.den, b2.den);
    let d = a2.den * b2.den;
    let d2 = a.den * b.den;
    // left side
    lemma_mul_is_distributive_add_other_way(d, a.num * b.den, b.num * a.den);
    lemma_rearrange(a.num, b.den, a2.den, b2.den);
    lemma_rearrange(b.num, a.den, a2.den, b2.den);
    // right side
    lemma_mul_is_distributive_add_other_way(d2, a2.num * b2.den, b2.num * a2.den);
    lemma_rearrange(a2.num, b2.den, a.den, b.den);
    lemma_rearrange(b2.num, a2.den, a.den, b.den);
    lemma_mul_is_commutative(b.den, b2.den);
    lemma_mul_is_commutative(a.den, a2.den);
}

/// The product of proper fractions is proper and depends only on the
/// numbers that the two denote.
pub proof fn lemma_times_same(a: Fraction, a2: Fraction, b: Fraction, b2: Fraction)
    requires
        a.proper(),
        a2.proper(),
        b.proper(),
        b2.proper(),
        a.same(a2),
        b.same(b2),
    ensures
        a.times(b).proper(),
        a2.times(b2).proper(),
        a.times(b).same(a2.times(b2)),
{
    lemma_mul_strictly_positive(a.den, b.den);
    lemma_mul_strictly_positive(a2.den, b2.den);
    lemma_rearrange(a.num, b.num, a2.den, b2.den);
    lemma_rearrange(a2.num, b2.num, a.den, b.den);
}

/// Proper fractions that denote the same number have numerators of the same
/// sign.
pub proof fn lemma_same_sign(b: Fraction, b2: Fraction)
    requires
        b.proper(),
        b2.proper(),
        b.same(b2),
    ensures
        b.num == 0 <==> b2.num == 0,
        b.num > 0 <==> b2.num > 0,
{
    let bn = b.num;
    let bd = b.den;
    let cn = b2.num;
    let cd = b2.den;
    assert((bn == 0 <==> cn == 0) && (bn > 0 <==> cn > 0)) by (nonlinear_arith)
        requires
            bn * cd == cn * bd,
            bd > 0,
            cd > 0,
    ;
}

/// The reciprocal of a proper fraction is proper and depends only on the
/// number denoted.
pub proof fn lemma_reciprocal_same(b: Fraction, b2: Fraction)
    requires
        b.proper(),
        b2.proper(),
        b.same(b2),
    ensures
        b.reciprocal().proper(),
        b2.reciprocal().proper(),
        b.reciprocal().same(b2.reciprocal()),
{
    lemma_same_sign(b, b2);
    lemma_mul_is_commutative(b.den, b2.num);
    lemma_mul_is_commutative(b2.den, b.num);
    lemma_mul_cancels_negatives(b.den, b2.num);
    lemma_mul_cancels_negatives(b2.den, b.num);
}

/// The quotient of proper fractions is proper and depends only on the
/// numbers that the two denote.
pub proof fn lemma_over_same(a: Fraction, a2: Fraction, b: Fraction, b2: Fraction)
    requires
        a.proper(),
        a2.proper(),
        b.proper(),
        b2.proper(),
        a.same(a2),
        b.same(b2),
    ensures
        a.over(b).proper(),
        a2.over(b2).proper(),
        a.over(b).same(a2.over(b2)),
{
    lemma_reciprocal_same(b, b2);
    lemma_times_same(a, a2, b.reciprocal(), b2.reciprocal());
}

/// Reducing the operands first does not change the reduced sum.
pub proof fn lemma_plus_reduced(a: Fraction, b: Fraction)
    requires
        a.proper(),
        b.proper(),
    ensures
        a.plus(b).proper(),
        a.reduced().plus(b.reduced()).proper(),
        a.reduced().plus(b.reduced()).reduced() == a.plus(b).reduced(),
{
    lemma_reduced(a);
    lemma_reduced(b);
    lemma_plus_same(a.reduced(), a, b.reduced(), b);
    lemma_same_reduced(a.reduced().plus(b.reduced()), a.plus(b));
}

/// Reducing the operands first does not change the reduced product.
pub proof fn lemma_times_reduced(a: Fraction, b: Fraction)
    requires
        a.proper(),
        b.proper(),
    ensures
        a.times(b).proper(),
        a.reduced().times(b.reduced()).proper(),
        a.reduced().times(b.reduced()).reduced() == a.times(b).reduced(),
{
    lemma_reduced(a);
    lemma_reduced(b);
    lemma_times_same(a.reduced(), a, b.reduced(), b);
    lemma_same_reduced(a.reduced().times(b.reduced()), a.times(b));
}

/// Reducing the operands first does not change the reduced quotient.
pub proof fn lemma_over_reduced(a: Fraction, b: Fraction)
    requires
        a.proper(),
        b.proper(),
    ensures
        a.over(b).proper(),
        a.reduced().over(b.reduced()).proper(),
        a.reduced().over(b.reduced()).reduced() == a.over(b).reduced(),
        b.reduced().is_zero() <==> b.is_zero(),
        b.reduced().is_positive() <==> b.is_positive(),
{
    lemma_reduced(a);
    lemma_reduced(b);
    lemma_over_same(a.reduced(), a, b.reduced(), b);
    lemma_same_reduced(a.reduced().over(b.reduced()), a.over(b));
    lemma_same_sign(b.reduced(), b);
}

/// The product with a fraction in lowest terms, one step of a valuation:
/// reducing the other operand first changes nothing.
pub proof fn lemma_times_step(q: Fraction, x: Fraction)
    requires
        q.is_reduced(),
        x.proper(),
    ensures
        q.times(x).proper(),
        q.times(x.reduced()).reduced() == q.times(x).reduced(),
        x.reduced().times(q).reduced() == x.times(q).reduced(),
        x.times(q).proper(),
{
    lemma_reduced_fixed(q);
    lemma_times_reduced(q, x);
    lemma_times_reduced(x, q);
}

/// The quotient by a fraction in lowest terms, one step of a valuation:
/// reducing the dividend first changes nothing.
pub proof fn lemma_over_step(x: Fraction, q: Fraction)
    requires
        q.is_reduced(),
        x.proper(),
    ensures
        x.over(q).proper(),
        x.reduced().over(q).reduced() == x.over(q).reduced(),
{
    lemma_reduced_fixed(q);
    lemma_over_reduced(x, q);
}

/// Terms of a sum may change places: `(a + b) + c` and `(a + c) + b`
/// denote the same number.
pub proof fn lemma_plus_swap(a: Fraction, b: Fraction, c: Fraction)
    ensures
        a.plus(b).plus(c).same(a.plus(c).plus(b)),
{
    let an = a.num;
    let ad = a.den;
    let bn = b.num;
    let bd = b.den;
    let cn = c.num;
    let cd = c.den;
    lemma_mul_is_distributive_add_other_way(cd, an * bd, bn * ad);
    lemma_mul_is_distributive_add_other_way(bd, an * cd, cn * ad);
    lemma_three_factors(an, bd, cd);
    lemma_three_factors(bn, ad, cd);
    lemma_three_factors(cn, ad, bd);
    lemma_three_factors(ad, bd, cd);
}

/// A sum may be grouped either way: `a + (b + c)` and `(a + b) + c` denote
/// the same number.
pub proof fn lemma_plus_regroup(a: Fraction, b: Fraction, c: Fraction)
    ensures
        a.plus(b.plus(c)).same(a.plus(b).plus(c)),
{
    let an = a.num;
    let ad = a.den;
    let bn = b.num;
    let bd = b.den;
    let cn = c.num;
    let cd = c.den;
    assert(an * (bd * cd) + (bn * cd + cn * bd) * ad == (an * bd + bn * ad) * cd + cn * (ad * bd))
        by (nonlinear_arith);
    assert(ad * (bd * cd) == (ad * bd) * cd) by (nonlinear_arith);
}

/// Taking away and adding back changes nothing: `a` denotes the same
/// number as `b + (a - b)`.
pub proof fn lemma_plus_minus(a: Fraction, b: Fraction)
    ensures
        a.same(b.plus(a.minus(b))),
{
    let an = a.num;
    let ad = a.den;
    let bn = b.num;
    let bd = b.den;
    assert(an * (bd * (ad * bd)) == (bn * (ad * bd) + (an * bd + (-bn) * ad) * bd) * ad)
        by (nonlinear_arith);
}

/// A product distributes over a sum: `(a + b) * x` denotes the same number
/// as `a * x + b * x`.
pub proof fn lemma_times_distributes(a: Fraction, b: Fraction, x: Fraction)
    ensures
        a.plus(b).times(x).same(a.times(x).plus(b.times(x))),
{
    let an = a.num;
    let ad = a.den;
    let bn = b.num;
    let bd = b.den;
    let xn = x.num;
    let xd = x.den;
    let s = an * bd + bn * ad;
    let m = ad * bd;
    lemma_rearrange(an, xn, bd, xd);
    lemma_rearrange(bn, xn, ad, xd);
    lemma_rearrange(ad, xd, bd, xd);
    lemma_mul_is_distributive_add_other_way(xn * xd, an * bd, bn * ad);
    assert((an * xn) * (bd * xd) + (bn * xn) * (ad * xd) == s * (xn * xd));
    assert((ad * xd) * (bd * xd) == m * (xd * xd));
    assert((s * xn) * (m * (xd * xd)) == (s * (xn * xd)) * (m * xd)) by (nonlinear_arith);
}

/// Products of three factors, regrouped.
proof fn lemma_three_factors(x: int, y: int, z: int)
    ensures
        (x * y) * z == (x * z) * y,
        (x * y) * z == x * (y * z),
        x * (y * z) == (x * z) * y,
{
    assert((x * y) * z == (x * z) * y) by (nonlinear_arith);
    assert((x * y) * z == x * (y * z)) by (nonlinear_arith);
}

/// Products of four factors, regrouped.
proof fn lemma_rearrange(w: int, x: int, y: int, z: int)
    ensures
        (w * x) * (y * z) == (w * y) * (x * z),
        (w * x) * (y * z) == (w * z) * (x * y),
        (w * x) * (y * z) == (y * z) * (w * x),
{
    assert((w * x) * (y * z) == (w * y) * (x * z)) by (nonlinear_arith);
    assert((w * x) * (y * z) == (w * z) * (x * y)) by (nonlinear_arith);
    assert((w * x) * (y * z) == (y * z) * (w * x)) by (nonlinear_arith);
}

} // verus!
