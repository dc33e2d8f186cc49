//! Exact rational numbers over machine integers.
//!
//! An executable [`Rat`] holds a numerator and a positive denominator, both
//! `i64`. Its mathematical value is the ghost fraction [`Frac`], a pair of
//! unbounded integers; two fractions denote the same rational exactly when
//! they cross-multiply equally ([`frac_eq`]). All arithmetic in this crate is
//! specified through the fraction algebra below and carried out in `i128`,
//! so results are exact wherever the machine range admits them.

use vstd::prelude::*;

verus! {

/// A rational value at the specification level: `num / den`.
///
/// The fields are unbounded integers, so ghost arithmetic on fractions never
/// overflows; only the executable [`Rat`] is confined to the machine range.
pub struct Frac {
    pub num: int,
    pub den: int,
}

/// `a` and `b` denote the same rational value (cross multiplication).
pub open spec fn frac_eq(a: Frac, b: Frac) -> bool {
    a.num * b.den == b.num * a.den
}

/// The sum `a + b` as one fraction over the common denominator.
pub open spec fn frac_add(a: Frac, b: Frac) -> Frac {
    Frac { num: a.num * b.den + b.num * a.den, den: a.den * b.den }
}

/// The difference `a - b` as one fraction over the common denominator.
pub open spec fn frac_sub(a: Frac, b: Frac) -> Frac {
    Frac { num: a.num * b.den - b.num * a.den, den: a.den * b.den }
}

/// The product `a * b`.
pub open spec fn frac_mul(a: Frac, b: Frac) -> Frac {
    Frac { num: a.num * b.num, den: a.den * b.den }
}

/// The quotient `a / b`, defined as a fraction whenever `b.num != 0`.
pub open spec fn frac_div(a: Frac, b: Frac) -> Frac {
    Frac { num: a.num * b.den, den: a.den * b.num }
}

/// The same value with the sign moved into the numerator.
pub open spec fn frac_norm(f: Frac) -> Frac {
    if f.den < 0 {
        Frac { num: -f.num, den: -f.den }
    } else {
        f
    }
}

/// `v` can be carried by an `i64` coefficient; the bound is symmetric so a
/// coefficient can always be negated in place.
pub open spec fn fits_i64(v: int) -> bool {
    -(i64::MAX as int) <= v <= i64::MAX as int
}

/// `v` survives as an `i128` intermediate.
pub open spec fn fits_i128(v: int) -> bool {
    i128::MIN as int <= v <= i128::MAX as int
}

/// An exact rational number: `num / den` with `den > 0`.
#[derive(Clone, Copy, Debug)]
pub struct Rat {
    pub num: i64,
    pub den: i64,
}

impl View for Rat {
    type V = Frac;

    open spec fn view(&self) -> Frac {
        Frac { num: self.num as int, den: self.den as int }
    }
}

impl Rat {
    /// The denominator is positive, so the sign of the value is the sign of
    /// the numerator and the view's denominator never vanishes.
    pub open spec fn wf(self) -> bool {
        self.den > 0
    }

    /// Builds `num / den`, moving a negative sign into the numerator.
    pub fn new(num: i64, den: i64) -> (r: Rat)
        requires
            den != 0,
            den < 0 ==> num != i64::MIN && den != i64::MIN,
        ensures
            r.wf(),
            r@ == frac_norm(Frac { num: num as int, den: den as int }),
            frac_eq(r@, Frac { num: num as int, den: den as int }),
    {
        proof {
            lemma_norm_same_value(Frac { num: num as int, den: den as int });
        }
        if den < 0 {
            Rat { num: -num, den: -den }
        } else {
            Rat { num, den }
        }
    }

    /// The integer `n` as a rational.
    pub fn from_int(n: i64) -> (r: Rat)
        ensures
            r.wf(),
            r@ == (Frac { num: n as int, den: 1 }),
    {
        Rat { num: n, den: 1 }
    }

    /// True exactly when `self` and `other` denote the same rational value.
    pub fn eqv(&self, other: &Rat) -> (r: bool)
        ensures
            r == frac_eq(self@, other@),
    {
        proof {
            lemma_i64_mul_in_i128(self.num as int, other.den as int);
            lemma_i64_mul_in_i128(other.num as int, self.den as int);
        }
        (self.num as i128) * (other.den as i128) == (other.num as i128) * (self.den as i128)
    }
}

/// The product of two `i64`-range integers stays well inside the `i128` range.
pub proof fn lemma_i64_mul_in_i128(a: int, b: int)
    by (nonlinear_arith)
    requires
        i64::MIN <= a <= i64::MAX,
        i64::MIN <= b <= i64::MAX,
    ensures
        -0x4000_0000_0000_0000_0000_0000_0000_0000 <= a * b
            <= 0x4000_0000_0000_0000_0000_0000_0000_0000,
{
}

/// The product of an `i64`-range integer with a positive `i64` denominator is
/// small enough that a difference of two such products still fits an `i128`.
pub proof fn lemma_num_den_mul_bound(a: int, b: int)
    by (nonlinear_arith)
    requires
        i64::MIN <= a <= i64::MAX,
        0 < b <= i64::MAX,
    ensures
        -0x3fff_ffff_ffff_ffff_8000_0000_0000_0000 <= a * b
            <= 0x3fff_ffff_ffff_ffff_8000_0000_0000_0000,
{
}

/// A product of positive integers is positive.
pub proof fn lemma_mul_pos(a: int, b: int)
    by (nonlinear_arith)
    requires
        0 < a,
        0 < b,
    ensures
        0 < a * b,
{
}

/// A product of nonzero integers is nonzero.
pub proof fn lemma_mul_nonzero(a: int, b: int)
    by (nonlinear_arith)
    requires
        a != 0,
        b != 0,
    ensures
        a * b != 0,
{
}

/// Denoting the same value is transitive across a fraction whose denominator
/// does not vanish.
pub proof fn lemma_frac_eq_trans(a: Frac, b: Frac, c: Frac)
    requires
        frac_eq(a, b),
        frac_eq(b, c),
        b.den != 0,
    ensures
        frac_eq(a, c),
{
    assert(a.num * c.den == c.num * a.den) by (nonlinear_arith)
        requires
            a.num * b.den == b.num * a.den,
            b.num * c.den == c.num * b.den,
            b.den != 0,
    ;
}

/// Replacing the first summand by an equal-valued fraction keeps the value
/// of the sum.
pub proof fn lemma_frac_add_cong_left(a: Frac, b: Frac, c: Frac)
    requires
        frac_eq(a, b),
    ensures
        frac_eq(frac_add(a, c), frac_add(b, c)),
{
    let l = frac_add(a, c);
    let r = frac_add(b, c);
    assert((a.num * c.den) * r.den == (b.num * c.den) * l.den) by (nonlinear_arith)
        requires
            a.num * b.den == b.num * a.den,
            l.den == a.den * c.den,
            r.den == b.den * c.den,
    ;
    assert((c.num * a.den) * r.den == (c.num * b.den) * l.den) by (nonlinear_arith)
        requires
            l.den == a.den * c.den,
            r.den == b.den * c.den,
    ;
    assert((a.num * c.den + c.num * a.den) * r.den == (a.num * c.den) * r.den + (c.num * a.den)
        * r.den) by (nonlinear_arith);
    assert((b.num * c.den + c.num * b.den) * l.den == (b.num * c.den) * l.den + (c.num * b.den)
        * l.den) by (nonlinear_arith);
}

/// Adding a difference is the same as subtracting first and adding after:
/// `a + (c - b)` and `(a - b) + c` denote the same value.
pub proof fn lemma_frac_shift(a: Frac, b: Frac, c: Frac)
    ensures
        frac_eq(frac_add(a, frac_sub(c, b)), frac_add(frac_sub(a, b), c)),
{
    let l = frac_add(a, frac_sub(c, b));
    let r = frac_add(frac_sub(a, b), c);
    assert(a.num * (c.den * b.den) + (c.num * b.den - b.num * c.den) * a.den == (a.num * b.den
        - b.num * a.den) * c.den + c.num * (a.den * b.den)) by (nonlinear_arith);
    assert(a.den * (c.den * b.den) == (a.den * b.den) * c.den) by (nonlinear_arith);
    assert(l.num == r.num && l.den == r.den);
}

/// Multiplication distributes over the difference: `x2*m - x1*m` denotes the
/// same value as `(x2 - x1)*m`.
pub proof fn lemma_frac_mul_sub_distrib(x1: Frac, x2: Frac, m: Frac)
    ensures
        frac_eq(frac_sub(frac_mul(x2, m), frac_mul(x1, m)), frac_mul(frac_sub(x2, x1), m)),
{
    let l = frac_sub(frac_mul(x2, m), frac_mul(x1, m));
    let r = frac_mul(frac_sub(x2, x1), m);
    let p: int = x2.num * x1.den;
    let w: int = x1.num * x2.den;
    assert((x2.num * m.num) * (x1.den * m.den) == ((x2.num * x1.den) * m.num) * m.den)
        by (nonlinear_arith);
    assert((x1.num * m.num) * (x2.den * m.den) == ((x1.num * x2.den) * m.num) * m.den)
        by (nonlinear_arith);
    assert((p * m.num) * m.den - (w * m.num) * m.den == ((p - w) * m.num) * m.den)
        by (nonlinear_arith);
    assert(l.num == r.num * m.den);
    assert(l.den == r.den * m.den) by (nonlinear_arith)
        requires
            l.den == (x2.den * m.den) * (x1.den * m.den),
            r.den == (x2.den * x1.den) * m.den,
    ;
    assert((r.num * m.den) * r.den == r.num * (r.den * m.den)) by (nonlinear_arith);
}

/// Multiplying a quotient back by its divisor recovers the dividend:
/// `b * (a / b)` denotes the same value as `a`.
pub proof fn lemma_frac_mul_div_cancel(a: Frac, b: Frac)
    ensures
        frac_eq(frac_mul(b, frac_div(a, b)), a),
{
    let l = frac_mul(b, frac_div(a, b));
    assert(l.num * a.den == a.num * l.den) by (nonlinear_arith)
        requires
            l.num == b.num * (a.num * b.den),
            l.den == b.den * (a.den * b.num),
    ;
}

/// Adding back what was subtracted recovers the value: `(c - b) + b` denotes
/// the same value as `c`.
pub proof fn lemma_frac_sub_add_cancel(c: Frac, b: Frac)
    ensures
        frac_eq(frac_add(frac_sub(c, b), b), c),
{
    let l = frac_add(frac_sub(c, b), b);
    assert(l.num * c.den == c.num * l.den) by (nonlinear_arith)
        requires
            l.num == (c.num * b.den - b.num * c.den) * b.den + b.num * (c.den * b.den),
            l.den == (c.den * b.den) * b.den,
    ;
}

/// Moving the sign of the denominator into the numerator keeps the value.
pub proof fn lemma_norm_same_value(f: Frac)
    ensures
        frac_eq(frac_norm(f), f),
        f.den != 0 ==> frac_norm(f).den > 0,
{
    assert(frac_eq(frac_norm(f), f)) by (nonlinear_arith);
}

} // verus!
