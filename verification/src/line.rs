//! Non-vertical straight lines in slope/intercept form and the calculators
//! that build and evaluate them.

use vstd::prelude::*;

use crate::rat::fits_i128;
use crate::rat::fits_i64;
use crate::rat::frac_add;
use crate::rat::frac_div;
use crate::rat::frac_eq;
use crate::rat::frac_mul;
use crate::rat::frac_norm;
use crate::rat::frac_sub;
use crate::rat::lemma_frac_add_cong_left;
use crate::rat::lemma_frac_eq_trans;
use crate::rat::lemma_frac_mul_div_cancel;
use crate::rat::lemma_frac_mul_sub_distrib;
use crate::rat::lemma_frac_shift;
use crate::rat::lemma_frac_sub_add_cancel;
use crate::rat::lemma_i64_mul_in_i128;
use crate::rat::lemma_mul_nonzero;
use crate::rat::lemma_num_den_mul_bound;
use crate::rat::lemma_mul_pos;
use crate::rat::lemma_norm_same_value;
use crate::rat::Frac;
use crate::rat::Rat;

verus! {

/// A non-vertical straight line `y = m*x + q`.
///
/// Vertical lines have no slope and are rejected before construction, so a
/// `Line` value always has one; `m` may be zero (a horizontal line) or
/// negative.
#[derive(Clone, Copy, Debug)]
pub struct Line {
    pub m: Rat,
    pub q: Rat,
}

impl Line {
    /// Both coefficients are well-formed rationals.
    pub open spec fn wf(self) -> bool {
        self.m.wf() && self.q.wf()
    }
}

/// The slope `(y2 - y1) / (x2 - x1)` of the line through the two points, as
/// one fraction; its denominator vanishes exactly on vertical input.
pub open spec fn slope_frac(x1: Rat, y1: Rat, x2: Rat, y2: Rat) -> Frac {
    frac_div(frac_sub(y2@, y1@), frac_sub(x2@, x1@))
}

/// The machine range admits the slope computation: both coefficients of the
/// slope fraction fit `i64`.
pub open spec fn slope_fits(x1: Rat, y1: Rat, x2: Rat, y2: Rat) -> bool {
    &&& fits_i64(slope_frac(x1, y1, x2, y2).num)
    &&& fits_i64(slope_frac(x1, y1, x2, y2).den)
}

/// Returns the slope of the line through `(x1, y1)` and `(x2, y2)`, exactly
/// `(y2 - y1) / (x2 - x1)`, or `None` when the two points share an
/// x-coordinate and the line is vertical. Sharing an x-coordinate is exact
/// value equality of the rationals, with no tolerance.
pub fn get_slope(x1: Rat, y1: Rat, x2: Rat, y2: Rat) -> (r: Option<Rat>)
    requires
        x1.wf(),
        y1.wf(),
        x2.wf(),
        y2.wf(),
        !frac_eq(x1@, x2@) ==> slope_fits(x1, y1, x2, y2),
    ensures
        r is Some <==> !frac_eq(x1@, x2@),
        r matches Some(s) ==> s.wf() && s@ == frac_norm(slope_frac(x1, y1, x2, y2)),
        r matches Some(s) ==> frac_eq(s@, slope_frac(x1, y1, x2, y2)),
{
    proof {
        lemma_num_den_mul_bound(x2.num as int, x1.den as int);
        lemma_num_den_mul_bound(x1.num as int, x2.den as int);
    }
    let dx_num: i128 = (x2.num as i128) * (x1.den as i128) - (x1.num as i128) * (x2.den as i128);
    if dx_num == 0 {
        return None;
    }
    proof {
        lemma_num_den_mul_bound(y2.num as int, y1.den as int);
        lemma_num_den_mul_bound(y1.num as int, y2.den as int);
        lemma_i64_mul_in_i128(x2.den as int, x1.den as int);
        lemma_i64_mul_in_i128(y2.den as int, y1.den as int);
        lemma_mul_pos(x2.den as int, x1.den as int);
        lemma_mul_pos(y2.den as int, y1.den as int);
        lemma_mul_nonzero(y2.den as int * y1.den as int, dx_num as int);
    }
    let dy_num: i128 = (y2.num as i128) * (y1.den as i128) - (y1.num as i128) * (y2.den as i128);
    let num: i128 = dy_num * ((x2.den as i128) * (x1.den as i128));
    let den: i128 = ((y2.den as i128) * (y1.den as i128)) * dx_num;
    proof {
        lemma_norm_same_value(slope_frac(x1, y1, x2, y2));
    }
    if den < 0 {
        Some(Rat { num: (-num) as i64, den: (-den) as i64 })
    } else {
        Some(Rat { num: num as i64, den: den as i64 })
    }
}

/// The y-intercept `y - x*m` of the line through `(x, y)` with slope `m`.
pub open spec fn intercept_frac(x: Frac, y: Frac, m: Frac) -> Frac {
    frac_sub(y, frac_mul(x, m))
}

/// The machine range admits the intercept computation: the two three-factor
/// products fit an `i128` intermediate and the result fits `i64` coefficients.
pub open spec fn intercept_fits(x: Frac, y: Frac, m: Frac) -> bool {
    &&& fits_i128(y.num * (x.den * m.den))
    &&& fits_i128((x.num * m.num) * y.den)
    &&& fits_i64(intercept_frac(x, y, m).num)
    &&& fits_i64(intercept_frac(x, y, m).den)
}

/// Returns the y-intercept of the line with slope `m` through `(x, y)`,
/// exactly `y - x*m`.
pub fn get_intercept(x: Rat, y: Rat, m: Rat) -> (r: Rat)
    requires
        x.wf(),
        y.wf(),
        m.wf(),
        intercept_fits(x@, y@, m@),
    ensures
        r.wf(),
        r@ == intercept_frac(x@, y@, m@),
{
    proof {
        lemma_i64_mul_in_i128(x.den as int, m.den as int);
        lemma_i64_mul_in_i128(x.num as int, m.num as int);
        lemma_mul_pos(x.den as int, m.den as int);
        lemma_mul_pos(y.den as int, x.den as int * m.den as int);
    }
    let xd_md: i128 = (x.den as i128) * (m.den as i128);
    let xn_mn: i128 = (x.num as i128) * (m.num as i128);
    let num: i128 = (y.num as i128) * xd_md - xn_mn * (y.den as i128);
    let den: i128 = (y.den as i128) * xd_md;
    Rat { num: num as i64, den: den as i64 }
}

/// Attempts to build the line through `(x1, y1)` and `(x2, y2)`. The result
/// is `None` exactly when the two points share an x-coordinate (the line
/// would be vertical); otherwise the slope is `(y2 - y1) / (x2 - x1)` and the
/// intercept is computed from the first point and that slope.
pub fn get_line_from_points(x1: Rat, y1: Rat, x2: Rat, y2: Rat) -> (r: Option<Line>)
    requires
        x1.wf(),
        y1.wf(),
        x2.wf(),
        y2.wf(),
        !frac_eq(x1@, x2@) ==> slope_fits(x1, y1, x2, y2),
        !frac_eq(x1@, x2@) ==> intercept_fits(
            x1@,
            y1@,
            frac_norm(slope_frac(x1, y1, x2, y2)),
        ),
    ensures
        r is Some <==> !frac_eq(x1@, x2@),
        r matches Some(l) ==> l.wf() && l.m@ == frac_norm(slope_frac(x1, y1, x2, y2)) && l.q@
            == intercept_frac(x1@, y1@, l.m@),
{
    match get_slope(x1, y1, x2, y2) {
        Some(slope) => {
            let q = get_intercept(x1, y1, slope);
            Some(Line { m: slope, q })
        },
        None => None,
    }
}

/// Builds the line with slope `m` through `(x, y)`; the slope is given
/// outright, so no vertical case can arise and the call always succeeds. The
/// intercept is exactly `y - x*m`.
pub fn get_line_from_point_and_slope(x: Rat, y: Rat, m: Rat) -> (r: Line)
    requires
        x.wf(),
        y.wf(),
        m.wf(),
        intercept_fits(x@, y@, m@),
    ensures
        r.wf(),
        r.m == m,
        r.q@ == intercept_frac(x@, y@, m@),
{
    Line { m, q: get_intercept(x, y, m) }
}

/// The value `x*m + q` of the line with coefficients `m` and `q` at `x`.
pub open spec fn eval_frac(m: Frac, q: Frac, x: Frac) -> Frac {
    frac_add(frac_mul(x, m), q)
}

/// The machine range admits the evaluation: the two three-factor products fit
/// an `i128` intermediate and the result fits `i64` coefficients.
pub open spec fn eval_fits(m: Frac, q: Frac, x: Frac) -> bool {
    &&& fits_i128((x.num * m.num) * q.den)
    &&& fits_i128(q.num * (x.den * m.den))
    &&& fits_i64(eval_frac(m, q, x).num)
    &&& fits_i64(eval_frac(m, q, x).den)
}

/// Returns the y value of `line` at `x`, exactly `x*m + q`.
pub fn get_y_from_x(line: Line, x: Rat) -> (r: Rat)
    requires
        line.wf(),
        x.wf(),
        eval_fits(line.m@, line.q@, x@),
    ensures
        r.wf(),
        r@ == eval_frac(line.m@, line.q@, x@),
{
    proof {
        lemma_i64_mul_in_i128(x.num as int, line.m.num as int);
        lemma_i64_mul_in_i128(x.den as int, line.m.den as int);
        lemma_mul_pos(x.den as int, line.m.den as int);
        lemma_mul_pos(x.den as int * line.m.den as int, line.q.den as int);
    }
    let xn_mn: i128 = (x.num as i128) * (line.m.num as i128);
    let xd_md: i128 = (x.den as i128) * (line.m.den as i128);
    let num: i128 = xn_mn * (line.q.den as i128) + (line.q.num as i128) * xd_md;
    let den: i128 = xd_md * (line.q.den as i128);
    Rat { num: num as i64, den: den as i64 }
}

/// Exchanging the two points does not change the slope: the computed
/// fraction is the same after sign normalisation (and so denotes the same
/// rational), and the vertical test reads the same either way round.
pub proof fn lemma_slope_symmetric(x1: Rat, y1: Rat, x2: Rat, y2: Rat)
    requires
        x1.wf(),
        y1.wf(),
        x2.wf(),
        y2.wf(),
        !frac_eq(x1@, x2@),
    ensures
        frac_eq(x2@, x1@) == frac_eq(x1@, x2@),
        frac_norm(slope_frac(x1, y1, x2, y2)) == frac_norm(slope_frac(x2, y2, x1, y1)),
        frac_eq(slope_frac(x1, y1, x2, y2), slope_frac(x2, y2, x1, y1)),
{
    let s = slope_frac(x1, y1, x2, y2);
    let r = slope_frac(x2, y2, x1, y1);
    assert(r.num == -s.num && r.den == -s.den) by (nonlinear_arith)
        requires
            s.num == (y2.num as int * y1.den as int - y1.num as int * y2.den as int) * (
            x2.den as int * x1.den as int),
            s.den == (y2.den as int * y1.den as int) * (x2.num as int * x1.den as int
                - x1.num as int * x2.den as int),
            r.num == (y1.num as int * y2.den as int - y2.num as int * y1.den as int) * (
            x1.den as int * x2.den as int),
            r.den == (y1.den as int * y2.den as int) * (x1.num as int * x2.den as int
                - x2.num as int * x1.den as int),
    ;
    lemma_mul_pos(y2.den as int, y1.den as int);
    lemma_mul_nonzero(
        y2.den as int * y1.den as int,
        x2.num as int * x1.den as int - x1.num as int * x2.den as int,
    );
    assert(s.num * r.den == r.num * s.den) by (nonlinear_arith)
        requires
            r.num == -s.num,
            r.den == -s.den,
    ;
}

/// The line built from a point and a slope passes through that point: for
/// any slope `m`, evaluating the line with intercept `y - x*m` at `x` gives
/// back exactly the value `y`.
pub proof fn lemma_eval_recovers_point(x: Frac, y: Frac, m: Frac)
    ensures
        frac_eq(eval_frac(m, intercept_frac(x, y, m), x), y),
{
    let t = frac_mul(x, m);
    let e = frac_add(t, frac_sub(y, t));
    assert(e.num * y.den == y.num * e.den) by (nonlinear_arith)
        requires
            e.num == t.num * (y.den * t.den) + (y.num * t.den - t.num * y.den) * t.den,
            e.den == t.den * (y.den * t.den),
    ;
}

/// With the slope taken between two points and the intercept anchored at the
/// first, evaluating at the second point's x gives back its y.
proof fn lemma_eval_hits_second_point(x1: Frac, y1: Frac, x2: Frac, y2: Frac)
    requires
        x1.den != 0,
        y1.den != 0,
        x2.den != 0,
        y2.den != 0,
        frac_sub(x2, x1).num != 0,
    ensures
        ({
            let m = frac_div(frac_sub(y2, y1), frac_sub(x2, x1));
            frac_eq(eval_frac(m, frac_sub(y1, frac_mul(x1, m)), x2), y2)
        }),
{
    let m = frac_div(frac_sub(y2, y1), frac_sub(x2, x1));
    let t2 = frac_mul(x2, m);
    let u = frac_mul(x1, m);
    let e = frac_add(t2, frac_sub(y1, u));
    lemma_mul_nonzero(y2.den, y1.den);
    lemma_mul_nonzero(y2.den * y1.den, frac_sub(x2, x1).num);
    lemma_mul_nonzero(x2.den, x1.den);
    lemma_mul_nonzero(x2.den * x1.den, m.den);
    lemma_mul_nonzero(x2.den, m.den);
    lemma_mul_nonzero(x1.den, m.den);
    lemma_mul_nonzero(t2.den, u.den);
    lemma_mul_nonzero(t2.den * u.den, y1.den);
    lemma_mul_nonzero(y2.den * y1.den, y1.den);
    // x2*m - x1*m, (x2 - x1)*m and y2 - y1 all denote the slope's rise.
    lemma_frac_mul_sub_distrib(x1, x2, m);
    lemma_frac_mul_div_cancel(frac_sub(y2, y1), frac_sub(x2, x1));
    lemma_frac_eq_trans(frac_sub(t2, u), frac_mul(frac_sub(x2, x1), m), frac_sub(y2, y1));
    // so x2*m + (y1 - x1*m) collapses to (y2 - y1) + y1, which is y2.
    lemma_frac_shift(t2, u, y1);
    lemma_frac_add_cong_left(frac_sub(t2, u), frac_sub(y2, y1), y1);
    lemma_frac_sub_add_cancel(y2, y1);
    lemma_frac_eq_trans(frac_add(frac_sub(t2, u), y1), frac_add(frac_sub(y2, y1), y1), y2);
    lemma_frac_eq_trans(e, frac_add(frac_sub(t2, u), y1), y2);
}

/// Negating both coefficients of the slope leaves every evaluated point of
/// the line through `(x1, y1)` untouched, coefficient for coefficient.
proof fn lemma_neg_slope_same_eval(xa: Frac, x1: Frac, y1: Frac, m: Frac)
    ensures
        ({
            let mm = Frac { num: -m.num, den: -m.den };
            eval_frac(mm, frac_sub(y1, frac_mul(x1, mm)), xa) == eval_frac(
                m,
                frac_sub(y1, frac_mul(x1, m)),
                xa,
            )
        }),
{
    let mm = Frac { num: -m.num, den: -m.den };
    let e = eval_frac(m, frac_sub(y1, frac_mul(x1, m)), xa);
    let f = eval_frac(mm, frac_sub(y1, frac_mul(x1, mm)), xa);
    assert((xa.num * -m.num) * (y1.den * (x1.den * -m.den)) == (xa.num * m.num) * (y1.den * (
    x1.den * m.den))) by (nonlinear_arith);
    assert(y1.num * (x1.den * -m.den) == -(y1.num * (x1.den * m.den))) by (nonlinear_arith);
    assert((x1.num * -m.num) * y1.den == -((x1.num * m.num) * y1.den)) by (nonlinear_arith);
    let g: int = y1.num * (x1.den * m.den) - (x1.num * m.num) * y1.den;
    assert((-g) * (xa.den * -m.den) == g * (xa.den * m.den)) by (nonlinear_arith);
    assert((y1.num * (x1.den * -m.den) - (x1.num * -m.num) * y1.den) * (xa.den * -m.den) == (
    y1.num * (x1.den * m.den) - (x1.num * m.num) * y1.den) * (xa.den * m.den));
    assert((xa.den * -m.den) * (y1.den * (x1.den * -m.den)) == (xa.den * m.den) * (y1.den * (
    x1.den * m.den))) by (nonlinear_arith);
    assert(f.num == e.num && f.den == e.den);
}

/// The line built from two points with distinct x-coordinates passes through
/// both: evaluating it at either point's x gives back that point's y,
/// exactly. `m` and `q` below are precisely what `get_line_from_points`
/// returns.
pub proof fn lemma_line_through_points(x1: Rat, y1: Rat, x2: Rat, y2: Rat)
    requires
        x1.wf(),
        y1.wf(),
        x2.wf(),
        y2.wf(),
        !frac_eq(x1@, x2@),
    ensures
        ({
            let m = frac_norm(slope_frac(x1, y1, x2, y2));
            let q = intercept_frac(x1@, y1@, m);
            frac_eq(eval_frac(m, q, x1@), y1@) && frac_eq(eval_frac(m, q, x2@), y2@)
        }),
{
    let s = slope_frac(x1, y1, x2, y2);
    let m = frac_norm(s);
    lemma_eval_recovers_point(x1@, y1@, m);
    lemma_eval_hits_second_point(x1@, y1@, x2@, y2@);
    if s.den < 0 {
        lemma_neg_slope_same_eval(x2@, x1@, y1@, s);
    }
}

/// Evaluating any well-formed line at `x = 0` gives exactly the intercept.
pub proof fn lemma_eval_at_zero(l: Line, x: Rat)
    requires
        l.wf(),
        x.wf(),
        x.num == 0,
    ensures
        frac_eq(eval_frac(l.m@, l.q@, x@), l.q@),
{
    let e = eval_frac(l.m@, l.q@, x@);
    assert(e.num * l.q.den as int == l.q.num as int * e.den) by (nonlinear_arith)
        requires
            e.num == (0 * l.m.num as int) * l.q.den as int + l.q.num as int * (x.den as int
                * l.m.den as int),
            e.den == (x.den as int * l.m.den as int) * l.q.den as int,
    ;
}

/// A horizontal line (slope zero) evaluates to its intercept at every `x`.
pub proof fn lemma_eval_horizontal(l: Line, x: Rat)
    requires
        l.wf(),
        x.wf(),
        l.m.num == 0,
    ensures
        frac_eq(eval_frac(l.m@, l.q@, x@), l.q@),
{
    let e = eval_frac(l.m@, l.q@, x@);
    assert(e.num * l.q.den as int == l.q.num as int * e.den) by (nonlinear_arith)
        requires
            e.num == (x.num as int * 0) * l.q.den as int + l.q.num as int * (x.den as int
                * l.m.den as int),
            e.den == (x.den as int * l.m.den as int) * l.q.den as int,
    ;
}

} // verus!

