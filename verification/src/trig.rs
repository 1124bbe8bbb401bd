//! Fixed-point sine and cosine.
//!
//! The conversion from polar returns to Cartesian points needs the sine and
//! cosine of the azimuth and of the vertical angle. They are computed with
//! Bhaskara's rational approximation, `sin x ~ 16x(pi - x) / (5 pi^2 - 4x(pi
//! - x))` on `[0, pi]`, carried out entirely in integers: the result is
//! scaled by `TRIG_SCALE`, exact at every multiple of a quarter turn and
//! within about 0.2% of the true value elsewhere.

use crate::angle::{
    lemma_wrap_range, wrap_units, Angle, HALF_TURN_UNITS, QUARTER_TURN_UNITS, UNITS_PER_TURN,
};
use vstd::arithmetic::div_mod::{lemma_add_mod_noop, lemma_div_is_ordered, lemma_small_mod};
use vstd::prelude::*;

verus! {

/// The integer that stands for the real value 1 in trigonometric results.
pub const TRIG_SCALE: i64 = 1_000_000;

/// Bhaskara's approximation of `sin` on the first half turn, scaled by
/// `TRIG_SCALE`. `x` is in angle units and must lie in `[0, HALF_TURN_UNITS]`.
pub open spec fn bhaskara(x: int) -> int {
    let s = x * (HALF_TURN_UNITS - x);
    (16 * s * (TRIG_SCALE as int)) / (
    5 * (HALF_TURN_UNITS as int) * (HALF_TURN_UNITS as int) - 4 * s)
}

/// The scaled sine of an angle of `u` units: the angle is folded into one
/// turn and the two half turns carry opposite signs.
pub open spec fn sin_units(u: int) -> int {
    let n = wrap_units(u);
    if n < HALF_TURN_UNITS {
        bhaskara(n)
    } else {
        -bhaskara(n - HALF_TURN_UNITS)
    }
}

/// The scaled cosine of an angle of `u` units: the sine a quarter turn ahead.
pub open spec fn cos_units(u: int) -> int {
    sin_units(u + QUARTER_TURN_UNITS)
}

pub proof fn lemma_bhaskara_range(x: int)
    requires
        0 <= x <= HALF_TURN_UNITS,
    ensures
        0 <= bhaskara(x) <= TRIG_SCALE,
{
    let h = HALF_TURN_UNITS as int;
    let sc = TRIG_SCALE as int;
    let s = x * (h - x);
    assert(0 <= s && 4 * s <= h * h) by (nonlinear_arith)
        requires
            0 <= x <= h,
            s == x * (h - x),
    ;
    let num = 16 * s * sc;
    let den = 5 * h * h - 4 * s;
    assert(den >= 4 * h * h);
    assert(num >= 0) by (nonlinear_arith)
        requires
            num == 16 * s * sc,
            s >= 0,
            sc > 0,
    ;
    assert(num <= sc * den) by (nonlinear_arith)
        requires
            num == 16 * s * sc,
            den == 5 * h * h - 4 * s,
            sc > 0,
            4 * s <= h * h,
            s >= 0,
    ;
    lemma_div_is_ordered(0, num, den);
    lemma_div_is_ordered(num, sc * den, den);
    assert((sc * den) / den == sc) by (nonlinear_arith)
        requires den > 0
    ;
}

pub proof fn lemma_sin_range(u: int)
    ensures
        -TRIG_SCALE <= sin_units(u) <= TRIG_SCALE,
        -TRIG_SCALE <= cos_units(u) <= TRIG_SCALE,
{
    lemma_wrap_range(u);
    lemma_wrap_range(u + QUARTER_TURN_UNITS);
    let n = wrap_units(u);
    if n < HALF_TURN_UNITS {
        lemma_bhaskara_range(n);
    } else {
        lemma_bhaskara_range(n - HALF_TURN_UNITS);
    }
    let m = wrap_units(u + QUARTER_TURN_UNITS);
    if m < HALF_TURN_UNITS {
        lemma_bhaskara_range(m);
    } else {
        lemma_bhaskara_range(m - HALF_TURN_UNITS);
    }
}

/// Bhaskara's formula on `[0, HALF_TURN_UNITS]`, in unsigned arithmetic.
fn bhaskara_scaled(x: u64) -> (r: u64)
    requires
        x <= HALF_TURN_UNITS,
    ensures
        r == bhaskara(x as int),
        r <= TRIG_SCALE,
{
    let h: u64 = HALF_TURN_UNITS as u64;
    proof {
        assert(x as int * (h - x) as int <= (h * h) as int) by (nonlinear_arith)
            requires 0 <= x as int <= h as int, h == HALF_TURN_UNITS
        ;
        lemma_bhaskara_range(x as int);
    }
    let s: u64 = x * (h - x);
    let num: u64 = 16 * s * 1_000_000;
    let den: u64 = 5 * h * h - 4 * s;
    num / den
}

/// The sine of `a`, scaled by `TRIG_SCALE`.
pub fn sin_scaled(a: Angle) -> (r: i64)
    ensures
        r == sin_units(a.units as int),
        -TRIG_SCALE <= r <= TRIG_SCALE,
{
    let w = a.wrap_to_2pi();
    if w.units < HALF_TURN_UNITS {
        bhaskara_scaled(w.units as u64) as i64
    } else {
        -(bhaskara_scaled((w.units - HALF_TURN_UNITS) as u64) as i64)
    }
}

/// The cosine of `a`, scaled by `TRIG_SCALE`.
pub fn cos_scaled(a: Angle) -> (r: i64)
    ensures
        r == cos_units(a.units as int),
        -TRIG_SCALE <= r <= TRIG_SCALE,
{
    let w = a.wrap_to_2pi();
    proof {
        let t = UNITS_PER_TURN as int;
        let q = QUARTER_TURN_UNITS as int;
        lemma_small_mod(q as nat, t as nat);
        lemma_add_mod_noop(a.units as int, q, t);
        assert(wrap_units(w.units + q) == wrap_units(a.units + q));
        lemma_sin_range(a.units as int);
    }
    sin_scaled(Angle { units: w.units + QUARTER_TURN_UNITS })
}

} // verus!
