//! A fixed-point plane angle.
//!
//! One unit is 1/48 of an encoder count (a count is a hundredth of a degree).
//! The interpolation of a column's azimuth spreads one column over
//! `FIRINGS_PER_COLUMN * LASER_SLOTS_PER_FIRING = 48` laser slots, so with 48
//! units per count every interpolated azimuth is a whole number of units and
//! no rounding happens anywhere in the conversion.

use vstd::arithmetic::div_mod::{
    lemma_fundamental_div_mod, lemma_fundamental_div_mod_converse, lemma_small_mod,
    lemma_sub_mod_noop,
};
use vstd::prelude::*;

verus! {

/// Angle units in one full turn: `48 * 36_000`.
pub const UNITS_PER_TURN: i64 = 1_728_000;

/// Angle units in a quarter turn (90 degrees).
pub const QUARTER_TURN_UNITS: i64 = 432_000;

/// Angle units in a half turn (180 degrees).
pub const HALF_TURN_UNITS: i64 = 864_000;

/// Angle units in one encoder count (a hundredth of a degree).
pub const UNITS_PER_COUNT: i64 = 48;

/// An angle folded into `[0, UNITS_PER_TURN)`: the remainder of `u` modulo
/// one full turn, never negative.
pub open spec fn wrap_units(u: int) -> int {
    u % (UNITS_PER_TURN as int)
}

pub proof fn lemma_wrap_range(u: int)
    ensures
        0 <= wrap_units(u) < UNITS_PER_TURN,
        0 <= u < UNITS_PER_TURN ==> wrap_units(u) == u,
{
}

/// A plane angle held as a whole number of fixed-point units
/// (1/48 of a hundredth of a degree).
#[derive(Clone, Copy, Debug, PartialEq, Eq, Structural)]
pub struct Angle {
    pub units: i64,
}

impl Angle {
    /// The angle of an azimuth encoder reading of `counts` hundredths of a
    /// degree, folded into one turn.
    pub fn from_encoder_counts(counts: u16) -> (r: Angle)
        ensures
            r.units == wrap_units(counts as int * UNITS_PER_COUNT),
            0 <= r.units < UNITS_PER_TURN,
            (r.units as int) % (UNITS_PER_COUNT as int) == 0,
    {
        let folded: u64 = (counts as u64) % 36_000;
        proof {
            lemma_fold_counts(counts as int);
        }
        Angle { units: (folded as i64) * UNITS_PER_COUNT }
    }

    /// The angle of a whole number of hundredths of a degree; negative values
    /// describe angles below the horizontal.
    pub fn from_centidegrees(counts: i32) -> (r: Angle)
        ensures
            r.units == counts as int * UNITS_PER_COUNT,
    {
        Angle { units: (counts as i64) * UNITS_PER_COUNT }
    }

    /// Folds the angle into `[0, 2*pi)`, that is into `[0, UNITS_PER_TURN)`
    /// units.
    pub fn wrap_to_2pi(self) -> (r: Angle)
        ensures
            r.units == wrap_units(self.units as int),
            0 <= r.units < UNITS_PER_TURN,
    {
        if self.units >= 0 {
            let m: u64 = (self.units as u64) % (UNITS_PER_TURN as u64);
            Angle { units: m as i64 }
        } else {
            let mag: u64 = (-(self.units as i128)) as u64;
            let q: u64 = mag / (UNITS_PER_TURN as u64);
            let m: u64 = mag % (UNITS_PER_TURN as u64);
            let r: u64 = if m == 0 {
                0
            } else {
                (UNITS_PER_TURN as u64) - m
            };
            proof {
                let t = UNITS_PER_TURN as int;
                lemma_fundamental_div_mod(mag as int, t);
                if m == 0 {
                    lemma_fundamental_div_mod_converse(self.units as int, t, -(q as int), 0);
                } else {
                    lemma_fundamental_div_mod_converse(
                        self.units as int,
                        t,
                        -(q as int) - 1,
                        t - m,
                    );
                }
            }
            Angle { units: r as i64 }
        }
    }
}

proof fn lemma_fold_counts(c: int)
    requires
        0 <= c < 65536,
    ensures
        (c % 36_000) * UNITS_PER_COUNT == wrap_units(c * UNITS_PER_COUNT),
        ((c % 36_000) * UNITS_PER_COUNT) % (UNITS_PER_COUNT as int) == 0,
{
    let f = c % 36_000;
    lemma_fundamental_div_mod(c, 36_000);
    let q = c / 36_000;
    assert(c * UNITS_PER_COUNT == q * (UNITS_PER_TURN as int) + f * UNITS_PER_COUNT)
        by (nonlinear_arith)
        requires c == q * 36_000 + f, UNITS_PER_TURN == 36_000 * UNITS_PER_COUNT;
    assert(0 <= f * UNITS_PER_COUNT < UNITS_PER_TURN) by (nonlinear_arith)
        requires 0 <= f < 36_000, UNITS_PER_TURN == 36_000 * UNITS_PER_COUNT, UNITS_PER_COUNT == 48;
    lemma_fundamental_div_mod_converse(
        c * UNITS_PER_COUNT,
        UNITS_PER_TURN as int,
        q,
        f * UNITS_PER_COUNT,
    );
    lemma_fundamental_div_mod_converse(f * UNITS_PER_COUNT, UNITS_PER_COUNT as int, f, 0);
}

/// The azimuth of a point remapped between the sensor's clockwise encoder
/// convention and the standard counter-clockwise convention: `pi/2 - u`,
/// folded into one turn. The remap is its own inverse.
pub open spec fn remap_units(u: int) -> int {
    wrap_units(QUARTER_TURN_UNITS - u)
}

/// Applies the clockwise/counter-clockwise remap to an angle.
pub fn remap_angle(a: Angle) -> (r: Angle)
    requires
        a.units >= 0,
    ensures
        r.units == remap_units(a.units as int),
        0 <= r.units < UNITS_PER_TURN,
{
    Angle { units: QUARTER_TURN_UNITS - a.units }.wrap_to_2pi()
}

/// The remap undoes itself: remapping a remapped angle gives the original
/// angle back, folded into one turn. The conversion stores `pi/2 - theta`;
/// the boundary test computes `pi/2 - (pi/2 - theta)` and sees `theta` again.
pub proof fn lemma_double_remap(u: int)
    ensures
        remap_units(remap_units(u)) == wrap_units(u),
{
    let t = UNITS_PER_TURN as int;
    let q = QUARTER_TURN_UNITS as int;
    lemma_small_mod(q as nat, t as nat);
    lemma_sub_mod_noop(q, q - u, t);
}

/// On angles already folded into one turn the remap is an involution.
pub proof fn lemma_remap_involution(u: int)
    requires
        0 <= u < UNITS_PER_TURN,
    ensures
        remap_units(remap_units(u)) == u,
{
    lemma_double_remap(u);
    lemma_wrap_range(u);
}

} // verus!
