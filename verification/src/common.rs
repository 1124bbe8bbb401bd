//! Shared point types: the polar measurement, its Cartesian image, and the
//! timestamped pairing of the two.
//!
//! Lengths are fixed-point integers: a measured distance is a whole number of
//! millimeters, a Cartesian coordinate and a vertical correction a whole
//! number of micrometers.

use crate::angle::Angle;
use crate::trig::{cos_units, lemma_sin_range, sin_units, cos_scaled, sin_scaled, TRIG_SCALE};
use vstd::arithmetic::div_mod::lemma_div_is_ordered;
use vstd::prelude::*;

verus! {

/// A value paired with the nanosecond at which the sensor measured it.
#[derive(Clone, Copy, Debug, PartialEq)]
pub struct Timestamped<T> {
    pub value: T,
    /// Time of the measurement on the sensor clock, in nanoseconds.
    pub timestamp_ns: u64,
}

/// One laser return in the sensor's own polar frame.
#[derive(Clone, Copy, Debug, PartialEq, Eq, Structural)]
pub struct SphericalPoint {
    /// Measured distance in millimeters; zero means "no return".
    pub distance_mm: u32,
    /// Azimuth of the return.
    pub azimuth_angle: Angle,
    /// Vertical (altitude) angle of the laser that made the return.
    pub vertical_angle: Angle,
}

impl SphericalPoint {
    /// A polar point from a distance, an azimuth and an altitude angle.
    pub fn from_altitude_angle(distance_mm: u32, azimuth_angle: Angle, vertical_angle: Angle) -> (
        r: SphericalPoint)
        ensures
            r == (SphericalPoint { distance_mm, azimuth_angle, vertical_angle }),
    {
        SphericalPoint { distance_mm, azimuth_angle, vertical_angle }
    }
}

/// A point in the sensor's Cartesian frame; coordinates in micrometers.
#[derive(Clone, Copy, Debug, PartialEq, Eq, Structural)]
pub struct Point {
    pub x: i64,
    pub y: i64,
    pub z: i64,
}

/// Both representations of one converted return.
#[derive(Clone, Copy, Debug, PartialEq, Eq, Structural)]
pub struct PointPair {
    pub cartesian: Point,
    pub spherical: SphericalPoint,
}

pub open spec fn abs1(x: int) -> int {
    if x < 0 {
        -x
    } else {
        x
    }
}

/// A distance of `d` millimeters scaled by two trigonometric factors (each
/// scaled by `TRIG_SCALE`), as a whole number of micrometers: magnitude
/// `d * |a| * |b| * 1000 / TRIG_SCALE^2`, with the sign of `a * b`.
pub open spec fn planar_scaled(d: int, a: int, b: int) -> int {
    let m = (d * abs1(a) * abs1(b)) / 1_000_000_000;
    if (a < 0) != (b < 0) {
        -m
    } else {
        m
    }
}

/// A distance of `d` millimeters scaled by one trigonometric factor, as a
/// whole number of micrometers: magnitude `d * |s| * 1000 / TRIG_SCALE`, with
/// the sign of `s`.
pub open spec fn height_scaled(d: int, s: int) -> int {
    let m = (d * abs1(s)) / 1000;
    if s < 0 {
        -m
    } else {
        m
    }
}

/// The Cartesian image of a polar point, before any vertical correction:
/// `x = d cos(vertical) cos(azimuth)`, `y = d cos(vertical) sin(azimuth)`,
/// `z = d sin(vertical)`.
pub open spec fn cartesian_base(sph: SphericalPoint) -> Point {
    let d = sph.distance_mm as int;
    let sv = sin_units(sph.vertical_angle.units as int);
    let cv = cos_units(sph.vertical_angle.units as int);
    let sa = sin_units(sph.azimuth_angle.units as int);
    let ca = cos_units(sph.azimuth_angle.units as int);
    Point {
        x: planar_scaled(d, cv, ca) as i64,
        y: planar_scaled(d, cv, sa) as i64,
        z: height_scaled(d, sv) as i64,
    }
}

/// The Cartesian image of a polar point with the laser's vertical correction
/// of `correction_um` micrometers added to `z`.
pub open spec fn cartesian_of(sph: SphericalPoint, correction_um: i32) -> Point {
    let base = cartesian_base(sph);
    Point { x: base.x, y: base.y, z: (base.z + correction_um) as i64 }
}

/// Both representations of the return of one laser: the polar measurement and
/// its corrected Cartesian image.
pub open spec fn point_pair_of(
    distance_mm: u32,
    azimuth_angle: Angle,
    vertical_angle: Angle,
    correction_um: i32,
) -> PointPair {
    let sph = SphericalPoint { distance_mm, azimuth_angle, vertical_angle };
    PointPair { cartesian: cartesian_of(sph, correction_um), spherical: sph }
}

/// Magnitude bounds: a scaled coordinate never exceeds the distance itself
/// (in micrometers), so every coordinate of a converted point fits easily in
/// its field.
pub proof fn lemma_scaled_bounds(d: int, a: int, b: int)
    requires
        0 <= d <= u32::MAX,
        -TRIG_SCALE <= a <= TRIG_SCALE,
        -TRIG_SCALE <= b <= TRIG_SCALE,
    ensures
        -(d * 1000) <= planar_scaled(d, a, b) <= d * 1000,
        -(d * 1000) <= height_scaled(d, a) <= d * 1000,
        0 <= d * abs1(a) * abs1(b) <= d * 1_000_000 * 1_000_000,
        0 <= d * abs1(a) <= d * 1_000_000,
{
    let sc = TRIG_SCALE as int;
    assert(0 <= d * abs1(a) <= d * sc && d * abs1(a) * abs1(b) <= d * sc * sc && 0 <= d * abs1(a)
        * abs1(b) && d * sc * sc == (d * 1000) * 1_000_000_000 && d * sc == (d * 1000) * 1000)
        by (nonlinear_arith)
        requires
            0 <= d,
            0 <= abs1(a) <= sc,
            0 <= abs1(b) <= sc,
            sc == 1_000_000,
    ;
    lemma_div_is_ordered(0, d * abs1(a) * abs1(b), 1_000_000_000);
    lemma_div_is_ordered(d * abs1(a) * abs1(b), (d * 1000) * 1_000_000_000, 1_000_000_000);
    assert(((d * 1000) * 1_000_000_000) / 1_000_000_000 == d * 1000) by (nonlinear_arith);
    lemma_div_is_ordered(0, d * abs1(a), 1000);
    lemma_div_is_ordered(d * abs1(a), (d * 1000) * 1000, 1000);
    assert(((d * 1000) * 1000) / 1000 == d * 1000) by (nonlinear_arith);
}

/// The vertical correction shifts a converted point's height by exactly the
/// configured amount, so with the distance and both angles fixed, the height
/// grows with the correction.
pub proof fn lemma_vertical_correction_offsets_z(sph: SphericalPoint, c1: i32, c2: i32)
    ensures
        cartesian_of(sph, c1).z == cartesian_base(sph).z + c1,
        cartesian_of(sph, c1).x == cartesian_base(sph).x,
        cartesian_of(sph, c1).y == cartesian_base(sph).y,
        c1 <= c2 ==> cartesian_of(sph, c1).z <= cartesian_of(sph, c2).z,
{
    lemma_sin_range(sph.vertical_angle.units as int);
    lemma_sin_range(sph.azimuth_angle.units as int);
    let d = sph.distance_mm as int;
    let sv = sin_units(sph.vertical_angle.units as int);
    lemma_scaled_bounds(d, sv, sv);
}

/// One laser return converted to a point pair: the polar measurement kept as
/// it is, and the Cartesian image with the vertical correction added.
pub fn make_point(
    distance_mm: u32,
    vertical_angle: Angle,
    azimuth_angle: Angle,
    correction_um: i32,
) -> (pp: PointPair)
    ensures
        pp == point_pair_of(distance_mm, azimuth_angle, vertical_angle, correction_um),
{
    let spherical = SphericalPoint::from_altitude_angle(distance_mm, azimuth_angle, vertical_angle);
    let mut cartesian = Point::from_spherical(&spherical);
    proof {
        lemma_sin_range(vertical_angle.units as int);
        lemma_scaled_bounds(
            distance_mm as int,
            sin_units(vertical_angle.units as int),
            sin_units(vertical_angle.units as int),
        );
    }
    cartesian.z = cartesian.z + (correction_um as i64);
    PointPair { cartesian, spherical }
}

impl Point {
    /// The Cartesian image of a polar point, without any vertical correction.
    pub fn from_spherical(sph: &SphericalPoint) -> (p: Point)
        ensures
            p == cartesian_base(*sph),
    {
        let sv = sin_scaled(sph.vertical_angle);
        let cv = cos_scaled(sph.vertical_angle);
        let sa = sin_scaled(sph.azimuth_angle);
        let ca = cos_scaled(sph.azimuth_angle);
        let d = sph.distance_mm as u64;
        Point {
            x: scaled_product(d, cv, ca),
            y: scaled_product(d, cv, sa),
            z: scaled_height(d, sv),
        }
    }
}

/// `planar_scaled` in executable form.
fn scaled_product(d: u64, a: i64, b: i64) -> (r: i64)
    requires
        d <= u32::MAX,
        -TRIG_SCALE <= a <= TRIG_SCALE,
        -TRIG_SCALE <= b <= TRIG_SCALE,
    ensures
        r == planar_scaled(d as int, a as int, b as int),
{
    proof {
        lemma_scaled_bounds(d as int, a as int, b as int);
    }
    let am: u128 = (if a < 0 {
        -a
    } else {
        a
    }) as u128;
    let bm: u128 = (if b < 0 {
        -b
    } else {
        b
    }) as u128;
    let m: u128 = (d as u128) * am * bm / 1_000_000_000;
    if (a < 0) != (b < 0) {
        -(m as i64)
    } else {
        m as i64
    }
}

/// `height_scaled` in executable form.
fn scaled_height(d: u64, s: i64) -> (r: i64)
    requires
        d <= u32::MAX,
        -TRIG_SCALE <= s <= TRIG_SCALE,
    ensures
        r == height_scaled(d as int, s as int),
{
    proof {
        lemma_scaled_bounds(d as int, s as int, s as int);
    }
    let sm: u128 = (if s < 0 {
        -s
    } else {
        s
    }) as u128;
    let m: u128 = (d as u128) * sm / 1000;
    if s < 0 {
        -(m as i64)
    } else {
        m as i64
    }
}

} // verus!
