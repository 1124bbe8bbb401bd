use lidar_utils::angle::Angle;
use lidar_utils::common::{make_point, Point, SphericalPoint};
use lidar_utils::trig::{cos_scaled, sin_scaled};

#[test]
fn angle_from_encoder_counts_scales_and_wraps() {
    assert_eq!(Angle::from_encoder_counts(0).units, 0);
    assert_eq!(Angle::from_encoder_counts(100).units, 4_800);
    assert_eq!(Angle::from_encoder_counts(35_999).units, 1_727_952);
    // an out-of-range encoder reading is folded into one revolution
    assert_eq!(Angle::from_encoder_counts(36_001).units, 48);
}

#[test]
fn angle_from_centidegrees_keeps_sign() {
    assert_eq!(Angle::from_centidegrees(-1500).units, -72_000);
    assert_eq!(Angle::from_centidegrees(67).units, 3_216);
}

#[test]
fn wrap_to_2pi_folds_into_one_turn() {
    assert_eq!(Angle { units: 0 }.wrap_to_2pi().units, 0);
    assert_eq!(Angle { units: 1_728_000 }.wrap_to_2pi().units, 0);
    assert_eq!(Angle { units: 1_728_001 }.wrap_to_2pi().units, 1);
    assert_eq!(Angle { units: -1 }.wrap_to_2pi().units, 1_727_999);
    assert_eq!(Angle { units: -1_728_000 }.wrap_to_2pi().units, 0);
    assert_eq!(Angle { units: -3_456_001 }.wrap_to_2pi().units, 1_727_999);
}

#[test]
fn sine_exact_at_quadrants_and_thirty_degrees() {
    // quarter turn = 432_000 units, scale = 1_000_000
    assert_eq!(sin_scaled(Angle { units: 0 }), 0);
    assert_eq!(sin_scaled(Angle { units: 432_000 }), 1_000_000);
    assert_eq!(sin_scaled(Angle { units: 864_000 }), 0);
    assert_eq!(sin_scaled(Angle { units: 1_296_000 }), -1_000_000);
    // Bhaskara's approximation is exact at 30 degrees
    assert_eq!(sin_scaled(Angle { units: 144_000 }), 500_000);
    assert_eq!(cos_scaled(Angle { units: 0 }), 1_000_000);
    assert_eq!(cos_scaled(Angle { units: 432_000 }), 0);
    assert_eq!(cos_scaled(Angle { units: 864_000 }), -1_000_000);
}

#[test]
fn from_spherical_projects_with_fixed_point_trig() {
    // distance 1000 mm, azimuth a quarter turn, level beam:
    // x = d cos(v) cos(a) = 0, y = d cos(v) sin(a) = 1000 mm, z = 0.
    let sph = SphericalPoint {
        distance_mm: 1000,
        azimuth_angle: Angle { units: 432_000 },
        vertical_angle: Angle { units: 0 },
    };
    let p = Point::from_spherical(&sph);
    assert_eq!(p, Point { x: 0, y: 1_000_000, z: 0 });
}

#[test]
fn make_point_adds_vertical_correction_to_z() {
    let pp = make_point(1000, Angle { units: 0 }, Angle { units: 432_000 }, 250);
    assert_eq!(pp.cartesian, Point { x: 0, y: 1_000_000, z: 250 });
    assert_eq!(pp.spherical.distance_mm, 1000);
    assert_eq!(pp.spherical.azimuth_angle.units, 432_000);

    // with everything else fixed, z moves exactly with the correction
    let lower = make_point(1000, Angle { units: 0 }, Angle { units: 432_000 }, -250);
    assert_eq!(pp.cartesian.z - lower.cartesian.z, 500);
    assert_eq!(pp.cartesian.x, lower.cartesian.x);
    assert_eq!(pp.cartesian.y, lower.cartesian.y);
}

#[test]
fn extreme_distance_and_correction_stay_in_range() {
    // the largest measurable distance and correction still convert exactly
    let pp = make_point(
        u32::MAX,
        Angle { units: 0 },
        Angle { units: 432_000 },
        i32::MAX,
    );
    assert_eq!(pp.cartesian.y, u32::MAX as i64 * 1000);
    assert_eq!(pp.cartesian.z, i32::MAX as i64);
    assert_eq!(pp.cartesian.x, 0);
}
