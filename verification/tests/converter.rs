use lidar_utils::angle::Angle;
use lidar_utils::converter::{Config, PointCloudConverter};
use lidar_utils::error::Error;
use lidar_utils::packet::{Column, Packet, RawReturn, ReturnMode};
use lidar_utils::point_list::VelodynePoint;

fn one_channel_config(correction_um: i32) -> Config {
    Config {
        vertical_angles: vec![Angle::from_centidegrees(0)],
        vertical_corrections: vec![correction_um],
    }
}

fn column(azimuth_count: u16, dist_former: u32, dist_latter: u32, channels: usize) -> Column {
    Column {
        azimuth_count,
        firing_former: vec![RawReturn { distance_mm: dist_former, intensity: 0 }; channels],
        firing_latter: vec![RawReturn { distance_mm: dist_latter, intensity: 0 }; channels],
    }
}

fn flat_packet(timestamp: u32, azimuth_count: u16, mode: ReturnMode) -> Packet {
    let mut columns = Vec::new();
    for _ in 0..12 {
        columns.push(column(azimuth_count, 1000, 2000, 1));
    }
    Packet { timestamp, columns, return_mode: mode }
}

#[test]
fn preset_configs_have_sixteen_channels() {
    let vlp = Config::vlp_16_config();
    assert_eq!(vlp.vertical_angles.len(), 16);
    assert_eq!(vlp.vertical_corrections.len(), 16);
    assert_eq!(vlp.vertical_angles[0].units, -72_000); // -15 degrees
    assert_eq!(vlp.vertical_angles[1].units, 4_800); // 1 degree
    assert_eq!(vlp.vertical_corrections[0], 11_200); // 11.2 mm
    assert_eq!(vlp.vertical_corrections[15], -11_200);

    let lite = Config::puke_lite_config();
    assert_eq!(lite.vertical_angles, vlp.vertical_angles);

    let hi_res = Config::puke_hi_res_config();
    assert_eq!(hi_res.vertical_angles[1].units, 3_216); // 0.67 degrees
    assert_eq!(hi_res.vertical_corrections[0], 7_400);
}

#[test]
fn convert_rejects_firing_of_wrong_channel_count() {
    // calibration has one channel, the firings carry two returns
    let converter = PointCloudConverter::new(one_channel_config(0));
    let mut columns = Vec::new();
    for _ in 0..12 {
        columns.push(column(0, 1000, 1000, 2));
    }
    let packet = Packet { timestamp: 0, columns, return_mode: ReturnMode::Strongest };
    assert!(matches!(converter.packet_to_points(&packet), Err(Error::MalformedInput)));
}

#[test]
fn convert_rejects_wrong_column_count() {
    let converter = PointCloudConverter::new(one_channel_config(0));
    let mut columns = Vec::new();
    for _ in 0..11 {
        columns.push(column(0, 1000, 1000, 1));
    }
    let packet = Packet { timestamp: 0, columns, return_mode: ReturnMode::Strongest };
    assert!(matches!(converter.packet_to_points(&packet), Err(Error::MalformedInput)));
}

#[test]
fn convert_single_mode_exact_values() {
    let converter = PointCloudConverter::new(one_channel_config(5));
    let packet = flat_packet(7, 0, ReturnMode::Strongest);
    let list = converter.packet_to_points(&packet).unwrap();
    assert_eq!(list.mode(), ReturnMode::Strongest);
    assert_eq!(list.len(), 24); // 12 columns x 2 firings x 1 channel
    let points = list.into_points();

    match &points[0] {
        VelodynePoint::Strongest(tp) => {
            // packet timestamp 7 us, first firing, first channel
            assert_eq!(tp.timestamp_ns, 7_000);
            // azimuth 0 remapped to pi/2 - 0 = a quarter turn
            assert_eq!(tp.value.spherical.azimuth_angle.units, 432_000);
            assert_eq!(tp.value.spherical.distance_mm, 1000);
            assert_eq!(tp.value.spherical.vertical_angle.units, 0);
            // level beam at a quarter turn: 1 m along y, z is the correction
            assert_eq!(tp.value.cartesian.x, 0);
            assert_eq!(tp.value.cartesian.y, 1_000_000);
            assert_eq!(tp.value.cartesian.z, 5);
        }
        other => panic!("unexpected point variant: {:?}", other),
    }

    match &points[1] {
        VelodynePoint::Strongest(tp) => {
            // second firing of the first column: one firing period later,
            // measured from the latter firing's returns
            assert_eq!(tp.timestamp_ns, 7_000 + 55_296);
            assert_eq!(tp.value.spherical.distance_mm, 2000);
        }
        other => panic!("unexpected point variant: {:?}", other),
    }

    match &points[2] {
        VelodynePoint::Strongest(tp) => {
            // first firing of the second column: two firing periods later
            assert_eq!(tp.timestamp_ns, 7_000 + 2 * 55_296);
        }
        other => panic!("unexpected point variant: {:?}", other),
    }
}

#[test]
fn convert_interpolates_across_the_wrap() {
    // adjacent columns at 359 and 1 degree: the gap reads as +2 degrees,
    // so the mid-column firing sits at exactly 360 degrees, not at 180.
    let converter = PointCloudConverter::new(one_channel_config(0));
    let mut columns = Vec::new();
    columns.push(column(35_900, 1000, 1000, 1));
    for _ in 0..11 {
        columns.push(column(100, 1000, 1000, 1));
    }
    let packet = Packet { timestamp: 0, columns, return_mode: ReturnMode::Strongest };
    let points = converter.packet_to_points(&packet).unwrap().into_points();

    // second firing of the first column interpolates half the gap:
    // rotor angle 359 + 1 = 360 degrees, i.e. zero; stored as pi/2 - 0.
    match &points[1] {
        VelodynePoint::Strongest(tp) => {
            assert_eq!(tp.value.spherical.azimuth_angle.units, 432_000);
        }
        other => panic!("unexpected point variant: {:?}", other),
    }
}

#[test]
fn convert_z_moves_with_the_correction() {
    let packet = flat_packet(0, 0, ReturnMode::Strongest);
    let low = PointCloudConverter::new(one_channel_config(5))
        .packet_to_points(&packet)
        .unwrap()
        .into_points();
    let high = PointCloudConverter::new(one_channel_config(1_005))
        .packet_to_points(&packet)
        .unwrap()
        .into_points();
    for (a, b) in low.iter().zip(high.iter()) {
        match (a, b) {
            (VelodynePoint::Strongest(pa), VelodynePoint::Strongest(pb)) => {
                assert_eq!(pb.value.cartesian.z - pa.value.cartesian.z, 1_000);
                assert_eq!(pa.value.cartesian.x, pb.value.cartesian.x);
                assert_eq!(pa.value.cartesian.y, pb.value.cartesian.y);
            }
            other => panic!("unexpected point variants: {:?}", other),
        }
    }
}

#[test]
fn convert_dual_mode_pairs_last_and_strongest() {
    let converter = PointCloudConverter::new(one_channel_config(0));
    let packet = flat_packet(3, 100, ReturnMode::DualReturn);
    let list = converter.packet_to_points(&packet).unwrap();
    assert_eq!(list.mode(), ReturnMode::DualReturn);
    assert_eq!(list.len(), 12); // 12 columns x 1 channel
    let points = list.into_points();

    match &points[0] {
        VelodynePoint::DualReturn(tp) => {
            // one firing per column
            assert_eq!(tp.timestamp_ns, 3_000);
            let (last, strongest) = &tp.value;
            assert_eq!(last.spherical.distance_mm, 1000);
            assert_eq!(strongest.spherical.distance_mm, 2000);
            // dual-return azimuths stay in the encoder's own convention
            assert_eq!(last.spherical.azimuth_angle.units, 4_800);
            assert_eq!(
                last.spherical.azimuth_angle.units,
                strongest.spherical.azimuth_angle.units
            );
        }
        other => panic!("unexpected point variant: {:?}", other),
    }

    match &points[1] {
        VelodynePoint::DualReturn(tp) => {
            assert_eq!(tp.timestamp_ns, 3_000 + 55_296);
        }
        other => panic!("unexpected point variant: {:?}", other),
    }
}
