use lidar_utils::angle::Angle;
use lidar_utils::assembler::{Frame, FrameConverter};
use lidar_utils::common::{PointPair, Timestamped};
use lidar_utils::converter::Config;
use lidar_utils::error::Error;
use lidar_utils::packet::{Column, Packet, RawReturn, ReturnMode};
use lidar_utils::point_list::{VelodynePoint, VelodynePointList};

fn single_channel_config() -> Config {
    Config {
        vertical_angles: vec![Angle::from_centidegrees(0)],
        vertical_corrections: vec![0],
    }
}

/// A packet whose 12 columns share one azimuth reading.
fn flat_packet(timestamp: u32, azimuth_count: u16, mode: ReturnMode) -> Packet {
    let mut columns = Vec::new();
    for _ in 0..12 {
        columns.push(Column {
            azimuth_count,
            firing_former: vec![RawReturn { distance_mm: 1000, intensity: 0 }],
            firing_latter: vec![RawReturn { distance_mm: 1000, intensity: 0 }],
        });
    }
    Packet { timestamp, columns, return_mode: mode }
}

/// A packet whose 12 columns sweep one full revolution: 30 degrees each.
fn sweep_packet(timestamp: u32, mode: ReturnMode) -> Packet {
    let mut columns = Vec::new();
    for c in 0..12u16 {
        columns.push(Column {
            azimuth_count: c * 3_000,
            firing_former: vec![RawReturn { distance_mm: 1000, intensity: 0 }],
            firing_latter: vec![RawReturn { distance_mm: 1000, intensity: 0 }],
        });
    }
    Packet { timestamp, columns, return_mode: mode }
}

fn frame_len(frame: &Frame) -> usize {
    frame.points.len()
}

#[test]
fn rpm_validation() {
    assert!(matches!(
        FrameConverter::new(0, true, single_channel_config()),
        Err(Error::ConfigurationError)
    ));
    assert!(matches!(
        FrameConverter::new(61, true, single_channel_config()),
        Err(Error::ConfigurationError)
    ));
    let fc = FrameConverter::new(600, true, single_channel_config()).unwrap();
    assert_eq!(fc.period_per_frame_us(), 100_000);
}

#[test]
fn strict_mode_rejects_stale_packet() {
    let mut fc = FrameConverter::new(600, true, single_channel_config()).unwrap();
    let first = flat_packet(1000, 100, ReturnMode::Strongest);
    let stale = flat_packet(500, 100, ReturnMode::Strongest);
    assert!(fc.push_packet(&first).unwrap().is_empty());
    assert!(matches!(fc.push_packet(&stale), Err(Error::OrderingViolation)));
    // the failed call left the frame in progress untouched
    let frame = fc.finish().unwrap();
    assert_eq!(frame_len(&frame), 24);
}

#[test]
fn lenient_mode_accumulates_stale_packet() {
    let mut fc = FrameConverter::new(600, false, single_channel_config()).unwrap();
    let first = flat_packet(1000, 100, ReturnMode::Strongest);
    let stale = flat_packet(500, 100, ReturnMode::Strongest);
    assert!(fc.push_packet(&first).unwrap().is_empty());
    assert!(fc.push_packet(&stale).unwrap().is_empty());
    let frame = fc.finish().unwrap();
    assert_eq!(frame_len(&frame), 48);
}

#[test]
fn boundary_point_opens_the_next_frame() {
    let mut fc = FrameConverter::new(600, true, single_channel_config()).unwrap();
    // all points of the first packet sit at 1 degree, all of the second at
    // 0.5 degrees: the second packet's first point closes the frame.
    let first = flat_packet(0, 100, ReturnMode::Strongest);
    let second = flat_packet(2_000, 50, ReturnMode::Strongest);
    assert!(fc.push_packet(&first).unwrap().is_empty());
    let frames = fc.push_packet(&second).unwrap();
    assert_eq!(frames.len(), 1);
    // the closed frame holds exactly the first packet's 24 points
    assert_eq!(frame_len(&frames[0]), 24);
    let closed = frames[0].points.clone().into_points();
    assert_eq!(closed[0].timestamp_ns(), 0);
    assert_eq!(closed[23].timestamp_ns(), 11 * 2 * 55_296 + 55_296);
    // the boundary point is the first point of the frame in progress
    let in_progress = fc.finish().unwrap();
    assert_eq!(frame_len(&in_progress), 24);
    let rest = in_progress.points.into_points();
    assert_eq!(rest[0].timestamp_ns(), 2_000_000);
}

#[test]
fn revolution_count_matches_completed_revolutions() {
    // three packets, each sweeping one revolution, half a period apart: the
    // azimuth wrap closes a frame at the start of the second and third
    // packet, and the third revolution stays in progress.
    let mut fc = FrameConverter::new(600, true, single_channel_config()).unwrap();
    let mut completed = 0;
    for k in 0..3u32 {
        let packet = sweep_packet(k * 50_000, ReturnMode::Strongest);
        completed += fc.push_packet(&packet).unwrap().len();
    }
    assert_eq!(completed, 2);
    let partial = fc.finish().unwrap();
    assert_eq!(frame_len(&partial), 24);
}

#[test]
fn elapsed_period_closes_the_frame_without_a_wrap() {
    // identical azimuths forever: only the elapsed-time test can close the
    // frame. At 600 rpm the period is 100_000 us.
    let mut fc = FrameConverter::new(600, true, single_channel_config()).unwrap();
    assert!(fc.push_packet(&flat_packet(0, 100, ReturnMode::Strongest)).unwrap().is_empty());
    let frames = fc.push_packet(&flat_packet(100_000, 100, ReturnMode::Strongest)).unwrap();
    assert_eq!(frames.len(), 1);
    assert_eq!(frame_len(&frames[0]), 24);
}

#[test]
fn dual_return_stream_yields_only_dual_return_frames() {
    let mut fc = FrameConverter::new(600, true, single_channel_config()).unwrap();
    let mut frames = Vec::new();
    frames.extend(fc.push_packet(&sweep_packet(0, ReturnMode::DualReturn)).unwrap());
    frames.extend(fc.push_packet(&sweep_packet(50_000, ReturnMode::DualReturn)).unwrap());
    assert!(!frames.is_empty());
    for frame in &frames {
        assert_eq!(frame.points.mode(), ReturnMode::DualReturn);
    }
    let partial = fc.finish().unwrap();
    assert_eq!(partial.points.mode(), ReturnMode::DualReturn);
}

#[test]
fn mode_switch_mid_stream_is_malformed() {
    let mut fc = FrameConverter::new(600, true, single_channel_config()).unwrap();
    assert!(fc.push_packet(&flat_packet(0, 100, ReturnMode::Strongest)).unwrap().is_empty());
    // same azimuth and close in time, so the first dual point would join the
    // strongest-return frame in progress
    assert!(matches!(
        fc.push_packet(&flat_packet(2_000, 100, ReturnMode::DualReturn)),
        Err(Error::MalformedInput)
    ));
    // the failed packet cleared the state
    assert!(fc.finish().is_none());
}

#[test]
fn point_list_push_checks_the_variant() {
    let mut list = VelodynePointList::new(ReturnMode::DualReturn);
    assert_eq!(list.mode(), ReturnMode::DualReturn);
    assert_eq!(list.len(), 0);

    let pair = lidar_utils::common::make_point(
        1000,
        Angle { units: 0 },
        Angle { units: 432_000 },
        0,
    );
    let last_return = VelodynePoint::LastReturn(Timestamped::<PointPair> {
        value: pair,
        timestamp_ns: 42,
    });
    assert!(matches!(list.push(last_return), Err(Error::MalformedInput)));
    assert_eq!(list.len(), 0);

    let dual = VelodynePoint::DualReturn(Timestamped::<(PointPair, PointPair)> {
        value: (pair, pair),
        timestamp_ns: 42,
    });
    assert!(list.push(dual).is_ok());
    assert_eq!(list.len(), 1);
    assert_eq!(list.mode(), ReturnMode::DualReturn);
}

#[test]
fn point_accessors_report_mode_timestamp_and_azimuth() {
    let pair = lidar_utils::common::make_point(
        500,
        Angle { units: 4_800 },
        Angle { units: 96_000 },
        0,
    );
    let p = VelodynePoint::Strongest(Timestamped::<PointPair> { value: pair, timestamp_ns: 7 });
    assert_eq!(p.timestamp_ns(), 7);
    assert_eq!(p.mode(), ReturnMode::Strongest);
    assert_eq!(p.azimuth_angle().units, 96_000);
}

#[test]
fn finish_without_input_yields_nothing() {
    let fc = FrameConverter::new(60, true, single_channel_config()).unwrap();
    assert_eq!(fc.period_per_frame_us(), 1_000_000);
    assert!(fc.finish().is_none());
}

#[test]
fn empty_calibration_converts_to_empty_frames() {
    let config = Config { vertical_angles: Vec::new(), vertical_corrections: Vec::new() };
    let mut fc = FrameConverter::new(600, true, config).unwrap();
    let mut columns = Vec::new();
    for _ in 0..12 {
        columns.push(Column {
            azimuth_count: 0,
            firing_former: Vec::new(),
            firing_latter: Vec::new(),
        });
    }
    let packet = Packet { timestamp: 0, columns, return_mode: ReturnMode::Strongest };
    assert!(fc.push_packet(&packet).unwrap().is_empty());
    assert!(fc.finish().is_none());
}

#[test]
fn staleness_is_checked_before_the_packet_shape() {
    // a packet that is both stale and malformed fails the ordering check
    // first, leaving the frame in progress untouched
    let mut fc = FrameConverter::new(600, true, single_channel_config()).unwrap();
    assert!(fc.push_packet(&flat_packet(1000, 100, ReturnMode::Strongest)).unwrap().is_empty());
    let mut bad = flat_packet(500, 100, ReturnMode::Strongest);
    bad.columns.pop();
    assert!(matches!(fc.push_packet(&bad), Err(Error::OrderingViolation)));
    let frame = fc.finish().unwrap();
    assert_eq!(frame_len(&frame), 24);
}
