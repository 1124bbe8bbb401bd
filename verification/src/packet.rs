//! The decoded shape of one Velodyne data packet.
//!
//! Wire decoding is the transport's concern; the types here carry the already
//! decoded values that the converter reads.

use vstd::prelude::*;

verus! {

/// Which echoes of each laser pulse the sensor reports.
#[derive(Clone, Copy, Debug, PartialEq, Eq, Structural)]
pub enum ReturnMode {
    Strongest,
    LastReturn,
    DualReturn,
}

/// One laser's measurement within a firing.
#[derive(Clone, Copy, Debug, PartialEq, Eq, Structural)]
pub struct RawReturn {
    /// Measured distance in millimeters; zero means "no return".
    pub distance_mm: u32,
    /// Reflectivity of the return.
    pub intensity: u8,
}

/// One azimuth sample of the sensor: the raw encoder reading and two firings.
/// In the single-return modes the two firings are one firing period apart; in
/// dual-return mode they are the simultaneous last and strongest returns.
#[derive(Clone, Debug)]
pub struct Column {
    /// Azimuth encoder reading in hundredths of a degree.
    pub azimuth_count: u16,
    pub firing_former: Vec<RawReturn>,
    pub firing_latter: Vec<RawReturn>,
}

impl Column {
    /// The azimuth angle the encoder reading stands for.
    pub fn azimuth_angle(&self) -> (r: crate::angle::Angle)
        ensures
            r.units == crate::angle::wrap_units(
                self.azimuth_count as int * crate::angle::UNITS_PER_COUNT,
            ),
    {
        crate::angle::Angle::from_encoder_counts(self.azimuth_count)
    }
}

/// One decoded data packet.
#[derive(Clone, Debug)]
pub struct Packet {
    /// Capture time on the sensor clock, in microseconds.
    pub timestamp: u32,
    /// The packet's columns; a well-formed packet has `COLUMNS_PER_PACKET`.
    pub columns: Vec<Column>,
    /// The return mode of the whole packet.
    pub return_mode: ReturnMode,
}

} // verus!
