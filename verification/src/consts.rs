//! Sensor constants shared by the packet layout and the conversion code.

use vstd::prelude::*;

verus! {

/// Number of laser channels fired together in one firing of a VLP-16 head.
pub const CHANNEL_PER_FIRING: usize = 16;

/// Number of encoder columns carried by one data packet.
pub const COLUMNS_PER_PACKET: usize = 12;

/// Number of firings folded into one column in the single-return modes.
pub const FIRINGS_PER_COLUMN: usize = 2;

/// Largest channel count a calibration may declare. Real sensor heads stay
/// far below this; the cap keeps every per-point time and angle offset
/// within the fixed-width arithmetic of the converter.
pub const MAX_CHANNELS: usize = 4096;

/// Duration of one firing in nanoseconds (55.296 microseconds).
pub const FIRING_PERIOD_NS: u64 = 55_296;

/// Delay between two successive laser returns of one firing, in nanoseconds
/// (2.304 microseconds).
pub const LASER_RETURN_PERIOD_NS: u64 = 2_304;

/// Number of laser-return slots in one firing period:
/// `FIRING_PERIOD_NS / LASER_RETURN_PERIOD_NS`.
pub const LASER_SLOTS_PER_FIRING: i64 = 24;

/// Number of positions the azimuth encoder reports per revolution: one count
/// is one hundredth of a degree.
pub const ENCODER_COUNTS_PER_TURN: u16 = 36_000;

} // verus!
