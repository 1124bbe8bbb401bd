//! Conversion of one decoded packet into its list of timestamped points.
//!
//! Every quantity is a fixed-point integer, so the conversion is exact: a
//! column's azimuth gap is a whole number of encoder counts, and one count is
//! 48 angle units while one column spans 48 laser slots, so the interpolated
//! azimuth of every laser slot is a whole number of units.

use crate::angle::{
    lemma_wrap_range, remap_units, wrap_units, Angle, QUARTER_TURN_UNITS, UNITS_PER_COUNT,
    UNITS_PER_TURN,
};
use crate::common::{make_point, point_pair_of, PointPair, Timestamped};
use crate::consts::{
    CHANNEL_PER_FIRING, COLUMNS_PER_PACKET, ENCODER_COUNTS_PER_TURN, FIRINGS_PER_COLUMN,
    FIRING_PERIOD_NS, LASER_RETURN_PERIOD_NS, LASER_SLOTS_PER_FIRING, MAX_CHANNELS,
};
use crate::error::Error;
use crate::packet::{Packet, ReturnMode};
use crate::point_list::{VelodynePoint, VelodynePointList};
use vstd::arithmetic::div_mod::lemma_fundamental_div_mod_converse;
use vstd::prelude::*;

verus! {

/// Per-sensor calibration: one vertical angle and one vertical correction per
/// laser channel. Both lists have the sensor-defined channel count.
#[derive(Clone, Debug)]
pub struct Config {
    /// Vertical (altitude) angle of each laser.
    pub vertical_angles: Vec<Angle>,
    /// Vertical correction of each laser in micrometers.
    pub vertical_corrections: Vec<i32>,
}

impl Config {
    /// Both per-channel lists agree on the channel count, and the count stays
    /// within the converter's arithmetic.
    pub open spec fn wf(self) -> bool {
        &&& self.vertical_angles@.len() == self.vertical_corrections@.len()
        &&& self.vertical_angles@.len() <= MAX_CHANNELS
    }

    pub open spec fn spec_channels(self) -> int {
        self.vertical_angles@.len() as int
    }

    /// The channel count the calibration was made for.
    pub fn channels(&self) -> (r: usize)
        ensures
            r == self.spec_channels(),
    {
        self.vertical_angles.len()
    }

    /// Calibration of a VLP-16 sensor.
    pub fn vlp_16_config() -> (r: Config)
        ensures
            r.wf(),
            r.spec_channels() == CHANNEL_PER_FIRING,
            config_matches_table(r, vlp_16_vertical_centidegrees(), vlp_16_corrections_um()),
    {
        let r = Config {
            vertical_angles: centidegree_angles(
                vec![
                    -1500, 100, -1300, 300, -1100, 500, -900, 700, -700, 900, -500, 1100, -300,
                    1300, -100, 1500,
                ],
            ),
            vertical_corrections: vec![
                11_200, -700, 9_700, -2_200, 8_100, -3_700, 6_600, -5_100, 5_100, -6_600, 3_700,
                -8_100, 2_200, -9_700, 700, -11_200,
            ],
        };
        proof {
            assert forall|i: int| 0 <= i < 16 implies (#[trigger] r.vertical_corrections@[i]) as int == vlp_16_corrections_um()[i] by {}
            assert forall|i: int| 0 <= i < 16 implies (#[trigger] r.vertical_angles@[i]).units
                == vlp_16_vertical_centidegrees()[i] * UNITS_PER_COUNT by {}
        }
        r
    }

    /// Calibration of a Puck LITE sensor (the VLP-16 geometry).
    pub fn puke_lite_config() -> (r: Config)
        ensures
            r.wf(),
            r.spec_channels() == CHANNEL_PER_FIRING,
            config_matches_table(r, vlp_16_vertical_centidegrees(), vlp_16_corrections_um()),
    {
        Config::vlp_16_config()
    }

    /// Calibration of a Puck Hi-Res sensor.
    pub fn puke_hi_res_config() -> (r: Config)
        ensures
            r.wf(),
            r.spec_channels() == CHANNEL_PER_FIRING,
            config_matches_table(
                r,
                puke_hi_res_vertical_centidegrees(),
                puke_hi_res_corrections_um(),
            ),
    {
        let r = Config {
            vertical_angles: centidegree_angles(
                vec![
                    -1000, 67, -867, 200, -733, 333, -600, 467, -467, 600, -333, 733, -200, 867,
                    -67, 1000,
                ],
            ),
            vertical_corrections: vec![
                7_400, -900, 6_500, -1_800, 5_500, -2_700, 4_600, -3_700, 3_700, -4_600, 2_700,
                -5_500, 1_800, -6_500, 900, -7_400,
            ],
        };
        proof {
            assert forall|i: int| 0 <= i < 16 implies (#[trigger] r.vertical_corrections@[i]) as int == puke_hi_res_corrections_um()[i] by {}
            assert forall|i: int| 0 <= i < 16 implies (#[trigger] r.vertical_angles@[i]).units
                == puke_hi_res_vertical_centidegrees()[i] * UNITS_PER_COUNT by {}
        }
        r
    }
}

/// Whether the calibration holds exactly the given laser table: vertical
/// angles of `centidegrees[i]` hundredths of a degree and corrections of
/// `corrections_um[i]` micrometers, channel by channel.
pub open spec fn config_matches_table(
    cfg: Config,
    centidegrees: Seq<int>,
    corrections_um: Seq<int>,
) -> bool {
    &&& cfg.vertical_angles@.len() == centidegrees.len()
    &&& cfg.vertical_corrections@.len() == corrections_um.len()
    &&& forall|i: int|
        0 <= i < centidegrees.len() ==> (#[trigger] cfg.vertical_angles@[i]).units
            == centidegrees[i] * UNITS_PER_COUNT
    &&& forall|i: int|
        0 <= i < corrections_um.len() ==> (#[trigger] cfg.vertical_corrections@[i]) as int
            == corrections_um[i]
}

/// The documented VLP-16 laser table (also the Puck LITE's): vertical angles
/// in hundredths of a degree, lasers in firing order.
pub open spec fn vlp_16_vertical_centidegrees() -> Seq<int> {
    seq![
        -1500, 100, -1300, 300, -1100, 500, -900, 700, -700, 900, -500, 1100, -300, 1300, -100,
        1500,
    ]
}

/// The documented VLP-16 vertical corrections in micrometers.
pub open spec fn vlp_16_corrections_um() -> Seq<int> {
    seq![
        11_200, -700, 9_700, -2_200, 8_100, -3_700, 6_600, -5_100, 5_100, -6_600, 3_700, -8_100,
        2_200, -9_700, 700, -11_200,
    ]
}

/// The documented Puck Hi-Res laser table: vertical angles in hundredths of a
/// degree, lasers in firing order.
pub open spec fn puke_hi_res_vertical_centidegrees() -> Seq<int> {
    seq![
        -1000, 67, -867, 200, -733, 333, -600, 467, -467, 600, -333, 733, -200, 867, -67, 1000,
    ]
}

/// The documented Puck Hi-Res vertical corrections in micrometers.
pub open spec fn puke_hi_res_corrections_um() -> Seq<int> {
    seq![
        7_400, -900, 6_500, -1_800, 5_500, -2_700, 4_600, -3_700, 3_700, -4_600, 2_700, -5_500,
        1_800, -6_500, 900, -7_400,
    ]
}

/// The angles of a list of hundredths of a degree.
fn centidegree_angles(counts: Vec<i32>) -> (r: Vec<Angle>)
    ensures
        r@.len() == counts@.len(),
        forall|i: int|
            0 <= i < counts@.len() ==> r@[i].units == counts@[i] as int * UNITS_PER_COUNT,
{
    let mut out: Vec<Angle> = Vec::new();
    let mut i: usize = 0;
    while i < counts.len()
        invariant
            i <= counts@.len(),
            out@.len() == i,
            forall|j: int|
                0 <= j < i ==> out@[j].units == counts@[j] as int * UNITS_PER_COUNT,
        decreases counts@.len() - i,
    {
        out.push(Angle::from_centidegrees(counts[i]));
        i = i + 1;
    }
    out
}

/// A column's azimuth encoder reading folded into one revolution, in counts.
pub open spec fn col_count(pkt: Packet, c: int) -> int {
    (pkt.columns@[c].azimuth_count as int) % (ENCODER_COUNTS_PER_TURN as int)
}

/// The forward gap from `curr` to `next` on the encoder circle, in counts:
/// when `next` has wrapped past zero, one full turn is added.
pub open spec fn gap_counts(curr: int, next: int) -> int {
    if next >= curr {
        next - curr
    } else {
        next - curr + ENCODER_COUNTS_PER_TURN
    }
}

/// The forward gap never reaches a full turn, and walking it from `curr`
/// lands exactly on `next` modulo one revolution: a wrap from a high azimuth
/// to a low one is read as a small forward step, never as a large backward
/// one.
pub proof fn lemma_gap_wraps_forward(curr: int, next: int)
    requires
        0 <= curr < ENCODER_COUNTS_PER_TURN,
        0 <= next < ENCODER_COUNTS_PER_TURN,
    ensures
        0 <= gap_counts(curr, next) < ENCODER_COUNTS_PER_TURN,
        (curr + gap_counts(curr, next)) % (ENCODER_COUNTS_PER_TURN as int) == next,
{
    let t = ENCODER_COUNTS_PER_TURN as int;
    if next >= curr {
        lemma_fundamental_div_mod_converse(curr + gap_counts(curr, next), t, 0, next);
    } else {
        lemma_fundamental_div_mod_converse(curr + gap_counts(curr, next), t, 1, next);
    }
}

/// The azimuth gap used to interpolate within column `c`: the gap to the next
/// column, or for the last column the gap between the two columns before it.
pub open spec fn col_gap(pkt: Packet, c: int) -> int {
    let ncols = pkt.columns@.len() as int;
    if c + 1 < ncols {
        gap_counts(col_count(pkt, c), col_count(pkt, c + 1))
    } else {
        gap_counts(col_count(pkt, ncols - 2), col_count(pkt, ncols - 1))
    }
}

/// Column `c` of the packet has exactly one return per channel in both of
/// its firings.
pub open spec fn column_shape_ok(pkt: Packet, c: int, n: int) -> bool {
    &&& pkt.columns@[c].firing_former@.len() == n
    &&& pkt.columns@[c].firing_latter@.len() == n
}

/// A packet's shape agrees with the calibration: the fixed column count, and
/// every firing of every column has exactly one return per channel.
pub open spec fn packet_shape_ok(pkt: Packet, cfg: Config) -> bool {
    &&& pkt.columns@.len() == COLUMNS_PER_PACKET
    &&& forall|c: int|
        0 <= c < pkt.columns@.len() ==> #[trigger] column_shape_ok(pkt, c, cfg.spec_channels())
}

/// When channel `ch` of firing `f` of column `c` measured, in nanoseconds:
/// each column spans two firing periods and each channel fires one laser
/// return period after the one before it.
pub open spec fn single_ts(pkt: Packet, c: int, f: int, ch: int) -> u64 {
    (pkt.timestamp as int * 1000 + c * 2 * (FIRING_PERIOD_NS as int) + f * (
    FIRING_PERIOD_NS as int) + ch * (LASER_RETURN_PERIOD_NS as int)) as u64
}

/// When channel `ch` of dual-return column `c` measured, in nanoseconds: the
/// two simultaneous returns share one firing per column.
pub open spec fn dual_ts(pkt: Packet, c: int, ch: int) -> u64 {
    (pkt.timestamp as int * 1000 + c * (FIRING_PERIOD_NS as int) + ch * (
    LASER_RETURN_PERIOD_NS as int)) as u64
}

/// The stored azimuth of a single-return point: the column's azimuth plus the
/// gap share of the point's laser slot (slot `24 * f + ch` of the 48 slots of
/// the column), remapped from the clockwise encoder convention to the
/// standard counter-clockwise one.
pub open spec fn single_azimuth(pkt: Packet, c: int, f: int, ch: int) -> Angle {
    let raw = col_count(pkt, c) * UNITS_PER_COUNT + col_gap(pkt, c) * (LASER_SLOTS_PER_FIRING * f
        + ch);
    Angle { units: remap_units(raw) as i64 }
}

/// The stored azimuth of a dual-return point: one firing per column, so the
/// slot share is `ch` of 24 slots, and the angle is folded into one turn but
/// kept in the sensor's own convention.
pub open spec fn dual_azimuth(pkt: Packet, c: int, ch: int) -> Angle {
    let raw = col_count(pkt, c) * UNITS_PER_COUNT + col_gap(pkt, c) * 2 * ch;
    Angle { units: wrap_units(raw) as i64 }
}

/// The converted point of channel `ch`, firing `f`, column `c` of a
/// single-return packet.
pub open spec fn single_pair(pkt: Packet, cfg: Config, c: int, f: int, ch: int) -> Timestamped<
    PointPair,
> {
    let dist = if f == 0 {
        pkt.columns@[c].firing_former@[ch].distance_mm
    } else {
        pkt.columns@[c].firing_latter@[ch].distance_mm
    };
    Timestamped {
        value: point_pair_of(
            dist,
            single_azimuth(pkt, c, f, ch),
            cfg.vertical_angles@[ch],
            cfg.vertical_corrections@[ch],
        ),
        timestamp_ns: single_ts(pkt, c, f, ch),
    }
}

/// The converted point of channel `ch`, column `c` of a dual-return packet:
/// the last return and the strongest return share one azimuth and timestamp.
pub open spec fn dual_pair(pkt: Packet, cfg: Config, c: int, ch: int) -> Timestamped<
    (PointPair, PointPair),
> {
    let az = dual_azimuth(pkt, c, ch);
    let last = point_pair_of(
        pkt.columns@[c].firing_former@[ch].distance_mm,
        az,
        cfg.vertical_angles@[ch],
        cfg.vertical_corrections@[ch],
    );
    let strongest = point_pair_of(
        pkt.columns@[c].firing_latter@[ch].distance_mm,
        az,
        cfg.vertical_angles@[ch],
        cfg.vertical_corrections@[ch],
    );
    Timestamped { value: (last, strongest), timestamp_ns: dual_ts(pkt, c, ch) }
}

/// The point at flat position `j` of a converted single-return packet; points
/// are ordered by column, then firing, then channel.
pub open spec fn single_pair_at(pkt: Packet, cfg: Config, j: int) -> Timestamped<PointPair> {
    let n = cfg.spec_channels();
    let c = j / (2 * n);
    let rem = j % (2 * n);
    single_pair(pkt, cfg, c, rem / n, rem % n)
}

/// The point at flat position `j` of a converted dual-return packet; points
/// are ordered by column, then channel.
pub open spec fn dual_pair_at(pkt: Packet, cfg: Config, j: int) -> Timestamped<
    (PointPair, PointPair),
> {
    let n = cfg.spec_channels();
    dual_pair(pkt, cfg, j / n, j % n)
}

/// Every point of the packet, in conversion order, each tagged with the
/// packet's return mode.
pub open spec fn convert_points(pkt: Packet, cfg: Config) -> Seq<VelodynePoint> {
    let n = cfg.spec_channels();
    match pkt.return_mode {
        ReturnMode::DualReturn => Seq::new(
            (pkt.columns@.len() * n) as nat,
            |j: int| VelodynePoint::DualReturn(dual_pair_at(pkt, cfg, j)),
        ),
        ReturnMode::Strongest => Seq::new(
            (pkt.columns@.len() * 2 * n) as nat,
            |j: int| VelodynePoint::Strongest(single_pair_at(pkt, cfg, j)),
        ),
        ReturnMode::LastReturn => Seq::new(
            (pkt.columns@.len() * 2 * n) as nat,
            |j: int| VelodynePoint::LastReturn(single_pair_at(pkt, cfg, j)),
        ),
    }
}

/// Every converted point stores an azimuth already folded into one turn.
pub proof fn lemma_convert_azimuth_range(pkt: Packet, cfg: Config, j: int)
    requires
        0 <= j < convert_points(pkt, cfg).len(),
    ensures
        0 <= convert_points(pkt, cfg)[j].spec_azimuth_angle().units < UNITS_PER_TURN,
{
    let n = cfg.spec_channels();
    match pkt.return_mode {
        ReturnMode::DualReturn => {
            lemma_wrap_range(
                col_count(pkt, j / n) * UNITS_PER_COUNT + col_gap(pkt, j / n) * 2 * (j % n),
            );
        },
        _ => {
            let c = j / (2 * n);
            let rem = j % (2 * n);
            lemma_wrap_range(
                QUARTER_TURN_UNITS - (col_count(pkt, c) * UNITS_PER_COUNT + col_gap(pkt, c) * (
                LASER_SLOTS_PER_FIRING * (rem / n) + rem % n)),
            );
        },
    }
}

/// Decomposing the flat position of (column, firing, channel) gives the
/// triple back.
proof fn lemma_flat_index(c: int, f: int, ch: int, n: int)
    requires
        n >= 1,
        0 <= c,
        0 <= f < 2,
        0 <= ch < n,
    ensures
        (c * (2 * n) + f * n + ch) / (2 * n) == c,
        (c * (2 * n) + f * n + ch) % (2 * n) == f * n + ch,
        (f * n + ch) / n == f,
        (f * n + ch) % n == ch,
{
    let j = c * (2 * n) + f * n + ch;
    assert(0 <= f * n + ch < 2 * n) by (nonlinear_arith)
        requires
            0 <= f < 2,
            0 <= ch < n,
    ;
    lemma_fundamental_div_mod_converse(j, 2 * n, c, f * n + ch);
    lemma_fundamental_div_mod_converse(f * n + ch, n, f, ch);
}

/// A struct that converts raw packets to point cloud data.
#[derive(Clone, Debug)]
pub struct PointCloudConverter {
    config: Config,
}

impl PointCloudConverter {
    pub closed spec fn spec_config(self) -> Config {
        self.config
    }

    pub open spec fn wf(self) -> bool {
        self.spec_config().wf()
    }

    /// A converter for the given per-laser calibration.
    pub fn new(config: Config) -> (r: Self)
        requires
            config.wf(),
        ensures
            r.spec_config() == config,
    {
        Self { config }
    }

    /// The azimuth gap used to interpolate within column `c`, in encoder
    /// counts.
    fn column_gap(packet: &Packet, c: usize) -> (r: u16)
        requires
            packet.columns@.len() >= 2,
            c < packet.columns@.len(),
        ensures
            r as int == col_gap(*packet, c as int),
            r < ENCODER_COUNTS_PER_TURN,
    {
        let ncols = packet.columns.len();
        let (i, k) = if c + 1 < ncols {
            (c, c + 1)
        } else {
            (ncols - 2, ncols - 1)
        };
        let a: u32 = (packet.columns[i].azimuth_count as u32) % 36_000;
        let b: u32 = (packet.columns[k].azimuth_count as u32) % 36_000;
        let g: u32 = if b >= a {
            b - a
        } else {
            b + 36_000 - a
        };
        g as u16
    }

    /// Converts one packet into its points.
    ///
    /// Succeeds exactly when the packet's shape agrees with the calibration;
    /// the points then are, in order, the converted returns of every column,
    /// firing and channel, and the list's mode is the packet's.
    pub fn packet_to_points(&self, packet: &Packet) -> (r: Result<VelodynePointList, Error>)
        requires
            self.wf(),
        ensures
            packet_shape_ok(*packet, self.spec_config()) ==> (r matches Ok(list)
                && list.spec_mode() == packet.return_mode && list.spec_points() == convert_points(
                *packet,
                self.spec_config(),
            )),
            !packet_shape_ok(*packet, self.spec_config()) ==> r == Err::<
                VelodynePointList,
                Error,
            >(Error::MalformedInput),
    {
        let ghost cfg = self.spec_config();
        let n = self.config.vertical_angles.len();
        let ncols = packet.columns.len();
        if ncols != COLUMNS_PER_PACKET {
            return Err(Error::MalformedInput);
        }
        let mut c: usize = 0;
        while c < ncols
            invariant
                self.wf(),
                cfg == self.spec_config(),
                n == cfg.spec_channels(),
                ncols == packet.columns@.len(),
                ncols == COLUMNS_PER_PACKET,
                c <= ncols,
                forall|i: int| 0 <= i < c ==> #[trigger] column_shape_ok(*packet, i, n as int),
            decreases ncols - c,
        {
            let col = &packet.columns[c];
            if col.firing_former.len() != n || col.firing_latter.len() != n {
                proof {
                    assert(!column_shape_ok(*packet, c as int, n as int));
                }
                return Err(Error::MalformedInput);
            }
            proof {
                assert(column_shape_ok(*packet, c as int, n as int));
            }
            c = c + 1;
        }
        assert(packet_shape_ok(*packet, cfg));
        if packet.return_mode == ReturnMode::DualReturn {
            let mut pts: Vec<Timestamped<(PointPair, PointPair)>> = Vec::new();
            let mut c: usize = 0;
            while c < ncols
                invariant
                    self.wf(),
                    cfg == self.spec_config(),
                    n == cfg.spec_channels(),
                    ncols == packet.columns@.len(),
                    ncols == COLUMNS_PER_PACKET,
                    packet_shape_ok(*packet, cfg),
                    c <= ncols,
                    pts@.len() == c * n,
                    forall|j: int| 0 <= j < pts@.len() ==> pts@[j] == dual_pair_at(*packet, cfg, j),
                decreases ncols - c,
            {
                let gap = Self::column_gap(packet, c);
                let col = &packet.columns[c];
                proof {
                    assert(column_shape_ok(*packet, c as int, n as int));
                }
                let base: u32 = (col.azimuth_count as u32) % 36_000;
                let mut ch: usize = 0;
                while ch < n
                    invariant
                        self.wf(),
                        cfg == self.spec_config(),
                        n == cfg.spec_channels(),
                        ncols == packet.columns@.len(),
                        ncols == COLUMNS_PER_PACKET,
                        packet_shape_ok(*packet, cfg),
                        c < ncols,
                        ch <= n,
                        pts@.len() == c * n + ch,
                        gap as int == col_gap(*packet, c as int),
                        gap < ENCODER_COUNTS_PER_TURN,
                        base == col_count(*packet, c as int),
                        col == packet.columns@[c as int],
                        col.firing_former@.len() == n,
                        col.firing_latter@.len() == n,
                        forall|j: int|
                            0 <= j < pts@.len() ==> pts@[j] == dual_pair_at(*packet, cfg, j),
                    decreases n - ch,
                {
                    proof {
                        assert(0 <= (gap as int) * 2 * (ch as int) <= 36_000 * 2 * 4_096)
                            by (nonlinear_arith)
                            requires
                                0 <= gap as int <= 36_000,
                                0 <= ch as int <= 4_096,
                        ;
                    }
                    let raw: i64 = (base as i64) * UNITS_PER_COUNT + (gap as i64) * 2 * (
                    ch as i64);
                    let az = Angle { units: raw }.wrap_to_2pi();
                    let vert = self.config.vertical_angles[ch];
                    let corr = self.config.vertical_corrections[ch];
                    let last = make_point(col.firing_former[ch].distance_mm, vert, az, corr);
                    let strongest = make_point(col.firing_latter[ch].distance_mm, vert, az, corr);
                    let ts: u64 = (packet.timestamp as u64) * 1000 + (c as u64) * FIRING_PERIOD_NS
                        + (ch as u64) * LASER_RETURN_PERIOD_NS;
                    let pt = Timestamped { value: (last, strongest), timestamp_ns: ts };
                    proof {
                        lemma_fundamental_div_mod_converse(
                            (c * n + ch) as int,
                            n as int,
                            c as int,
                            ch as int,
                        );
                        assert(az == dual_azimuth(*packet, c as int, ch as int));
                        assert(pt == dual_pair(*packet, cfg, c as int, ch as int));
                    }
                    pts.push(pt);
                    ch = ch + 1;
                }
                proof {
                    assert((c as int + 1) * (n as int) == c as int * (n as int) + n as int)
                        by (nonlinear_arith);
                }
                c = c + 1;
            }
            let list = VelodynePointList::DualReturn(pts);
            proof {
                assert(pts@.len() == packet.columns@.len() * cfg.spec_channels());
                assert(list.spec_points() =~= convert_points(*packet, cfg));
            }
            Ok(list)
        } else {
            let mut pts: Vec<Timestamped<PointPair>> = Vec::new();
            let mut c: usize = 0;
            while c < ncols
                invariant
                    self.wf(),
                    cfg == self.spec_config(),
                    n == cfg.spec_channels(),
                    ncols == packet.columns@.len(),
                    ncols == COLUMNS_PER_PACKET,
                    packet_shape_ok(*packet, cfg),
                    c <= ncols,
                    pts@.len() == c * (2 * n),
                    forall|j: int|
                        0 <= j < pts@.len() ==> pts@[j] == single_pair_at(*packet, cfg, j),
                decreases ncols - c,
            {
                let gap = Self::column_gap(packet, c);
                let col = &packet.columns[c];
                proof {
                    assert(column_shape_ok(*packet, c as int, n as int));
                }
                let base: u32 = (col.azimuth_count as u32) % 36_000;
                let mut f: usize = 0;
                while f < FIRINGS_PER_COLUMN
                    invariant
                        self.wf(),
                        cfg == self.spec_config(),
                        n == cfg.spec_channels(),
                        ncols == packet.columns@.len(),
                        ncols == COLUMNS_PER_PACKET,
                        packet_shape_ok(*packet, cfg),
                        c < ncols,
                        f <= FIRINGS_PER_COLUMN,
                        pts@.len() == c * (2 * n) + f * n,
                        gap as int == col_gap(*packet, c as int),
                        gap < ENCODER_COUNTS_PER_TURN,
                        base == col_count(*packet, c as int),
                        col == packet.columns@[c as int],
                        col.firing_former@.len() == n,
                        col.firing_latter@.len() == n,
                        forall|j: int|
                            0 <= j < pts@.len() ==> pts@[j] == single_pair_at(*packet, cfg, j),
                    decreases FIRINGS_PER_COLUMN - f,
                {
                    let mut ch: usize = 0;
                    while ch < n
                        invariant
                            self.wf(),
                            cfg == self.spec_config(),
                            n == cfg.spec_channels(),
                            ncols == packet.columns@.len(),
                            ncols == COLUMNS_PER_PACKET,
                            packet_shape_ok(*packet, cfg),
                            c < ncols,
                            f < FIRINGS_PER_COLUMN,
                            ch <= n,
                            pts@.len() == c * (2 * n) + f * n + ch,
                            gap as int == col_gap(*packet, c as int),
                            gap < ENCODER_COUNTS_PER_TURN,
                            base == col_count(*packet, c as int),
                            col == packet.columns@[c as int],
                            col.firing_former@.len() == n,
                            col.firing_latter@.len() == n,
                            forall|j: int|
                                0 <= j < pts@.len() ==> pts@[j] == single_pair_at(*packet, cfg, j),
                        decreases n - ch,
                    {
                        let slot: i64 = LASER_SLOTS_PER_FIRING * (f as i64) + (ch as i64);
                        proof {
                            assert(0 <= (gap as int) * (slot as int) <= 36_000 * 4_120)
                                by (nonlinear_arith)
                                requires
                                    0 <= gap as int <= 36_000,
                                    0 <= slot as int <= 4_120,
                            ;
                        }
                        let raw: i64 = (base as i64) * UNITS_PER_COUNT + (gap as i64) * slot;
                        let az = crate::angle::remap_angle(Angle { units: raw });
                        let vert = self.config.vertical_angles[ch];
                        let corr = self.config.vertical_corrections[ch];
                        let dist = if f == 0 {
                            col.firing_former[ch].distance_mm
                        } else {
                            col.firing_latter[ch].distance_mm
                        };
                        let pair = make_point(dist, vert, az, corr);
                        let ts: u64 = (packet.timestamp as u64) * 1000 + (c as u64) * 2
                            * FIRING_PERIOD_NS + (f as u64) * FIRING_PERIOD_NS + (ch as u64)
                            * LASER_RETURN_PERIOD_NS;
                        let pt = Timestamped { value: pair, timestamp_ns: ts };
                        proof {
                            lemma_flat_index(c as int, f as int, ch as int, n as int);
                            assert(az == single_azimuth(*packet, c as int, f as int, ch as int));
                            assert(pt == single_pair(*packet, cfg, c as int, f as int, ch as int));
                            assert(pt == single_pair_at(*packet, cfg, pts@.len() as int));
                        }
                        pts.push(pt);
                        ch = ch + 1;
                    }
                    proof {
                        assert((f as int + 1) * (n as int) == f as int * (n as int) + n as int)
                            by (nonlinear_arith);
                    }
                    f = f + 1;
                }
                proof {
                    assert((c as int + 1) * (2 * n as int) == c as int * (2 * n as int) + 2 * (
                    n as int)) by (nonlinear_arith);
                }
                c = c + 1;
            }
            let list = if packet.return_mode == ReturnMode::Strongest {
                VelodynePointList::Strongest(pts)
            } else {
                VelodynePointList::LastReturn(pts)
            };
            proof {
                assert(pts@.len() == c * (2 * n));
                assert(c as int * (2 * n as int) == packet.columns@.len() * 2 * (n as int))
                    by (nonlinear_arith)
                    requires
                        c as int == packet.columns@.len(),
                ;
                assert(pts@.len() == packet.columns@.len() * 2 * cfg.spec_channels());
                assert(list.spec_points() =~= convert_points(*packet, cfg));
            }
            Ok(list)
        }
    }
}

} // verus!
