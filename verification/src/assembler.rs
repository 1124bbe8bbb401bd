//! Streaming reassembly of the packet stream into per-revolution frames.
//!
//! The assembler folds the points of each packet, in order, into a single
//! in-progress frame. A point closes the frame when its rotor angle has
//! stepped back past zero or when the frame has lasted one full revolution
//! period; the closing point is not part of the closed frame but becomes the
//! first point of the next one.

use crate::angle::{remap_angle, remap_units, Angle};
use crate::converter::{
    convert_points, packet_shape_ok, Config, PointCloudConverter,
};
use crate::error::Error;
use crate::packet::{Packet, ReturnMode};
use crate::point_list::{VelodynePoint, VelodynePointList};
use vstd::prelude::*;

verus! {

/// The frame of points of one sensor revolution, handed out by
/// [`FrameConverter`].
#[derive(Clone, Debug)]
pub struct Frame {
    pub points: VelodynePointList,
}

/// The mathematical content of a point list: the mode its points share and
/// the points in order.
pub struct PointListModel {
    pub mode: ReturnMode,
    pub pts: Seq<VelodynePoint>,
}

impl Frame {
    pub open spec fn model(self) -> PointListModel {
        PointListModel { mode: self.points.spec_mode(), pts: self.points.spec_points() }
    }
}

/// The assembler's boundary-detection state between two points.
pub struct StateModel {
    /// Rotor angle of the last processed point.
    pub last_azimuth_angle: Angle,
    /// Timestamp of the last processed point, in nanoseconds.
    pub last_point_timestamp_ns: u64,
    /// Timestamp of the first point of the frame in progress, in nanoseconds.
    pub last_frame_timestamp_ns: u64,
    /// The frame in progress.
    pub frame: Option<PointListModel>,
}

/// The rotor angle used for the boundary test: the point's stored azimuth
/// mapped back into the sensor's own clockwise convention.
pub open spec fn boundary_azimuth(p: VelodynePoint) -> Angle {
    Angle { units: remap_units(p.spec_azimuth_angle().units as int) as i64 }
}

/// Nanoseconds from the current frame's first point to `ts`; zero when `ts`
/// lies before it.
pub open spec fn elapsed_ns(ts: u64, anchor: u64) -> u64 {
    if ts >= anchor {
        (ts - anchor) as u64
    } else {
        0
    }
}

/// Whether point `p` closes the frame in progress: its rotor angle stepped
/// back past zero, or the frame has lasted one full revolution period.
pub open spec fn closes_frame(st: StateModel, p: VelodynePoint, period_ns: u64) -> bool {
    ||| boundary_azimuth(p).units < st.last_azimuth_angle.units
    ||| elapsed_ns(p.spec_timestamp_ns(), st.last_frame_timestamp_ns) >= period_ns
}

/// The state after the very first point, or after a point that starts a new
/// revolution: a fresh frame holding only `p`, anchored at `p`'s timestamp.
pub open spec fn fresh_state(p: VelodynePoint) -> StateModel {
    StateModel {
        last_azimuth_angle: boundary_azimuth(p),
        last_point_timestamp_ns: p.spec_timestamp_ns(),
        last_frame_timestamp_ns: p.spec_timestamp_ns(),
        frame: Some(PointListModel { mode: p.spec_mode(), pts: seq![p] }),
    }
}

/// Folds one point into the assembler state: possibly closes and emits the
/// frame in progress, then appends the point to the remaining frame or seeds
/// a fresh one with it. Fails when the point's mode disagrees with the frame
/// it would join.
pub open spec fn step(st: StateModel, p: VelodynePoint, period_ns: u64) -> Result<
    (StateModel, Option<PointListModel>),
    Error,
> {
    let close = closes_frame(st, p, period_ns);
    let emitted = if close {
        st.frame
    } else {
        Option::<PointListModel>::None
    };
    let remaining = if close {
        Option::<PointListModel>::None
    } else {
        st.frame
    };
    match remaining {
        Some(fr) => if p.spec_mode() == fr.mode {
            Ok(
                (
                    StateModel {
                        last_azimuth_angle: boundary_azimuth(p),
                        last_point_timestamp_ns: p.spec_timestamp_ns(),
                        last_frame_timestamp_ns: st.last_frame_timestamp_ns,
                        frame: Some(PointListModel { mode: fr.mode, pts: fr.pts.push(p) }),
                    },
                    emitted,
                ),
            )
        } else {
            Err(Error::MalformedInput)
        },
        None => Ok((fresh_state(p), emitted)),
    }
}

/// Folds a sequence of points into the assembler state, collecting the frames
/// emitted along the way in order.
pub open spec fn run(st: Option<StateModel>, pts: Seq<VelodynePoint>, period_ns: u64) -> Result<
    (Option<StateModel>, Seq<PointListModel>),
    Error,
>
    decreases pts.len(),
{
    if pts.len() == 0 {
        Ok((st, Seq::<PointListModel>::empty()))
    } else {
        let p = pts.last();
        match run(st, pts.drop_last(), period_ns) {
            Err(e) => Err(e),
            Ok((st1, emitted)) => match st1 {
                None => Ok((Some(fresh_state(p)), emitted)),
                Some(s) => match step(s, p, period_ns) {
                    Err(e) => Err(e),
                    Ok((s2, em)) => match em {
                        None => Ok((Some(s2), emitted)),
                        Some(fr) => Ok((Some(s2), emitted.push(fr))),
                    },
                },
            },
        }
    }
}

/// Whether the packet's capture time precedes the last point the assembler
/// has seen.
pub open spec fn stale_packet(st: Option<StateModel>, pkt: Packet) -> bool {
    match st {
        None => false,
        Some(s) => (pkt.timestamp as int) * 1000 < s.last_point_timestamp_ns,
    }
}

/// Once the fold has failed on a prefix, it fails on the whole sequence with
/// the same error.
proof fn lemma_run_err_stays(
    st: Option<StateModel>,
    pts: Seq<VelodynePoint>,
    period_ns: u64,
    i: int,
)
    requires
        0 <= i <= pts.len(),
        run(st, pts.take(i), period_ns) is Err,
    ensures
        run(st, pts, period_ns) == run(st, pts.take(i), period_ns),
    decreases pts.len() - i,
{
    if i == pts.len() {
        assert(pts.take(i) =~= pts);
    } else {
        assert(pts.take(i + 1).drop_last() =~= pts.take(i));
        assert(pts.take(i + 1).last() == pts[i]);
        lemma_run_err_stays(st, pts, period_ns, i + 1);
    }
}

/// The point that closes a frame never joins the closed frame: the frame is
/// emitted exactly as it stood, and the closing point becomes the first (and
/// only) point of the frame in progress, which is anchored at its timestamp.
pub proof fn lemma_boundary_point_starts_next_frame(
    st: StateModel,
    p: VelodynePoint,
    period_ns: u64,
)
    requires
        closes_frame(st, p, period_ns),
    ensures
        step(st, p, period_ns) == Ok::<(StateModel, Option<PointListModel>), Error>(
            (fresh_state(p), st.frame),
        ),
        fresh_state(p).frame == Some(PointListModel { mode: p.spec_mode(), pts: seq![p] }),
        fresh_state(p).last_frame_timestamp_ns == p.spec_timestamp_ns(),
{
}

/// The boundary test undoes the conversion's clockwise remap: for a point
/// whose stored azimuth was remapped from the rotor angle `theta` — as every
/// single-return point's is — the boundary rotor angle is `theta` folded into
/// one turn.
pub proof fn lemma_boundary_restores_rotor_angle(p: VelodynePoint, theta: int)
    requires
        p.spec_azimuth_angle().units == remap_units(theta),
    ensures
        boundary_azimuth(p).units == crate::angle::wrap_units(theta),
{
    crate::angle::lemma_double_remap(theta);
}

/// Whether the frame in progress, if there is one, has the given mode.
pub open spec fn state_mode_ok(st: Option<StateModel>, mode: ReturnMode) -> bool {
    match st {
        None => true,
        Some(s) => match s.frame {
            None => true,
            Some(fr) => fr.mode == mode,
        },
    }
}

/// A stream of points of one uniform return mode is always folded without
/// error, and every frame it emits — and the frame left in progress — has
/// exactly that mode: an all-dual-return stream never yields a frame of
/// another kind.
pub proof fn lemma_uniform_mode_stream(
    st: Option<StateModel>,
    pts: Seq<VelodynePoint>,
    period_ns: u64,
    mode: ReturnMode,
)
    requires
        forall|i: int| 0 <= i < pts.len() ==> (#[trigger] pts[i]).spec_mode() == mode,
        state_mode_ok(st, mode),
    ensures
        run(st, pts, period_ns) matches Ok((st2, frames)) && state_mode_ok(st2, mode) && (forall|
            k: int,
        |
            0 <= k < frames.len() ==> (#[trigger] frames[k]).mode == mode),
    decreases pts.len(),
{
    if pts.len() == 0 {
    } else {
        lemma_uniform_mode_stream(st, pts.drop_last(), period_ns, mode);
        assert(pts.drop_last().len() == pts.len() - 1);
        assert(forall|i: int|
            0 <= i < pts.drop_last().len() ==> (#[trigger] pts.drop_last()[i]).spec_mode()
                == mode);
        assert(pts.last().spec_mode() == mode);
    }
}

/// Folding a concatenation folds the first part, then the second from the
/// state the first one left, and emits the two parts' frames in order.
pub proof fn lemma_run_append(
    st: Option<StateModel>,
    a: Seq<VelodynePoint>,
    b: Seq<VelodynePoint>,
    period_ns: u64,
)
    ensures
        run(st, a + b, period_ns) == (match run(st, a, period_ns) {
            Err(e) => Err::<(Option<StateModel>, Seq<PointListModel>), Error>(e),
            Ok((st1, f1)) => match run(st1, b, period_ns) {
                Err(e) => Err(e),
                Ok((st2, f2)) => Ok((st2, f1 + f2)),
            },
        }),
    decreases b.len(),
{
    if b.len() == 0 {
        assert(a + b =~= a);
        match run(st, a, period_ns) {
            Err(_) => {},
            Ok((st1, f1)) => {
                assert(f1 + Seq::<PointListModel>::empty() =~= f1);
            },
        }
    } else {
        lemma_run_append(st, a, b.drop_last(), period_ns);
        assert((a + b).drop_last() =~= a + b.drop_last());
        assert((a + b).last() == b.last());
        assert((a + b).len() > 0);
        match run(st, a, period_ns) {
            Err(_) => {},
            Ok((st1, f1)) => {
                match run(st1, b.drop_last(), period_ns) {
                    Err(_) => {},
                    Ok((st2, f2)) => {
                        match st2 {
                            None => {},
                            Some(s2) => {
                                match step(s2, b.last(), period_ns) {
                                    Err(_) => {},
                                    Ok((_, em)) => {
                                        match em {
                                            None => {},
                                            Some(fr) => {
                                                assert(f1 + f2.push(fr) =~= (f1 + f2).push(fr));
                                            },
                                        }
                                    },
                                }
                            },
                        }
                    },
                }
            },
        }
    }
}

/// Whether the frame in progress, if there is one, holds at least one point.
pub open spec fn state_frame_nonempty(st: Option<StateModel>) -> bool {
    match st {
        None => true,
        Some(s) => match s.frame {
            None => true,
            Some(fr) => fr.pts.len() >= 1,
        },
    }
}

/// An in-progress frame is never empty: it is seeded with the point that
/// opened it and only ever grows. So every frame the fold emits — and hence
/// every frame `push_packet` returns or `finish` hands out, starting from the
/// empty assembler — holds at least one point.
pub proof fn lemma_emitted_frames_nonempty(
    st: Option<StateModel>,
    pts: Seq<VelodynePoint>,
    period_ns: u64,
)
    requires
        state_frame_nonempty(st),
    ensures
        run(st, pts, period_ns) matches Ok((st2, frames)) ==> (state_frame_nonempty(st2) && forall|
            k: int,
        |
            0 <= k < frames.len() ==> (#[trigger] frames[k]).pts.len() >= 1),
    decreases pts.len(),
{
    if pts.len() == 0 {
    } else {
        lemma_emitted_frames_nonempty(st, pts.drop_last(), period_ns);
    }
}

/// One revolution's worth of points: nonempty, of one mode, rotor angles only
/// moving forward, and every point within one revolution period of the first.
pub open spec fn revolution_ok(pts: Seq<VelodynePoint>, period_ns: u64, mode: ReturnMode) -> bool {
    &&& pts.len() >= 1
    &&& forall|i: int| 0 <= i < pts.len() ==> (#[trigger] pts[i]).spec_mode() == mode
    &&& forall|i: int|
        1 <= i < pts.len() ==> boundary_azimuth(#[trigger] pts[i]).units >= boundary_azimuth(
            pts[i - 1],
        ).units
    &&& forall|i: int|
        0 <= i < pts.len() ==> elapsed_ns(
            (#[trigger] pts[i]).spec_timestamp_ns(),
            pts[0].spec_timestamp_ns(),
        ) < period_ns
}

/// The assembler state while revolution `pts` is in progress and fully
/// folded: anchored at its first point, caught up to its last.
pub open spec fn rev_state(pts: Seq<VelodynePoint>, mode: ReturnMode) -> StateModel {
    StateModel {
        last_azimuth_angle: boundary_azimuth(pts.last()),
        last_point_timestamp_ns: pts.last().spec_timestamp_ns(),
        last_frame_timestamp_ns: pts[0].spec_timestamp_ns(),
        frame: Some(PointListModel { mode, pts }),
    }
}

/// The state `s` with the points of `pts` appended to its frame in progress.
pub open spec fn extended_state(s: StateModel, pts: Seq<VelodynePoint>) -> StateModel {
    if pts.len() == 0 {
        s
    } else {
        match s.frame {
            Some(fr) => StateModel {
                last_azimuth_angle: boundary_azimuth(pts.last()),
                last_point_timestamp_ns: pts.last().spec_timestamp_ns(),
                last_frame_timestamp_ns: s.last_frame_timestamp_ns,
                frame: Some(PointListModel { mode: fr.mode, pts: fr.pts + pts }),
            },
            None => s,
        }
    }
}

/// Points that keep moving forward within the current revolution period are
/// all appended to the frame in progress and none is emitted.
proof fn lemma_run_extends(
    s: StateModel,
    pts: Seq<VelodynePoint>,
    period_ns: u64,
    mode: ReturnMode,
)
    requires
        s.frame matches Some(fr) && fr.mode == mode,
        forall|i: int| 0 <= i < pts.len() ==> (#[trigger] pts[i]).spec_mode() == mode,
        pts.len() > 0 ==> boundary_azimuth(pts[0]).units >= s.last_azimuth_angle.units,
        forall|i: int|
            1 <= i < pts.len() ==> boundary_azimuth(#[trigger] pts[i]).units >= boundary_azimuth(
                pts[i - 1],
            ).units,
        forall|i: int|
            0 <= i < pts.len() ==> elapsed_ns(
                (#[trigger] pts[i]).spec_timestamp_ns(),
                s.last_frame_timestamp_ns,
            ) < period_ns,
    ensures
        run(Some(s), pts, period_ns) == Ok::<(Option<StateModel>, Seq<PointListModel>), Error>(
            (Some(extended_state(s, pts)), Seq::<PointListModel>::empty()),
        ),
    decreases pts.len(),
{
    if pts.len() == 0 {
    } else {
        let rest = pts.drop_last();
        lemma_run_extends(s, rest, period_ns, mode);
        let p = pts.last();
        let s1 = extended_state(s, rest);
        assert(!closes_frame(s1, p, period_ns));
        assert(p.spec_mode() == mode);
        match s.frame {
            Some(fr) => {
                if rest.len() == 0 {
                    assert(fr.pts + pts =~= fr.pts.push(p));
                } else {
                    assert((fr.pts + rest).push(p) =~= fr.pts + pts);
                }
            },
            None => {},
        }
    }
}

/// From an empty assembler, one well-formed revolution folds into a fresh
/// in-progress frame holding exactly its points, and emits nothing.
proof fn lemma_run_revolution_fresh(pts: Seq<VelodynePoint>, period_ns: u64, mode: ReturnMode)
    requires
        revolution_ok(pts, period_ns, mode),
    ensures
        run(None, pts, period_ns) == Ok::<(Option<StateModel>, Seq<PointListModel>), Error>(
            (Some(rev_state(pts, mode)), Seq::<PointListModel>::empty()),
        ),
{
    let first = seq![pts[0]];
    let rest = pts.drop_first();
    assert(pts =~= first + rest);
    assert(first.drop_last() =~= Seq::<VelodynePoint>::empty());
    assert(run(None, first, period_ns) == Ok::<(Option<StateModel>, Seq<PointListModel>), Error>(
        (Some(fresh_state(pts[0])), Seq::<PointListModel>::empty()),
    )) by {
        reveal_with_fuel(run, 2);
        assert(first.last() == pts[0]);
    }
    let s = fresh_state(pts[0]);
    assert(forall|i: int| 0 <= i < rest.len() ==> #[trigger] rest[i] == pts[i + 1]);
    lemma_run_extends(s, rest, period_ns, mode);
    lemma_run_append(None, first, rest, period_ns);
    assert(Seq::<PointListModel>::empty() + Seq::<PointListModel>::empty() =~= Seq::<
        PointListModel,
    >::empty());
    if rest.len() == 0 {
        assert(seq![pts[0]] =~= pts);
        assert(extended_state(s, rest) == rev_state(pts, mode));
    } else {
        assert(seq![pts[0]] + rest =~= pts);
        assert(extended_state(s, rest).frame == Some(
            PointListModel { mode, pts: seq![pts[0]] + rest },
        ));
        assert(extended_state(s, rest) == rev_state(pts, mode));
    }
}

/// From a state holding a frame, a revolution whose first rotor angle steps
/// back past zero closes and emits that frame unchanged and leaves the new
/// revolution in progress.
proof fn lemma_run_revolution_closing(
    s: StateModel,
    pts: Seq<VelodynePoint>,
    period_ns: u64,
    mode: ReturnMode,
)
    requires
        s.frame is Some,
        revolution_ok(pts, period_ns, mode),
        boundary_azimuth(pts[0]).units < s.last_azimuth_angle.units,
    ensures
        run(Some(s), pts, period_ns) == Ok::<(Option<StateModel>, Seq<PointListModel>), Error>(
            (Some(rev_state(pts, mode)), seq![s.frame->Some_0]),
        ),
{
    let first = seq![pts[0]];
    let rest = pts.drop_first();
    assert(pts =~= first + rest);
    assert(first.drop_last() =~= Seq::<VelodynePoint>::empty());
    assert(closes_frame(s, pts[0], period_ns));
    lemma_boundary_point_starts_next_frame(s, pts[0], period_ns);
    assert(run(Some(s), first, period_ns) == Ok::<
        (Option<StateModel>, Seq<PointListModel>),
        Error,
    >((Some(fresh_state(pts[0])), Seq::<PointListModel>::empty().push(s.frame->Some_0)))) by {
        reveal_with_fuel(run, 2);
        assert(first.last() == pts[0]);
    }
    let emitted = Seq::<PointListModel>::empty().push(s.frame->Some_0);
    assert(emitted =~= seq![s.frame->Some_0]);
    let s1 = fresh_state(pts[0]);
    assert(forall|i: int| 0 <= i < rest.len() ==> #[trigger] rest[i] == pts[i + 1]);
    lemma_run_extends(s1, rest, period_ns, mode);
    lemma_run_append(Some(s), first, rest, period_ns);
    assert(emitted + Seq::<PointListModel>::empty() =~= emitted);
    if rest.len() == 0 {
        assert(seq![pts[0]] =~= pts);
        assert(extended_state(s1, rest) == rev_state(pts, mode));
    } else {
        assert(seq![pts[0]] + rest =~= pts);
        assert(extended_state(s1, rest).frame == Some(
            PointListModel { mode, pts: seq![pts[0]] + rest },
        ));
        assert(extended_state(s1, rest) == rev_state(pts, mode));
    }
}

/// Folding further revolutions from a state that holds a frame emits that
/// frame, then every completed revolution as its own frame, in order.
#[verifier::rlimit(100)]
proof fn lemma_run_revolutions_from(
    s: StateModel,
    revs: Seq<Seq<VelodynePoint>>,
    period_ns: u64,
    mode: ReturnMode,
)
    requires
        s.frame is Some,
        forall|k: int| 0 <= k < revs.len() ==> revolution_ok(#[trigger] revs[k], period_ns, mode),
        revs.len() > 0 ==> boundary_azimuth(revs[0][0]).units < s.last_azimuth_angle.units,
        forall|k: int|
            1 <= k < revs.len() ==> boundary_azimuth((#[trigger] revs[k])[0]).units
                < boundary_azimuth(revs[k - 1].last()).units,
    ensures
        run(Some(s), revs.flatten(), period_ns) matches Ok((st2, frames)) && frames.len()
            == revs.len() && (forall|k: int|
            0 <= k < frames.len() ==> #[trigger] frames[k] == (if k == 0 {
                s.frame->Some_0
            } else {
                PointListModel { mode, pts: revs[k - 1] }
            })) && st2 == Some(
            if revs.len() == 0 {
                s
            } else {
                rev_state(revs.last(), mode)
            },
        ),
    decreases revs.len(),
{
    if revs.len() == 0 {
        assert(revs.flatten() =~= Seq::<VelodynePoint>::empty());
    } else {
        let rest = revs.drop_first();
        assert(revs.flatten() == revs[0] + rest.flatten());
        lemma_run_revolution_closing(s, revs[0], period_ns, mode);
        let s1 = rev_state(revs[0], mode);
        assert(forall|k: int| 0 <= k < rest.len() ==> #[trigger] rest[k] == revs[k + 1]);
        lemma_run_revolutions_from(s1, rest, period_ns, mode);
        lemma_run_append(Some(s), revs[0], rest.flatten(), period_ns);
        match run(Some(s1), rest.flatten(), period_ns) {
            Ok((st2, frames1)) => {
                let frames = seq![s.frame->Some_0] + frames1;
                assert(frames.len() == revs.len());
                assert(forall|k: int| 1 <= k < frames.len() ==> #[trigger] frames[k] == frames1[k
                    - 1]);
                if rest.len() == 0 {
                    assert(st2 == Some(rev_state(revs.last(), mode)));
                } else {
                    assert(rest.last() == revs.last());
                }
            },
            Err(_) => {
                assert(false);
            },
        }
    }
}

/// The fold applied call by call: each packet's points are folded from the
/// state the previous call left, and the emitted frames concatenate in call
/// order — the shape of a sequence of `push_packet` calls.
pub open spec fn run_calls(
    st: Option<StateModel>,
    packets: Seq<Seq<VelodynePoint>>,
    period_ns: u64,
) -> Result<(Option<StateModel>, Seq<PointListModel>), Error>
    decreases packets.len(),
{
    if packets.len() == 0 {
        Ok((st, Seq::<PointListModel>::empty()))
    } else {
        match run_calls(st, packets.drop_last(), period_ns) {
            Err(e) => Err(e),
            Ok((st1, frames)) => match run(st1, packets.last(), period_ns) {
                Err(e) => Err(e),
                Ok((st2, f2)) => Ok((st2, frames + f2)),
            },
        }
    }
}

/// Splitting a point stream into packets changes nothing: folding the packets
/// one call at a time ends in the same state and emits the same frames, in
/// the same order, as folding all of their points at once.
pub proof fn lemma_push_calls_compose(
    st: Option<StateModel>,
    packets: Seq<Seq<VelodynePoint>>,
    period_ns: u64,
)
    ensures
        run_calls(st, packets, period_ns) == run(st, packets.flatten(), period_ns),
    decreases packets.len(),
{
    packets.lemma_flatten_and_flatten_alt_are_equivalent();
    if packets.len() == 0 {
        assert(packets.flatten_alt() =~= Seq::<VelodynePoint>::empty());
    } else {
        lemma_push_calls_compose(st, packets.drop_last(), period_ns);
        packets.drop_last().lemma_flatten_and_flatten_alt_are_equivalent();
        lemma_run_append(st, packets.drop_last().flatten_alt(), packets.last(), period_ns);
    }
}

/// Monotonic frame count across any number of calls: when the packets pushed
/// one by one carry, between them, exactly the revolutions `revs[0]` through
/// `revs[M]`, the calls together return exactly `M` completed frames, one per
/// completed revolution, and leave the last revolution for `finish`.
pub proof fn lemma_revolution_frame_count_across_calls(
    packets: Seq<Seq<VelodynePoint>>,
    revs: Seq<Seq<VelodynePoint>>,
    period_ns: u64,
    mode: ReturnMode,
)
    requires
        packets.flatten() == revs.flatten(),
        revs.len() >= 1,
        forall|k: int| 0 <= k < revs.len() ==> revolution_ok(#[trigger] revs[k], period_ns, mode),
        forall|k: int|
            1 <= k < revs.len() ==> boundary_azimuth((#[trigger] revs[k])[0]).units
                < boundary_azimuth(revs[k - 1].last()).units,
    ensures
        run_calls(None, packets, period_ns) matches Ok((st2, frames)) && frames.len() == revs.len()
            - 1 && (forall|k: int|
            0 <= k < frames.len() ==> #[trigger] frames[k] == PointListModel {
                mode,
                pts: revs[k],
            }) && st2 == Some(rev_state(revs.last(), mode)),
{
    lemma_push_calls_compose(None, packets, period_ns);
    lemma_revolution_frame_count(revs, period_ns, mode);
}

/// Monotonic frame count: a stream that spans revolutions `revs[0]` through
/// `revs[M]` — each nonempty, of one mode, with rotor angles only moving
/// forward and all points within one period of the revolution's first point,
/// and with a backward rotor step at every revolution boundary — folds
/// without error into exactly `M` completed frames, one per completed
/// revolution and holding exactly that revolution's points, while the last
/// revolution remains in progress for `finish` to hand out.
pub proof fn lemma_revolution_frame_count(
    revs: Seq<Seq<VelodynePoint>>,
    period_ns: u64,
    mode: ReturnMode,
)
    requires
        revs.len() >= 1,
        forall|k: int| 0 <= k < revs.len() ==> revolution_ok(#[trigger] revs[k], period_ns, mode),
        forall|k: int|
            1 <= k < revs.len() ==> boundary_azimuth((#[trigger] revs[k])[0]).units
                < boundary_azimuth(revs[k - 1].last()).units,
    ensures
        run(None, revs.flatten(), period_ns) matches Ok((st2, frames)) && frames.len()
            == revs.len() - 1 && (forall|k: int|
            0 <= k < frames.len() ==> #[trigger] frames[k] == PointListModel {
                mode,
                pts: revs[k],
            }) && st2 == Some(rev_state(revs.last(), mode)),
{
    let rest = revs.drop_first();
    assert(revs.flatten() == revs[0] + rest.flatten());
    lemma_run_revolution_fresh(revs[0], period_ns, mode);
    let s1 = rev_state(revs[0], mode);
    assert(forall|k: int| 0 <= k < rest.len() ==> #[trigger] rest[k] == revs[k + 1]);
    lemma_run_revolutions_from(s1, rest, period_ns, mode);
    lemma_run_append(None, revs[0], rest.flatten(), period_ns);
    match run(Some(s1), rest.flatten(), period_ns) {
        Ok((st2, frames1)) => {
            assert(Seq::<PointListModel>::empty() + frames1 =~= frames1);
            if rest.len() == 0 {
            } else {
                assert(rest.last() == revs.last());
            }
        },
        Err(_) => {
            assert(false);
        },
    }
}

/// The assembler's private state between packets.
#[derive(Clone, Debug)]
struct FrameConverterState {
    last_azimuth_angle: Angle,
    last_point_timestamp_ns: u64,
    last_frame_timestamp_ns: u64,
    frame_opt: Option<Frame>,
}

impl FrameConverterState {
    spec fn model(self) -> StateModel {
        StateModel {
            last_azimuth_angle: self.last_azimuth_angle,
            last_point_timestamp_ns: self.last_point_timestamp_ns,
            last_frame_timestamp_ns: self.last_frame_timestamp_ns,
            frame: match self.frame_opt {
                None => None,
                Some(f) => Some(f.model()),
            },
        }
    }
}

/// A struct that converts and distributes raw packets into frames.
#[derive(Clone, Debug)]
pub struct FrameConverter {
    pcd_converter: PointCloudConverter,
    period_per_frame_us: u64,
    rpm: u64,
    check_timestamp: bool,
    state_opt: Option<FrameConverterState>,
}

impl FrameConverter {
    pub closed spec fn spec_config(self) -> Config {
        self.pcd_converter.spec_config()
    }

    pub closed spec fn spec_rpm(self) -> u64 {
        self.rpm
    }

    pub closed spec fn spec_check_timestamp(self) -> bool {
        self.check_timestamp
    }

    pub closed spec fn spec_period_per_frame_us(self) -> u64 {
        self.period_per_frame_us
    }

    /// One revolution period in nanoseconds.
    pub open spec fn spec_period_ns(self) -> u64 {
        (self.spec_period_per_frame_us() * 1000) as u64
    }

    pub closed spec fn state_model(self) -> Option<StateModel> {
        match self.state_opt {
            None => None,
            Some(s) => Some(s.model()),
        }
    }

    pub open spec fn wf(self) -> bool {
        &&& self.spec_config().wf()
        &&& self.spec_rpm() >= 60
        &&& self.spec_rpm() % 60 == 0
        &&& self.spec_period_per_frame_us() == 60_000_000 as int / self.spec_rpm() as int
        &&& self.spec_period_per_frame_us() <= 1_000_000
    }

    /// An assembler for a sensor spinning at `rpm` revolutions per minute.
    ///
    /// The rate must be a positive multiple of 60; it fixes the revolution
    /// period `60_000_000 / rpm` microseconds. With `check_timestamp` a
    /// packet older than the newest processed point is refused; without it
    /// such a packet is processed all the same.
    pub fn new(rpm: u64, check_timestamp: bool, config: Config) -> (r: Result<
        FrameConverter,
        Error,
    >)
        requires
            config.wf(),
        ensures
            rpm == 0 || rpm % 60 != 0 ==> r == Err::<FrameConverter, Error>(
                Error::ConfigurationError,
            ),
            rpm > 0 && rpm % 60 == 0 ==> (r matches Ok(fc) && fc.wf() && fc.spec_rpm() == rpm
                && fc.spec_check_timestamp() == check_timestamp && fc.spec_config() == config
                && fc.state_model() is None && fc.spec_period_per_frame_us() == 60_000_000 as int
                / rpm as int),
    {
        if rpm == 0 || rpm % 60 != 0 {
            return Err(Error::ConfigurationError);
        }
        let period_per_frame_us: u64 = 60_000_000 / rpm;
        proof {
            vstd::arithmetic::div_mod::lemma_div_is_ordered_by_denominator(
                60_000_000,
                60,
                rpm as int,
            );
        }
        Ok(
            FrameConverter {
                pcd_converter: PointCloudConverter::new(config),
                period_per_frame_us,
                rpm,
                check_timestamp,
                state_opt: None,
            },
        )
    }

    /// The revolution period in microseconds.
    pub fn period_per_frame_us(&self) -> (r: u64)
        ensures
            r == self.spec_period_per_frame_us(),
    {
        self.period_per_frame_us
    }

    /// Converts one packet and folds its points into the frame in progress,
    /// returning the frames the packet completed, in completion order.
    ///
    /// With strict ordering on, a packet older than the newest processed
    /// point is refused first, with `OrderingViolation`, and changes nothing.
    /// A packet whose shape disagrees with the calibration is refused with
    /// `MalformedInput` and changes nothing. Otherwise the points are folded
    /// one by one as `run` describes; a point whose mode disagrees with the
    /// frame it would join aborts the call with `MalformedInput` and clears
    /// the state.
    #[verifier::rlimit(100)]
    pub fn push_packet(&mut self, packet: &Packet) -> (r: Result<Vec<Frame>, Error>)
        requires
            old(self).wf(),
        ensures
            final(self).wf(),
            final(self).spec_config() == old(self).spec_config(),
            final(self).spec_rpm() == old(self).spec_rpm(),
            final(self).spec_check_timestamp() == old(self).spec_check_timestamp(),
            final(self).spec_period_per_frame_us() == old(self).spec_period_per_frame_us(),
            ({
                let cfg = old(self).spec_config();
                let pts = convert_points(*packet, cfg);
                let period_ns = old(self).spec_period_ns();
                if old(self).spec_check_timestamp() && stale_packet(
                    old(self).state_model(),
                    *packet,
                ) {
                    &&& r == Err::<Vec<Frame>, Error>(Error::OrderingViolation)
                    &&& final(self).state_model() == old(self).state_model()
                } else if !packet_shape_ok(*packet, cfg) {
                    &&& r == Err::<Vec<Frame>, Error>(Error::MalformedInput)
                    &&& final(self).state_model() == old(self).state_model()
                } else {
                    match run(old(self).state_model(), pts, period_ns) {
                        Ok((st2, frames)) => (r matches Ok(out) && final(self).state_model()
                            == st2 && out@.map_values(|f: Frame| f.model()) == frames),
                        Err(e) => (r == Err::<Vec<Frame>, Error>(e)
                            && final(self).state_model() is None),
                    }
                }
            }),
    {
        let ghost cfg = old(self).spec_config();
        if self.check_timestamp {
            let stale = match &self.state_opt {
                None => false,
                Some(state) => (packet.timestamp as u64) * 1000 < state.last_point_timestamp_ns,
            };
            if stale {
                return Err(Error::OrderingViolation);
            }
        }
        let points_list = match self.pcd_converter.packet_to_points(packet) {
            Ok(list) => list,
            Err(e) => {
                return Err(e);
            },
        };
        let period_ns: u64 = self.period_per_frame_us * 1000;
        let points = points_list.into_points();
        let mut output_frames: Vec<Frame> = Vec::new();
        proof {
            assert(points@.take(0) =~= Seq::<VelodynePoint>::empty());
            assert(output_frames@.map_values(|f: Frame| f.model()) =~= Seq::<
                PointListModel,
            >::empty());
        }
        let mut i: usize = 0;
        while i < points.len()
            invariant
                self.wf(),
                self.spec_config() == old(self).spec_config(),
                self.spec_rpm() == old(self).spec_rpm(),
                self.spec_check_timestamp() == old(self).spec_check_timestamp(),
                self.spec_period_per_frame_us() == old(self).spec_period_per_frame_us(),
                cfg == old(self).spec_config(),
                period_ns == old(self).spec_period_ns(),
                i <= points@.len(),
                points@ == convert_points(*packet, cfg),
                packet_shape_ok(*packet, cfg),
                !(old(self).spec_check_timestamp() && stale_packet(
                    old(self).state_model(),
                    *packet,
                )),
                run(old(self).state_model(), points@.take(i as int), period_ns) == Ok::<
                    (Option<StateModel>, Seq<PointListModel>),
                    Error,
                >((self.state_model(), output_frames@.map_values(|f: Frame| f.model()))),
            decreases points@.len() - i,
        {
            proof {
                crate::converter::lemma_convert_azimuth_range(*packet, cfg, i as int);
            }
            let point = points[i];
            let timestamp = point.timestamp_ns();
            let mode = point.mode();
            let azimuth_angle = remap_angle(point.azimuth_angle());
            proof {
                crate::angle::lemma_wrap_range(
                    crate::angle::QUARTER_TURN_UNITS - point.spec_azimuth_angle().units as int,
                );
                assert(azimuth_angle == boundary_azimuth(point));
                assert(points@.take(i as int + 1).drop_last() =~= points@.take(i as int));
                assert(points@.take(i as int + 1).last() == points@[i as int]);
            }
            let ghost frames_before = output_frames@.map_values(|f: Frame| f.model());
            let prev_opt = self.state_opt.take();
            match prev_opt {
                None => {
                    let mut pts_new = VelodynePointList::new(mode);
                    let _ = pts_new.push(point);
                    let frame = Frame { points: pts_new };
                    self.state_opt = Some(
                        FrameConverterState {
                            last_azimuth_angle: azimuth_angle,
                            last_point_timestamp_ns: timestamp,
                            last_frame_timestamp_ns: timestamp,
                            frame_opt: Some(frame),
                        },
                    );
                    proof {
                        assert(Seq::<VelodynePoint>::empty().push(point) =~= seq![point]);
                        assert(self.state_model() == Some(fresh_state(point)));
                    }
                },
                Some(state) => {
                    let ghost s = state.model();
                    let FrameConverterState {
                        last_azimuth_angle,
                        last_point_timestamp_ns: _,
                        last_frame_timestamp_ns,
                        frame_opt,
                    } = state;
                    let mut frame_opt = frame_opt;
                    let elapsed: u64 = if timestamp >= last_frame_timestamp_ns {
                        timestamp - last_frame_timestamp_ns
                    } else {
                        0
                    };
                    let close = azimuth_angle.units < last_azimuth_angle.units || elapsed
                        >= period_ns;
                    proof {
                        assert(close == closes_frame(s, point, period_ns));
                    }
                    if close {
                        if let Some(frame) = frame_opt.take() {
                            output_frames.push(frame);
                            proof {
                                assert(output_frames@.map_values(|f: Frame| f.model())
                                    =~= frames_before.push(frame.model()));
                            }
                        }
                    }
                    match frame_opt {
                        Some(mut frame) => {
                            let push_result = frame.points.push(point);
                            match push_result {
                                Ok(()) => {
                                    self.state_opt = Some(
                                        FrameConverterState {
                                            last_azimuth_angle: azimuth_angle,
                                            last_frame_timestamp_ns,
                                            last_point_timestamp_ns: timestamp,
                                            frame_opt: Some(frame),
                                        },
                                    );
                                },
                                Err(e) => {
                                    proof {
                                        assert(step(s, point, period_ns) == Err::<
                                            (StateModel, Option<PointListModel>),
                                            Error,
                                        >(Error::MalformedInput));
                                        assert(run(
                                            old(self).state_model(),
                                            points@.take(i as int + 1),
                                            period_ns,
                                        ) is Err);
                                        lemma_run_err_stays(
                                            old(self).state_model(),
                                            points@,
                                            period_ns,
                                            i as int + 1,
                                        );
                                    }
                                    return Err(e);
                                },
                            }
                        },
                        None => {
                            let mut pts_new = VelodynePointList::new(mode);
                            let _ = pts_new.push(point);
                            let frame = Frame { points: pts_new };
                            self.state_opt = Some(
                                FrameConverterState {
                                    last_azimuth_angle: azimuth_angle,
                                    last_point_timestamp_ns: timestamp,
                                    last_frame_timestamp_ns: timestamp,
                                    frame_opt: Some(frame),
                                },
                            );
                            proof {
                                assert(Seq::<VelodynePoint>::empty().push(point) =~= seq![point]);
                                assert(self.state_model() == Some(fresh_state(point)));
                            }
                        },
                    }
                },
            }
            i = i + 1;
        }
        proof {
            assert(points@.take(points@.len() as int) =~= points@);
        }
        Ok(output_frames)
    }

    /// Consumes the assembler and hands out the frame in progress, if any.
    pub fn finish(self) -> (r: Option<Frame>)
        ensures
            match self.state_model() {
                None => r is None,
                Some(st) => match st.frame {
                    None => r is None,
                    Some(fm) => r matches Some(f) && f.model() == fm,
                },
            },
    {
        match self.state_opt {
            None => None,
            Some(st) => st.frame_opt,
        }
    }
}

} // verus!

