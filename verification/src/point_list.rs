//! Converted points and the mode-tagged list that collects them.

use crate::common::{PointPair, Timestamped};
use crate::error::Error;
use crate::packet::ReturnMode;
use vstd::prelude::*;

verus! {

/// A point of a last-return packet.
pub type LastReturnPoint = Timestamped<PointPair>;

/// A point of a strongest-return packet.
pub type StrongestPoint = Timestamped<PointPair>;

/// A point of a dual-return packet: (last return, strongest return).
pub type DualPoint = Timestamped<(PointPair, PointPair)>;

/// One converted point, tagged with the return mode it came from.
#[derive(Clone, Copy, Debug, PartialEq)]
pub enum VelodynePoint {
    Strongest(StrongestPoint),
    LastReturn(LastReturnPoint),
    DualReturn(DualPoint),
}

impl VelodynePoint {
    pub open spec fn spec_timestamp_ns(self) -> u64 {
        match self {
            VelodynePoint::Strongest(pt) => pt.timestamp_ns,
            VelodynePoint::LastReturn(pt) => pt.timestamp_ns,
            VelodynePoint::DualReturn(pt) => pt.timestamp_ns,
        }
    }

    pub open spec fn spec_mode(self) -> ReturnMode {
        match self {
            VelodynePoint::Strongest(_) => ReturnMode::Strongest,
            VelodynePoint::LastReturn(_) => ReturnMode::LastReturn,
            VelodynePoint::DualReturn(_) => ReturnMode::DualReturn,
        }
    }

    /// The stored azimuth of the point; a dual-return point carries the same
    /// azimuth in both halves and reports the first.
    pub open spec fn spec_azimuth_angle(self) -> crate::angle::Angle {
        match self {
            VelodynePoint::Strongest(pt) => pt.value.spherical.azimuth_angle,
            VelodynePoint::LastReturn(pt) => pt.value.spherical.azimuth_angle,
            VelodynePoint::DualReturn(pt) => pt.value.0.spherical.azimuth_angle,
        }
    }

    /// When the sensor measured this point, in nanoseconds.
    pub fn timestamp_ns(&self) -> (r: u64)
        ensures
            r == self.spec_timestamp_ns(),
    {
        match self {
            VelodynePoint::Strongest(pt) => pt.timestamp_ns,
            VelodynePoint::LastReturn(pt) => pt.timestamp_ns,
            VelodynePoint::DualReturn(pt) => pt.timestamp_ns,
        }
    }

    /// The return mode the point came from.
    pub fn mode(&self) -> (r: ReturnMode)
        ensures
            r == self.spec_mode(),
    {
        match self {
            VelodynePoint::Strongest(_) => ReturnMode::Strongest,
            VelodynePoint::LastReturn(_) => ReturnMode::LastReturn,
            VelodynePoint::DualReturn(_) => ReturnMode::DualReturn,
        }
    }

    /// The azimuth angle stored with the point.
    pub fn azimuth_angle(&self) -> (r: crate::angle::Angle)
        ensures
            r == self.spec_azimuth_angle(),
    {
        match self {
            VelodynePoint::Strongest(pt) => pt.value.spherical.azimuth_angle,
            VelodynePoint::LastReturn(pt) => pt.value.spherical.azimuth_angle,
            VelodynePoint::DualReturn(pt) => pt.value.0.spherical.azimuth_angle,
        }
    }
}

/// A list of converted points, tagged with the one return mode all of its
/// points share. A point of another mode is refused rather than coerced.
#[derive(Clone, Debug)]
pub enum VelodynePointList {
    Strongest(Vec<StrongestPoint>),
    LastReturn(Vec<LastReturnPoint>),
    /// List of (last return, strongest or second-strongest return) pairs.
    DualReturn(Vec<DualPoint>),
}

impl VelodynePointList {
    /// The list's points, each tagged with the list's mode.
    pub open spec fn spec_points(self) -> Seq<VelodynePoint> {
        match self {
            VelodynePointList::Strongest(pts) => pts@.map_values(
                |pt: StrongestPoint| VelodynePoint::Strongest(pt),
            ),
            VelodynePointList::LastReturn(pts) => pts@.map_values(
                |pt: LastReturnPoint| VelodynePoint::LastReturn(pt),
            ),
            VelodynePointList::DualReturn(pts) => pts@.map_values(
                |pt: DualPoint| VelodynePoint::DualReturn(pt),
            ),
        }
    }

    pub open spec fn spec_mode(self) -> ReturnMode {
        match self {
            VelodynePointList::Strongest(_) => ReturnMode::Strongest,
            VelodynePointList::LastReturn(_) => ReturnMode::LastReturn,
            VelodynePointList::DualReturn(_) => ReturnMode::DualReturn,
        }
    }

    /// An empty list of the given mode.
    pub fn new(mode: ReturnMode) -> (r: Self)
        ensures
            r.spec_mode() == mode,
            r.spec_points() == Seq::<VelodynePoint>::empty(),
    {
        let r = match mode {
            ReturnMode::LastReturn => VelodynePointList::LastReturn(Vec::new()),
            ReturnMode::Strongest => VelodynePointList::Strongest(Vec::new()),
            ReturnMode::DualReturn => VelodynePointList::DualReturn(Vec::new()),
        };
        proof {
            assert(r.spec_points() =~= Seq::<VelodynePoint>::empty());
        }
        r
    }

    /// The mode all points of the list share.
    pub fn mode(&self) -> (r: ReturnMode)
        ensures
            r == self.spec_mode(),
    {
        match self {
            VelodynePointList::Strongest(_) => ReturnMode::Strongest,
            VelodynePointList::LastReturn(_) => ReturnMode::LastReturn,
            VelodynePointList::DualReturn(_) => ReturnMode::DualReturn,
        }
    }

    /// How many points the list holds.
    pub fn len(&self) -> (r: usize)
        ensures
            r == self.spec_points().len(),
    {
        match self {
            VelodynePointList::Strongest(pts) => pts.len(),
            VelodynePointList::LastReturn(pts) => pts.len(),
            VelodynePointList::DualReturn(pts) => pts.len(),
        }
    }

    /// Appends a point of the list's own mode; a point of any other mode is
    /// refused with `MalformedInput` and the list is left as it was.
    pub fn push(&mut self, point: VelodynePoint) -> (r: Result<(), Error>)
        ensures
            point.spec_mode() == old(self).spec_mode() ==> r == Ok::<(), Error>(())
                && final(self).spec_mode() == old(self).spec_mode() && final(self).spec_points()
                == old(self).spec_points().push(point),
            point.spec_mode() != old(self).spec_mode() ==> r == Err::<(), Error>(
                Error::MalformedInput,
            ) && *final(self) == *old(self),
    {
        match self {
            VelodynePointList::Strongest(pts) => {
                if let VelodynePoint::Strongest(pt) = point {
                    pts.push(pt);
                    proof {
                        assert(final(self).spec_points() =~= old(self).spec_points().push(point));
                    }
                } else {
                    return Err(Error::MalformedInput);
                }
            },
            VelodynePointList::LastReturn(pts) => {
                if let VelodynePoint::LastReturn(pt) = point {
                    pts.push(pt);
                    proof {
                        assert(final(self).spec_points() =~= old(self).spec_points().push(point));
                    }
                } else {
                    return Err(Error::MalformedInput);
                }
            },
            VelodynePointList::DualReturn(pts) => {
                if let VelodynePoint::DualReturn(pt) = point {
                    pts.push(pt);
                    proof {
                        assert(final(self).spec_points() =~= old(self).spec_points().push(point));
                    }
                } else {
                    return Err(Error::MalformedInput);
                }
            },
        }
        Ok(())
    }

    /// The list's points in order, each tagged with the list's mode.
    pub fn into_points(self) -> (r: Vec<VelodynePoint>)
        ensures
            r@ == self.spec_points(),
    {
        let mut out: Vec<VelodynePoint> = Vec::new();
        match self {
            VelodynePointList::Strongest(pts) => {
                let mut i: usize = 0;
                while i < pts.len()
                    invariant
                        i <= pts@.len(),
                        out@.len() == i,
                        forall|j: int|
                            0 <= j < i ==> out@[j] == VelodynePoint::Strongest(pts@[j]),
                    decreases pts@.len() - i,
                {
                    out.push(VelodynePoint::Strongest(pts[i]));
                    i = i + 1;
                }
                proof {
                    assert(out@ =~= self.spec_points());
                }
            },
            VelodynePointList::LastReturn(pts) => {
                let mut i: usize = 0;
                while i < pts.len()
                    invariant
                        i <= pts@.len(),
                        out@.len() == i,
                        forall|j: int|
                            0 <= j < i ==> out@[j] == VelodynePoint::LastReturn(pts@[j]),
                    decreases pts@.len() - i,
                {
                    out.push(VelodynePoint::LastReturn(pts[i]));
                    i = i + 1;
                }
                proof {
                    assert(out@ =~= self.spec_points());
                }
            },
            VelodynePointList::DualReturn(pts) => {
                let mut i: usize = 0;
                while i < pts.len()
                    invariant
                        i <= pts@.len(),
                        out@.len() == i,
                        forall|j: int|
                            0 <= j < i ==> out@[j] == VelodynePoint::DualReturn(pts@[j]),
                    decreases pts@.len() - i,
                {
                    out.push(VelodynePoint::DualReturn(pts[i]));
                    i = i + 1;
                }
                proof {
                    assert(out@ =~= self.spec_points());
                }
            },
        }
        out
    }
}

} // verus!
