//! The error kinds the library reports.

use vstd::prelude::*;

verus! {

/// What went wrong while converting packets or assembling frames.
#[derive(Clone, Copy, Debug, PartialEq, Eq, Structural)]
pub enum Error {
    /// A packet's shape disagrees with the calibration (a firing whose length
    /// is not the channel count), or a point of one return mode was pushed
    /// into a list of another.
    MalformedInput,
    /// A packet's timestamp precedes the previously observed timestamp while
    /// strict ordering is on.
    OrderingViolation,
    /// The revolution rate handed to the assembler is not a positive multiple
    /// of 60 revolutions per minute.
    ConfigurationError,
}

} // verus!
