//! Tools for working with the packet stream of a spinning Velodyne LIDAR
//! sensor: converting raw laser returns into Cartesian points and grouping
//! the points of each full revolution into frames.
//!
//! All quantities are fixed-point integers — angles in 1/48 of a hundredth
//! of a degree, distances in millimeters, coordinates in micrometers, times
//! in nanoseconds — so every conversion step is exact and carries a precise
//! contract.

pub mod angle;
pub mod assembler;
pub mod common;
pub mod consts;
pub mod converter;
pub mod error;
pub mod packet;
pub mod point_list;
pub mod trig;
