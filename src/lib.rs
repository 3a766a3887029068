//! Verified core of a small Monte Carlo path tracer.
//!
//! The floating-point geometry lives with the program around this crate;
//! what is decided here is exact: which hit is nearest, when a path stops
//! bouncing and how much it is attenuated, which scatter candidates are
//! kept, where each pixel lands in the raster and how the raster is written
//! out, and how many workgroups cover a frame.

pub mod bounce;
pub mod raster;
pub mod scatter;
pub mod scene;
pub mod workgroups;

pub use bounce::{Path, MAX_BOUNCES};
pub use raster::Image;
pub use scatter::{draw_candidate, Candidate, UNIT};
pub use scene::{nearest_hit, HitKey};
pub use workgroups::next_power_of_two;
