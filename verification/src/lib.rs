//! A bounded 2D arena of bouncing balls: one player-steered ball and several
//! autonomous ones, advanced once per frame by four passes in a fixed order —
//! keyboard steering, integration (boundary bounce, movement, gravity),
//! pairwise collision detection, and collision resolution.
//!
//! All coordinates, velocities and durations are fixed-point integers in
//! thousandths of their nominal unit (a position of `12_000` is 12 units,
//! a `dt` of `16` is 16 ms), so every pass has an exact arithmetic contract.

pub mod ball;
pub mod collision;
pub mod input;
pub mod integrate;
pub mod math;
pub mod registry;
pub mod resolve;
pub mod rng;
pub mod world;
