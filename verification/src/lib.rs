//! A deterministic 2D water-surface simulation on a fixed-size grid.
//!
//! Every cell of the grid carries a height, a vertical velocity and a
//! behavior tag.  One simulation step reads a snapshot of the whole grid
//! and rewrites every cell from that snapshot alone: fluid cells follow a
//! damped spring pulling them toward the mean height of their neighbors,
//! oscillator cells follow a self-advancing sine, solid cells stay frozen,
//! and absorbing boundary cells copy the plain neighbor mean.
//!
//! All physical quantities are fixed-point integers scaled by
//! [`fixed::FP_ONE`]; the arithmetic of the update rule is exact and
//! verified, including the absence of overflow and the clamp bounds on
//! every fluid cell.

pub mod config;
pub mod fixed;
pub mod laws;
pub mod particle;
pub mod wave_simulation;
