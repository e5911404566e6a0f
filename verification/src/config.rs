//! The immutable simulation configuration.
//!
//! All physical constants of the engine are bundled into one value that is
//! validated once, when it is built, and then threaded through every
//! function.  The bounds checked here are what the fixed-point arithmetic
//! of the update rule needs to stay inside `i64` and inside the grid.

use crate::fixed::{FP_ONE, TWO_PI_FP};
use vstd::prelude::*;

verus! {

/// The largest grid side length the engine accepts.
pub const MAX_DIMENSION: usize = 10000;

/// The largest magnitude the engine accepts for the three clamp limits.
pub const MAX_LIMIT: i64 = 1000000000;

/// The largest world spacing factor the engine accepts.
pub const MAX_GRID_SCALE: i64 = 1000000;

/// Why a configuration was rejected.
#[derive(Clone, Copy, Debug, PartialEq, Eq, Structural)]
pub enum ConfigError {
    /// A grid side length is below 3, so a cell could lack neighbors.
    GridTooSmall,
    /// A grid side length is above [`MAX_DIMENSION`].
    GridTooLarge,
    /// A world spacing factor outside `[0, MAX_GRID_SCALE]`.
    BadGridScale,
    /// A clamp limit is negative.
    NegativeLimit,
    /// A clamp limit is above [`MAX_LIMIT`].
    LimitTooLarge,
    /// The damping factor lies outside `[0, FP_ONE]`.
    BadDamping,
    /// The sustainability divisor is below 1.
    BadSustainability,
    /// The oscillator speed lies outside `[0, TWO_PI_FP)`.
    BadOscillatorSpeed,
}

impl ConfigError {
    /// A short description of the rejection.
    pub fn message(&self) -> &'static str {
        match *self {
            ConfigError::GridTooSmall => "grid dimensions must be at least 3 by 3",
            ConfigError::GridTooLarge => "grid dimensions are too large",
            ConfigError::BadGridScale => "grid scale must lie in [0, MAX_GRID_SCALE]",
            ConfigError::NegativeLimit => "clamp limits must not be negative",
            ConfigError::LimitTooLarge => "clamp limits are too large",
            ConfigError::BadDamping => "damping must lie in [0, FP_ONE]",
            ConfigError::BadSustainability => "sustainability must be at least 1",
            ConfigError::BadOscillatorSpeed => "oscillator speed must lie in [0, TWO_PI_FP)",
        }
    }
}

/// The fixed configuration of a simulation: grid dimensions, world spacing
/// and the constants of the damped-spring update rule.  All fixed-point
/// values are scaled by [`FP_ONE`].
#[derive(Clone, Copy, Debug, PartialEq, Eq, Structural)]
pub struct SimConfig {
    /// Number of grid columns.
    pub width: usize,
    /// Number of grid rows.
    pub height: usize,
    /// World spacing: the grid spans `grid_scale` physical units.
    pub grid_scale: i64,
    /// Clamp bound for the acceleration of a fluid cell.
    pub acc_limit: i64,
    /// Clamp bound for the velocity of a fluid cell.
    pub vel_limit: i64,
    /// Clamp bound for the height of a fluid cell.
    pub height_limit: i64,
    /// Dissipation factor applied to the acceleration, scaled by `FP_ONE`.
    pub damping: i64,
    /// Divisor of the velocity in the spring term.
    pub sustainability: i64,
    /// Phase advance of an oscillator per step, in milliradians.
    pub osz_speed: i64,
}

impl SimConfig {
    /// A configuration the engine accepts: grid sides in `[3, MAX_DIMENSION]`,
    /// non-negative bounded limits, sub-unity damping and a positive
    /// sustainability divisor.
    pub open spec fn wf(self) -> bool {
        &&& 3 <= self.width <= MAX_DIMENSION
        &&& 3 <= self.height <= MAX_DIMENSION
        &&& 0 <= self.grid_scale <= MAX_GRID_SCALE
        &&& 0 <= self.acc_limit <= MAX_LIMIT
        &&& 0 <= self.vel_limit <= MAX_LIMIT
        &&& 0 <= self.height_limit <= MAX_LIMIT
        &&& 0 <= self.damping <= FP_ONE
        &&& 1 <= self.sustainability
        &&& 0 <= self.osz_speed < TWO_PI_FP
    }

    /// The error a candidate configuration is rejected with, if any;
    /// checks run in the order of the fields.
    pub open spec fn spec_validation_error(candidate: SimConfig) -> Option<ConfigError> {
        if candidate.width < 3 || candidate.height < 3 {
            Some(ConfigError::GridTooSmall)
        } else if candidate.width > MAX_DIMENSION || candidate.height > MAX_DIMENSION {
            Some(ConfigError::GridTooLarge)
        } else if candidate.grid_scale < 0 || candidate.grid_scale > MAX_GRID_SCALE {
            Some(ConfigError::BadGridScale)
        } else if candidate.acc_limit < 0 || candidate.vel_limit < 0 || candidate.height_limit
            < 0 {
            Some(ConfigError::NegativeLimit)
        } else if candidate.acc_limit > MAX_LIMIT || candidate.vel_limit > MAX_LIMIT
            || candidate.height_limit > MAX_LIMIT {
            Some(ConfigError::LimitTooLarge)
        } else if candidate.damping < 0 || candidate.damping > FP_ONE {
            Some(ConfigError::BadDamping)
        } else if candidate.sustainability < 1 {
            Some(ConfigError::BadSustainability)
        } else if candidate.osz_speed < 0 || candidate.osz_speed >= TWO_PI_FP {
            Some(ConfigError::BadOscillatorSpeed)
        } else {
            None
        }
    }

    /// Validates a candidate configuration: returns it unchanged when every
    /// field is acceptable, and the first applicable rejection otherwise.
    pub fn new(candidate: SimConfig) -> (r: Result<SimConfig, ConfigError>)
        ensures
            Self::spec_validation_error(candidate) is None ==> (r == Ok::<SimConfig, ConfigError>(
                candidate,
            ) && candidate.wf()),
            Self::spec_validation_error(candidate) matches Some(e) ==> r == Err::<
                SimConfig,
                ConfigError,
            >(e),
    {
        if candidate.width < 3 || candidate.height < 3 {
            Err(ConfigError::GridTooSmall)
        } else if candidate.width > MAX_DIMENSION || candidate.height > MAX_DIMENSION {
            Err(ConfigError::GridTooLarge)
        } else if candidate.grid_scale < 0 || candidate.grid_scale > MAX_GRID_SCALE {
            Err(ConfigError::BadGridScale)
        } else if candidate.acc_limit < 0 || candidate.vel_limit < 0 || candidate.height_limit
            < 0 {
            Err(ConfigError::NegativeLimit)
        } else if candidate.acc_limit > MAX_LIMIT || candidate.vel_limit > MAX_LIMIT
            || candidate.height_limit > MAX_LIMIT {
            Err(ConfigError::LimitTooLarge)
        } else if candidate.damping < 0 || candidate.damping > FP_ONE {
            Err(ConfigError::BadDamping)
        } else if candidate.sustainability < 1 {
            Err(ConfigError::BadSustainability)
        } else if candidate.osz_speed < 0 || candidate.osz_speed >= TWO_PI_FP {
            Err(ConfigError::BadOscillatorSpeed)
        } else {
            Ok(candidate)
        }
    }

    /// Number of cells in the grid.
    pub open spec fn spec_cell_count(self) -> int {
        self.width * self.height
    }
}

} // verus!
