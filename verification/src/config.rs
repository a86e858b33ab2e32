//! The configuration record the simulation is built from, and its
//! validation. A configuration that would break an invariant of the world —
//! an empty sampling range, a non-positive perception radius, values outside
//! the fixed-point working range — is rejected at construction time with a
//! precise error.

use vstd::prelude::*;
use crate::{POS_LIMIT, SIZE_LIMIT, SPEED_LIMIT};

verus! {

/// Everything the world needs at construction. All scalar quantities are in
/// fixed-point world units (`SCALE` sub-units per unit).
#[derive(Clone, Copy, PartialEq, Eq, Debug)]
pub struct SimConfig {
    /// World bounds `(width, height)`: the region positions are sampled in.
    pub window_size: (i64, i64),
    /// Target tick rate for the external frame clock; not used by the core.
    pub desired_fps: u32,
    /// Number of vehicles to spawn.
    pub vehicle_quantity: usize,
    /// Uniform sampling range `[lo, hi)` for vehicle sizes.
    pub vehicle_size_range: (i64, i64),
    /// Target range for the size-to-speed-limit map; may be decreasing.
    pub max_speed_range: (i64, i64),
    /// Target range for the size-to-steering-limit map; may be decreasing.
    pub max_steering_force_range: (i64, i64),
    /// How far a vehicle sees food.
    pub perception_food: i64,
    /// How far a vehicle sees poison.
    pub perception_poison: i64,
    /// Number of food stimuli to spawn.
    pub food_quantity: usize,
    /// Uniform sampling range `[lo, hi)` for food sizes.
    pub food_size_range: (i64, i64),
    /// Number of poison stimuli to spawn.
    pub poison_quantity: usize,
    /// Uniform sampling range `[lo, hi)` for poison sizes.
    pub poison_size_range: (i64, i64),
}

/// The first field of a rejected configuration that fails its constraint,
/// checked in declaration order.
#[derive(Clone, Copy, PartialEq, Eq, Structural, Debug)]
pub enum ConfigError {
    /// `window_size` must be positive in both coordinates and within the
    /// working range.
    WindowSize,
    /// `vehicle_size_range` must satisfy `0 < lo < hi <= SIZE_LIMIT`.
    VehicleSizeRange,
    /// `max_speed_range` endpoints must lie in `(0, SPEED_LIMIT]`.
    MaxSpeedRange,
    /// `max_steering_force_range` endpoints must lie in `(0, SPEED_LIMIT]`.
    MaxSteeringForceRange,
    /// Perception radii must lie in `(0, POS_LIMIT]`.
    Perception,
    /// `food_size_range` must satisfy `0 < lo < hi <= SIZE_LIMIT`.
    FoodSizeRange,
    /// `poison_size_range` must satisfy `0 < lo < hi <= SIZE_LIMIT`.
    PoisonSizeRange,
}

impl ConfigError {
    /// A human-readable statement of the violated constraint, naming the
    /// rejected field.
    pub fn describe(&self) -> (m: &'static str)
        ensures
            *self == ConfigError::WindowSize ==> m@ == (
            "window_size must be positive and within the working range")@,
            *self == ConfigError::VehicleSizeRange ==> m@ == (
            "vehicle.size_range must satisfy 0 < lo < hi")@,
            *self == ConfigError::MaxSpeedRange ==> m@ == (
            "vehicle.max_speed_range must be positive")@,
            *self == ConfigError::MaxSteeringForceRange ==> m@ == (
            "vehicle.max_steering_force_range must be positive")@,
            *self == ConfigError::Perception ==> m@ == ("perception radii must be positive")@,
            *self == ConfigError::FoodSizeRange ==> m@ == (
            "food.size_range must satisfy 0 < lo < hi")@,
            *self == ConfigError::PoisonSizeRange ==> m@ == (
            "poison.size_range must satisfy 0 < lo < hi")@,
    {
        match self {
            ConfigError::WindowSize => "window_size must be positive and within the working range",
            ConfigError::VehicleSizeRange => "vehicle.size_range must satisfy 0 < lo < hi",
            ConfigError::MaxSpeedRange => "vehicle.max_speed_range must be positive",
            ConfigError::MaxSteeringForceRange => {
                "vehicle.max_steering_force_range must be positive"
            },
            ConfigError::Perception => "perception radii must be positive",
            ConfigError::FoodSizeRange => "food.size_range must satisfy 0 < lo < hi",
            ConfigError::PoisonSizeRange => "poison.size_range must satisfy 0 < lo < hi",
        }
    }
}

/// A size-sampling range is valid when `0 < lo < hi <= SIZE_LIMIT`.
pub open spec fn size_range_ok(r: (i64, i64)) -> bool {
    0 < r.0 < r.1 <= SIZE_LIMIT
}

/// A limit-mapping range is valid when both endpoints lie in
/// `(0, SPEED_LIMIT]`; it may be decreasing.
pub open spec fn limit_range_ok(r: (i64, i64)) -> bool {
    0 < r.0 <= SPEED_LIMIT && 0 < r.1 <= SPEED_LIMIT
}

impl SimConfig {
    /// The window is positive and within the working range.
    pub open spec fn window_ok(self) -> bool {
        0 < self.window_size.0 <= POS_LIMIT && 0 < self.window_size.1 <= POS_LIMIT
    }

    /// Perception radii are positive and within the working range.
    pub open spec fn perception_ok(self) -> bool {
        0 < self.perception_food <= POS_LIMIT && 0 < self.perception_poison <= POS_LIMIT
    }

    /// Every constraint a world construction relies on.
    pub open spec fn valid(self) -> bool {
        &&& self.window_ok()
        &&& size_range_ok(self.vehicle_size_range)
        &&& limit_range_ok(self.max_speed_range)
        &&& limit_range_ok(self.max_steering_force_range)
        &&& self.perception_ok()
        &&& size_range_ok(self.food_size_range)
        &&& size_range_ok(self.poison_size_range)
    }

    /// The outcome of validation: the first violated field in declaration
    /// order, or success. `validate` and `World::new` both return exactly
    /// this.
    pub open spec fn validation_of(self) -> Result<(), ConfigError> {
        if !self.window_ok() {
            Err(ConfigError::WindowSize)
        } else if !size_range_ok(self.vehicle_size_range) {
            Err(ConfigError::VehicleSizeRange)
        } else if !limit_range_ok(self.max_speed_range) {
            Err(ConfigError::MaxSpeedRange)
        } else if !limit_range_ok(self.max_steering_force_range) {
            Err(ConfigError::MaxSteeringForceRange)
        } else if !self.perception_ok() {
            Err(ConfigError::Perception)
        } else if !size_range_ok(self.food_size_range) {
            Err(ConfigError::FoodSizeRange)
        } else if !size_range_ok(self.poison_size_range) {
            Err(ConfigError::PoisonSizeRange)
        } else {
            Ok(())
        }
    }

    /// Checks every constraint, reporting the first violated field in
    /// declaration order; succeeds exactly on valid configurations.
    pub fn validate(&self) -> (r: Result<(), ConfigError>)
        ensures
            r == self.validation_of(),
            r is Ok <==> self.valid(),
    {
        if !(0 < self.window_size.0 && self.window_size.0 <= POS_LIMIT && 0 < self.window_size.1
            && self.window_size.1 <= POS_LIMIT) {
            return Err(ConfigError::WindowSize);
        }
        if !(0 < self.vehicle_size_range.0 && self.vehicle_size_range.0 < self.vehicle_size_range.1
            && self.vehicle_size_range.1 <= SIZE_LIMIT) {
            return Err(ConfigError::VehicleSizeRange);
        }
        if !(0 < self.max_speed_range.0 && self.max_speed_range.0 <= SPEED_LIMIT
            && 0 < self.max_speed_range.1 && self.max_speed_range.1 <= SPEED_LIMIT) {
            return Err(ConfigError::MaxSpeedRange);
        }
        if !(0 < self.max_steering_force_range.0 && self.max_steering_force_range.0 <= SPEED_LIMIT
            && 0 < self.max_steering_force_range.1
            && self.max_steering_force_range.1 <= SPEED_LIMIT) {
            return Err(ConfigError::MaxSteeringForceRange);
        }
        if !(0 < self.perception_food && self.perception_food <= POS_LIMIT
            && 0 < self.perception_poison && self.perception_poison <= POS_LIMIT) {
            return Err(ConfigError::Perception);
        }
        if !(0 < self.food_size_range.0 && self.food_size_range.0 < self.food_size_range.1
            && self.food_size_range.1 <= SIZE_LIMIT) {
            return Err(ConfigError::FoodSizeRange);
        }
        if !(0 < self.poison_size_range.0 && self.poison_size_range.0 < self.poison_size_range.1
            && self.poison_size_range.1 <= SIZE_LIMIT) {
            return Err(ConfigError::PoisonSizeRange);
        }
        Ok(())
    }
}

} // verus!
