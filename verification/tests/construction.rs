//! Range mapping, configuration validation and randomized world
//! construction.

use evolution::config::{ConfigError, SimConfig};
use evolution::mapping::map_range;
use evolution::world::World;

fn valid_config() -> SimConfig {
    SimConfig {
        window_size: (100_000, 80_000),
        desired_fps: 60,
        vehicle_quantity: 5,
        vehicle_size_range: (5_000, 10_000),
        max_speed_range: (1_000, 3_000),
        max_steering_force_range: (500, 200),
        perception_food: 75_000,
        perception_poison: 50_000,
        food_quantity: 7,
        food_size_range: (2_000, 6_000),
        poison_quantity: 3,
        poison_size_range: (2_000, 6_000),
    }
}

#[test]
fn map_range_exact_values() {
    // Midpoint of (0, 10) onto (0, 100).
    assert_eq!(map_range(5, (0, 10), (0, 100)), 50);
    // A decreasing target range maps increasing input downward.
    assert_eq!(map_range(2, (0, 10), (100, 0)), 80);
    // Truncating division: 10 * 1 / 3.
    assert_eq!(map_range(1, (0, 3), (0, 10)), 3);
    // Endpoints map to endpoints.
    assert_eq!(map_range(0, (0, 10), (40, 90)), 40);
    assert_eq!(map_range(10, (0, 10), (40, 90)), 90);
    // Negative source values.
    assert_eq!(map_range(-5, (-10, 0), (0, 100)), 50);
    // A decreasing source range maps its first endpoint to the target's
    // first endpoint.
    assert_eq!(map_range(10, (10, 0), (40, 90)), 40);
    assert_eq!(map_range(0, (10, 0), (40, 90)), 90);
    assert_eq!(map_range(5, (10, 0), (0, 100)), 50);
}

#[test]
fn map_range_round_trip_recovers_value() {
    // Mapping up by a factor then back recovers the value exactly when the
    // target range is at least as wide as the source.
    for x in 0..=10 {
        let y = map_range(x, (0, 10), (0, 1000));
        assert_eq!(map_range(y, (0, 1000), (0, 10)), x);
    }
    // A narrow intermediate range loses at most its rounding step.
    for x in 0..=100 {
        let y = map_range(x, (0, 100), (0, 10));
        let back = map_range(y, (0, 10), (0, 100));
        assert!(back <= x && x - back <= 10);
    }
    // Decreasing ranges round-trip too; through a decreasing source the
    // recovered value never undershoots.
    for x in 0..=10 {
        let y = map_range(x, (10, 0), (0, 1000));
        assert_eq!(map_range(y, (0, 1000), (10, 0)), x);
    }
    for x in 0..=100 {
        let y = map_range(x, (100, 0), (10, 0));
        let back = map_range(y, (10, 0), (100, 0));
        assert!(back >= x && back - x <= 10);
    }
}

#[test]
fn validate_accepts_valid_config() {
    assert_eq!(valid_config().validate(), Ok(()));
}

#[test]
fn validate_rejects_window_size() {
    let mut c = valid_config();
    c.window_size = (0, 80_000);
    assert_eq!(c.validate(), Err(ConfigError::WindowSize));
}

#[test]
fn validate_rejects_vehicle_size_range() {
    let mut c = valid_config();
    c.vehicle_size_range = (10_000, 10_000);
    assert_eq!(c.validate(), Err(ConfigError::VehicleSizeRange));
}

#[test]
fn validate_rejects_max_speed_range() {
    let mut c = valid_config();
    c.max_speed_range = (0, 3_000);
    assert_eq!(c.validate(), Err(ConfigError::MaxSpeedRange));
}

#[test]
fn validate_rejects_max_steering_force_range() {
    let mut c = valid_config();
    c.max_steering_force_range = (500, -1);
    assert_eq!(c.validate(), Err(ConfigError::MaxSteeringForceRange));
}

#[test]
fn validate_rejects_perception() {
    let mut c = valid_config();
    c.perception_poison = 0;
    assert_eq!(c.validate(), Err(ConfigError::Perception));
}

#[test]
fn validate_rejects_food_size_range() {
    let mut c = valid_config();
    c.food_size_range = (6_000, 2_000);
    assert_eq!(c.validate(), Err(ConfigError::FoodSizeRange));
}

#[test]
fn validate_rejects_poison_size_range() {
    let mut c = valid_config();
    c.poison_size_range = (-5, 6_000);
    assert_eq!(c.validate(), Err(ConfigError::PoisonSizeRange));
}

#[test]
fn describe_names_the_field() {
    assert_eq!(
        ConfigError::WindowSize.describe(),
        "window_size must be positive and within the working range"
    );
    assert_eq!(
        ConfigError::VehicleSizeRange.describe(),
        "vehicle.size_range must satisfy 0 < lo < hi"
    );
    assert_eq!(ConfigError::MaxSpeedRange.describe(), "vehicle.max_speed_range must be positive");
    assert_eq!(
        ConfigError::MaxSteeringForceRange.describe(),
        "vehicle.max_steering_force_range must be positive"
    );
    assert_eq!(ConfigError::Perception.describe(), "perception radii must be positive");
    assert_eq!(ConfigError::FoodSizeRange.describe(), "food.size_range must satisfy 0 < lo < hi");
    assert_eq!(
        ConfigError::PoisonSizeRange.describe(),
        "poison.size_range must satisfy 0 < lo < hi"
    );
}

#[test]
fn world_new_rejects_invalid_config() {
    let mut c = valid_config();
    c.vehicle_size_range = (10_000, 5_000);
    assert_eq!(World::new(&c).err(), Some(ConfigError::VehicleSizeRange));
}

#[test]
fn world_new_spawns_exact_quantities_within_ranges() {
    let c = valid_config();
    let w = World::new(&c).ok().expect("valid config must build");
    assert_eq!(w.vehicles.len(), 5);
    assert_eq!(w.food.len(), 7);
    assert_eq!(w.poison.len(), 3);
    assert_eq!(w.bounds, (100_000, 80_000));
    for v in &w.vehicles {
        assert!(5_000 <= v.size && v.size < 10_000);
        assert!(0 <= v.position.x && v.position.x < 100_000);
        assert!(0 <= v.position.y && v.position.y < 80_000);
        assert!(1_000 <= v.max_speed && v.max_speed <= 3_000);
        // The steering range is decreasing: larger vehicles steer weaker.
        assert!(200 <= v.max_steering_force && v.max_steering_force <= 500);
        assert!(-5_000 <= v.dna.0 && v.dna.0 < 5_000);
        assert!(-5_000 <= v.dna.1 && v.dna.1 < 5_000);
        assert_eq!(v.perception_food, 75_000);
        assert_eq!(v.perception_poison, 50_000);
        assert_eq!(v.velocity.x, 0);
        assert_eq!(v.velocity.y, 0);
        assert!(v.heading.x != 0 || v.heading.y != 0);
    }
    for f in &w.food {
        assert!(2_000 <= f.size && f.size < 6_000);
        assert!(0 <= f.pos.x && f.pos.x < 100_000);
        assert!(0 <= f.pos.y && f.pos.y < 80_000);
    }
    for p in &w.poison {
        assert!(2_000 <= p.size && p.size < 6_000);
        assert!(0 <= p.pos.x && p.pos.x < 100_000);
    }
}

#[test]
fn world_new_samples_vary() {
    // Two hundred sampled positions cannot all coincide: the sampler really
    // draws from the range rather than echoing an argument.
    let mut c = valid_config();
    c.vehicle_quantity = 200;
    let w = World::new(&c).ok().expect("valid config must build");
    let first = w.vehicles[0].position;
    assert!(w.vehicles.iter().any(|v| v.position != first));
}
