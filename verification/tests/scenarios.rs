//! End-to-end scenarios of the simulation step on concrete worlds.
//! Quantities are fixed-point: 1000 sub-units per world unit.

use evolution::stimulus::{Stimulus, StimulusClass};
use evolution::vec2::Vec2;
use evolution::vehicle::Vehicle;
use evolution::world::World;

fn vehicle_at(x: i64, y: i64, size: i64, dna: (i64, i64), perception_food: i64) -> Vehicle {
    Vehicle::new(
        size,
        1000, // max_speed: 1 unit per tick
        500,  // max_steering_force: 0.5 units per tick
        Vec2 { x, y },
        Vec2 { x: 1000, y: 0 },
        dna,
        perception_food,
        1, // perception_poison: effectively blind to poison unless overridden
    )
}

fn food_at(x: i64, y: i64, size: i64) -> Stimulus {
    Stimulus::new(size, Vec2 { x, y }, StimulusClass::Food)
}

fn poison_at(x: i64, y: i64, size: i64) -> Stimulus {
    Stimulus::new(size, Vec2 { x, y }, StimulusClass::Poison)
}

fn world_of(vehicles: Vec<Vehicle>, food: Vec<Stimulus>, poison: Vec<Stimulus>) -> World {
    World { vehicles, food, poison, bounds: (100_000, 100_000) }
}

/// Starvation, first tick: one attracted vehicle, one food 10 units to the
/// right, far inside perception. The clamped steering force of 0.5 becomes
/// the whole velocity.
#[test]
fn starvation_first_tick_velocity() {
    let v = vehicle_at(50_000, 50_000, 0, (1000, 0), 1_000_000);
    let f = food_at(60_000, 50_000, 0);
    let mut w = world_of(vec![v], vec![f], vec![]);
    w.tick();
    assert_eq!(w.vehicles[0].velocity, Vec2 { x: 500, y: 0 });
    assert_eq!(w.vehicles[0].position, Vec2 { x: 50_500, y: 50_000 });
    assert_eq!(w.food.len(), 1);
}

/// Starvation, consumption: with a body of size 1 the vehicle reaches
/// contact distance (0.5 units) and eats the food well within 20 ticks.
#[test]
fn starvation_food_is_consumed() {
    let v = vehicle_at(50_000, 50_000, 1000, (1000, 0), 1_000_000);
    let f = food_at(60_000, 50_000, 0);
    let mut w = world_of(vec![v], vec![f], vec![]);
    for _ in 0..20 {
        w.tick();
    }
    assert!(w.food.is_empty());
}

/// Repulsion: the same setup with a negated food gene drives the vehicle
/// away from the food on the first tick.
#[test]
fn repulsion_first_tick_velocity() {
    let v = vehicle_at(50_000, 50_000, 0, (-1000, 0), 1_000_000);
    let f = food_at(60_000, 50_000, 0);
    let mut w = world_of(vec![v], vec![f], vec![]);
    w.tick();
    assert!(w.vehicles[0].velocity.x < 0);
    assert_eq!(w.vehicles[0].velocity, Vec2 { x: -500, y: 0 });
}

/// Two targets at the same distance: the tie breaks to the earlier index, so
/// the vehicle steers toward the first food in the collection.
#[test]
fn two_targets_tie_breaks_to_first() {
    let v = vehicle_at(50_000, 50_000, 0, (1000, 0), 1_000_000);
    let near_right = food_at(60_000, 50_000, 0);
    let near_left = food_at(40_000, 50_000, 0);
    let mut w = world_of(vec![v], vec![near_right, near_left], vec![]);
    w.tick();
    assert!(w.vehicles[0].velocity.x > 0);
    assert_eq!(w.vehicles[0].velocity, Vec2 { x: 500, y: 0 });
}

/// Serialized consumption: two vehicles share a position with one food in
/// contact. The first consumes it (and emits no steering); the second sees
/// the already-consumed state and stays put too.
#[test]
fn serialized_consumption() {
    let a = vehicle_at(50_000, 50_000, 1000, (1000, 0), 1_000_000);
    let b = vehicle_at(50_000, 50_000, 1000, (1000, 0), 1_000_000);
    let f = food_at(50_100, 50_000, 0);
    let mut w = world_of(vec![a, b], vec![f], vec![]);
    w.tick();
    assert_eq!(w.food.len(), 0);
    assert_eq!(w.vehicles[0].velocity, Vec2 { x: 0, y: 0 });
    assert_eq!(w.vehicles[1].velocity, Vec2 { x: 0, y: 0 });
    assert_eq!(w.vehicles[0].position, Vec2 { x: 50_000, y: 50_000 });
    assert_eq!(w.vehicles[1].position, Vec2 { x: 50_000, y: 50_000 });
}

/// Out-of-perception quiescence: a single food far beyond the perception
/// radius never moves the vehicle, over a thousand ticks.
#[test]
fn out_of_perception_quiescence() {
    let v = vehicle_at(50_000, 50_000, 0, (1000, 0), 5_000);
    let f = food_at(70_000, 50_000, 0);
    let mut w = world_of(vec![v], vec![f], vec![]);
    for _ in 0..1000 {
        w.tick();
    }
    assert_eq!(w.vehicles[0].position, Vec2 { x: 50_000, y: 50_000 });
    assert_eq!(w.vehicles[0].velocity, Vec2 { x: 0, y: 0 });
    assert_eq!(w.food.len(), 1);
}

/// Coincident food and poison at the nearest point: the sign of the
/// acceleration's y-component matches the sign of the dominant gene weight.
#[test]
fn poison_weight_governs_acceleration_sign() {
    // Both genes attract: both contributions point up.
    let mut v = vehicle_at(50_000, 50_000, 0, (1000, 1000), 1_000_000);
    v.perception_poison = 1_000_000;
    let mut food = vec![food_at(50_000, 60_000, 0)];
    let mut poison = vec![poison_at(50_000, 60_000, 0)];
    v.behaviors(&mut food, &mut poison);
    assert!(v.acceleration.y > 0);

    // Equal and opposite genes cancel exactly.
    let mut v = vehicle_at(50_000, 50_000, 0, (1000, -1000), 1_000_000);
    v.perception_poison = 1_000_000;
    let mut food = vec![food_at(50_000, 60_000, 0)];
    let mut poison = vec![poison_at(50_000, 60_000, 0)];
    v.behaviors(&mut food, &mut poison);
    assert_eq!(v.acceleration.y, 0);

    // A dominant poison weight flips the sign.
    let mut v = vehicle_at(50_000, 50_000, 0, (1000, -2000), 1_000_000);
    v.perception_poison = 1_000_000;
    let mut food = vec![food_at(50_000, 60_000, 0)];
    let mut poison = vec![poison_at(50_000, 60_000, 0)];
    v.behaviors(&mut food, &mut poison);
    assert!(v.acceleration.y < 0);
}

/// Stimulus counts never grow across ticks, whatever happens.
#[test]
fn stimulus_counts_never_grow() {
    let v1 = vehicle_at(50_000, 50_000, 2000, (1000, 0), 1_000_000);
    let mut v2 = vehicle_at(52_000, 50_000, 2000, (1000, 1000), 1_000_000);
    v2.perception_poison = 1_000_000;
    let food = vec![
        food_at(50_500, 50_000, 1000),
        food_at(53_000, 51_000, 1000),
        food_at(10_000, 10_000, 1000),
    ];
    let poison = vec![poison_at(52_500, 50_000, 1000), poison_at(90_000, 90_000, 1000)];
    let mut w = world_of(vec![v1, v2], food, poison);
    let mut last_food = w.food.len();
    let mut last_poison = w.poison.len();
    for _ in 0..50 {
        w.tick();
        assert!(w.food.len() <= last_food);
        assert!(w.poison.len() <= last_poison);
        last_food = w.food.len();
        last_poison = w.poison.len();
    }
}

/// The speed limit holds after every update, even under a huge acceleration.
#[test]
fn velocity_clamped_to_max_speed() {
    let mut v = vehicle_at(50_000, 50_000, 0, (1000, 0), 1_000_000);
    v.acceleration = Vec2 { x: 10_000, y: 0 };
    v.update();
    assert_eq!(v.velocity, Vec2 { x: 1000, y: 0 });
    let n = (v.velocity.x as i128) * (v.velocity.x as i128)
        + (v.velocity.y as i128) * (v.velocity.y as i128);
    assert!(n <= 1000 * 1000);
    assert_eq!(v.acceleration, Vec2 { x: 0, y: 0 });
}

/// The heading tracks the velocity while it is nonzero and keeps its last
/// direction when the vehicle stops.
#[test]
fn heading_follows_velocity() {
    let mut v = vehicle_at(50_000, 50_000, 0, (1000, 0), 1_000_000);
    v.acceleration = Vec2 { x: 0, y: -300 };
    v.update();
    assert_eq!(v.heading, Vec2 { x: 0, y: -300 });
    v.acceleration = Vec2 { x: 0, y: 300 };
    v.update();
    assert_eq!(v.velocity, Vec2 { x: 0, y: 0 });
    assert_eq!(v.heading, Vec2 { x: 0, y: -300 });
}

/// Zero genes are inert: the vehicle still consumes on contact but never
/// accelerates, so it stays at rest whatever surrounds it.
#[test]
fn zero_dna_never_accelerates() {
    let mut v = vehicle_at(50_000, 50_000, 0, (0, 0), 1_000_000);
    v.perception_poison = 1_000_000;
    let mut food = vec![food_at(51_000, 50_000, 0), food_at(49_000, 52_000, 0)];
    let mut poison = vec![poison_at(50_000, 51_000, 0)];
    v.behaviors(&mut food, &mut poison);
    assert_eq!(v.acceleration, Vec2 { x: 0, y: 0 });
    v.update();
    assert_eq!(v.velocity, Vec2 { x: 0, y: 0 });
    assert_eq!(v.position, Vec2 { x: 50_000, y: 50_000 });
}

/// Only the nearest stimulus is consumed in a pass, even when a farther one
/// also overlaps the vehicle.
#[test]
fn only_nearest_contact_is_consumed() {
    let mut v = vehicle_at(50_000, 50_000, 2000, (1000, 0), 1_000_000);
    let near = food_at(50_100, 50_000, 0);
    let far = food_at(50_900, 50_000, 0);
    let mut food = vec![far, near];
    let mut poison = vec![];
    v.behaviors(&mut food, &mut poison);
    // Both were in contact (radius 1), but only the nearest (index 1) left.
    assert_eq!(food.len(), 1);
    assert_eq!(food[0].pos, Vec2 { x: 50_900, y: 50_000 });
    assert_eq!(v.acceleration, Vec2 { x: 0, y: 0 });
}
