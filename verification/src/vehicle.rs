//! Mobile agents. A vehicle perceives the nearest stimulus of each class,
//! consumes it on contact, otherwise steers toward (or away from) it with a
//! force scaled by the matching gene weight, and integrates its motion by one
//! Euler step under bounded acceleration and speed.

use vstd::prelude::*;
use crate::stimulus::{in_contact, Stimulus};
use crate::vec2::{
    clamped, dist_sq, dist_sq_exec, div_trunc, lemma_sq_bound, lemma_tdiv_bound, norm_sq,
    scaled_to, tdiv, vadd, vsub, within, Vec2,
};
use crate::{ACC_LIMIT, DNA_LIMIT, POS_LIMIT, SCALE, SIZE_LIMIT, SPEED_LIMIT};

verus! {

/// A mobile agent with kinematic state, steering limits and a two-gene
/// weight vector.
#[derive(Clone, Copy, PartialEq, Eq, Debug)]
pub struct Vehicle {
    /// Body size; half of it is the contact radius.
    pub size: i64,
    /// Position in world coordinates.
    pub position: Vec2,
    /// Velocity; its magnitude never exceeds `max_speed`.
    pub velocity: Vec2,
    /// Accumulated steering acceleration; reset to zero by each `update`.
    pub acceleration: Vec2,
    /// Facing direction: the last nonzero velocity (any nonzero vector at
    /// construction). A renderer derives the heading angle from it.
    pub heading: Vec2,
    /// Speed limit, derived from `size` at construction.
    pub max_speed: i64,
    /// Steering-force limit, derived from `size` at construction.
    pub max_steering_force: i64,
    /// Gene weights `(food, poison)`, each within five whole units; the sign
    /// selects attraction or repulsion.
    pub dna: (i64, i64),
    /// How far the vehicle sees food.
    pub perception_food: i64,
    /// How far the vehicle sees poison.
    pub perception_poison: i64,
}

/// `v0` and `v1` agree on every field except possibly the acceleration.
pub open spec fn same_except_acceleration(v0: Vehicle, v1: Vehicle) -> bool {
    &&& v1.size == v0.size
    &&& v1.position == v0.position
    &&& v1.velocity == v0.velocity
    &&& v1.heading == v0.heading
    &&& v1.max_speed == v0.max_speed
    &&& v1.max_steering_force == v0.max_steering_force
    &&& v1.dna == v0.dna
    &&& v1.perception_food == v0.perception_food
    &&& v1.perception_poison == v0.perception_poison
}

/// `v0` and `v1` agree on every non-kinematic field.
pub open spec fn same_limits(v0: Vehicle, v1: Vehicle) -> bool {
    &&& v1.size == v0.size
    &&& v1.max_speed == v0.max_speed
    &&& v1.max_steering_force == v0.max_steering_force
    &&& v1.dna == v0.dna
    &&& v1.perception_food == v0.perception_food
    &&& v1.perception_poison == v0.perception_poison
}

/// `i` is the index of the nearest stimulus in `s` to `pos`, earliest index
/// winning ties.
pub open spec fn is_nearest(pos: (int, int), s: Seq<Stimulus>, i: int) -> bool {
    &&& 0 <= i < s.len()
    &&& forall|j: int|
        0 <= j < s.len() ==> dist_sq(pos, s[i].pos@) <= #[trigger] dist_sq(pos, s[j].pos@)
    &&& forall|j: int| 0 <= j < i ==> dist_sq(pos, s[i].pos@) < #[trigger] dist_sq(pos, s[j].pos@)
}

/// `c` is the steering contribution of a target at `target` for a vehicle at
/// `pos` moving at `vel`: the desired velocity points at the target with
/// magnitude `ms`, the steering force `desired - vel` is clamped to `msf`,
/// and the result is scaled by the gene weight `w` (in `SCALE` units).
pub open spec fn contrib_rel(
    pos: (int, int),
    vel: (int, int),
    ms: int,
    msf: int,
    target: (int, int),
    w: int,
    c: (int, int),
) -> bool {
    exists|desired: (int, int), steer: (int, int)|
        {
            &&& #[trigger] scaled_to(vsub(target, pos), ms, desired)
            &&& #[trigger] clamped(vsub(desired, vel), msf, steer)
            &&& c == (tdiv(steer.0 * w, SCALE as int), tdiv(steer.1 * w, SCALE as int))
        }
}

/// One perception pass over the stimulus collection of one class: `s1` and
/// `c` are the collection afterwards and the steering contribution. If the
/// collection is empty nothing happens; otherwise, with `i` the nearest
/// stimulus: on contact it is consumed (removed) and no steering is emitted;
/// within the perception radius `perc` a steering contribution is emitted;
/// beyond it nothing happens.
pub open spec fn pass_rel(
    vsize: int,
    pos: (int, int),
    vel: (int, int),
    ms: int,
    msf: int,
    w: int,
    perc: int,
    s0: Seq<Stimulus>,
    s1: Seq<Stimulus>,
    c: (int, int),
) -> bool {
    if s0.len() == 0 {
        s1 == s0 && c == (0int, 0int)
    } else {
        exists|i: int|
            {
                &&& #[trigger] is_nearest(pos, s0, i)
                &&& if in_contact(vsize, pos, s0[i]) {
                    s1 == s0.remove(i) && c == (0int, 0int)
                } else if dist_sq(pos, s0[i].pos@) <= perc * perc {
                    s1 == s0 && contrib_rel(pos, vel, ms, msf, s0[i].pos@, w, c)
                } else {
                    s1 == s0 && c == (0int, 0int)
                }
            }
    }
}

/// The effect of one `behaviors` call: the food pass and the poison pass
/// each follow `pass_rel` against the vehicle's incoming state, their
/// contributions are added to the acceleration in that order, and no other
/// field changes.
pub open spec fn behaviors_rel(
    v0: Vehicle,
    v1: Vehicle,
    f0: Seq<Stimulus>,
    f1: Seq<Stimulus>,
    p0: Seq<Stimulus>,
    p1: Seq<Stimulus>,
) -> bool {
    &&& same_except_acceleration(v0, v1)
    &&& exists|cf: (int, int), cp: (int, int)|
        {
            &&& #[trigger] pass_rel(
                v0.size as int,
                v0.position@,
                v0.velocity@,
                v0.max_speed as int,
                v0.max_steering_force as int,
                v0.dna.0 as int,
                v0.perception_food as int,
                f0,
                f1,
                cf,
            )
            &&& #[trigger] pass_rel(
                v0.size as int,
                v0.position@,
                v0.velocity@,
                v0.max_speed as int,
                v0.max_steering_force as int,
                v0.dna.1 as int,
                v0.perception_poison as int,
                p0,
                p1,
                cp,
            )
            &&& v1.acceleration@ == vadd(vadd(v0.acceleration@, cf), cp)
        }
}

/// Positions saturate at the edge of the fixed-point working range.
pub open spec fn sat(a: int) -> int {
    if a > POS_LIMIT as int {
        POS_LIMIT as int
    } else if a < -(POS_LIMIT as int) {
        -(POS_LIMIT as int)
    } else {
        a
    }
}

/// The effect of one `update` call, one Euler step at unit time: the
/// acceleration is added to the velocity, the velocity is clamped to
/// `max_speed`, the position advances by the new velocity (saturating at the
/// working range), the heading follows a nonzero velocity, and the
/// acceleration is reset to zero.
pub open spec fn update_rel(v0: Vehicle, v1: Vehicle) -> bool {
    &&& same_limits(v0, v1)
    &&& exists|vel1: (int, int)|
        {
            &&& #[trigger] clamped(vadd(v0.velocity@, v0.acceleration@), v0.max_speed as int, vel1)
            &&& v1.velocity@ == vel1
            &&& v1.position@ == (sat(v0.position@.0 + vel1.0), sat(v0.position@.1 + vel1.1))
            &&& v1.heading@ == if vel1 != (0int, 0int) {
                vel1
            } else {
                v0.heading@
            }
            &&& v1.acceleration@ == (0int, 0int)
        }
}

impl Vehicle {
    /// All fields lie within the fixed-point working range and the velocity
    /// respects the speed limit.
    pub open spec fn wf(self) -> bool {
        &&& 0 <= self.size <= SIZE_LIMIT
        &&& 0 < self.max_speed <= SPEED_LIMIT
        &&& 0 < self.max_steering_force <= SPEED_LIMIT
        &&& -DNA_LIMIT <= self.dna.0 <= DNA_LIMIT
        &&& -DNA_LIMIT <= self.dna.1 <= DNA_LIMIT
        &&& 0 < self.perception_food <= POS_LIMIT
        &&& 0 < self.perception_poison <= POS_LIMIT
        &&& within(self.position@, POS_LIMIT as int)
        &&& norm_sq(self.velocity@) <= self.max_speed * self.max_speed
    }

    /// Constructs a vehicle at rest: zero velocity and acceleration.
    pub fn new(
        size: i64,
        max_speed: i64,
        max_steering_force: i64,
        position: Vec2,
        heading: Vec2,
        dna: (i64, i64),
        perception_food: i64,
        perception_poison: i64,
    ) -> (v: Vehicle)
        requires
            0 <= size <= SIZE_LIMIT,
            0 < max_speed <= SPEED_LIMIT,
            0 < max_steering_force <= SPEED_LIMIT,
            -DNA_LIMIT <= dna.0 <= DNA_LIMIT,
            -DNA_LIMIT <= dna.1 <= DNA_LIMIT,
            0 < perception_food <= POS_LIMIT,
            0 < perception_poison <= POS_LIMIT,
            within(position@, POS_LIMIT as int),
        ensures
            v.size == size,
            v.position == position,
            v.velocity@ == (0int, 0int),
            v.acceleration@ == (0int, 0int),
            v.heading == heading,
            v.max_speed == max_speed,
            v.max_steering_force == max_steering_force,
            v.dna == dna,
            v.perception_food == perception_food,
            v.perception_poison == perception_poison,
            v.wf(),
    {
        let v = Vehicle {
            size,
            position,
            velocity: Vec2::zero(),
            acceleration: Vec2::zero(),
            heading,
            max_speed,
            max_steering_force,
            dna,
            perception_food,
            perception_poison,
        };
        proof {
            assert(norm_sq(v.velocity@) == 0);
            assert(max_speed * max_speed > 0) by (nonlinear_arith)
                requires
                    max_speed > 0,
            ;
        }
        v
    }

    /// The index of the nearest stimulus to `pos`, earliest index winning
    /// ties; `None` exactly on an empty collection.
    pub fn nearest(pos: Vec2, stimuli: &Vec<Stimulus>) -> (r: Option<usize>)
        requires
            within(pos@, POS_LIMIT as int),
            forall|j: int| 0 <= j < stimuli@.len() ==> (#[trigger] stimuli@[j]).wf(),
        ensures
            match r {
                Option::None => stimuli@.len() == 0,
                Option::Some(i) => is_nearest(pos@, stimuli@, i as int),
            },
    {
        if stimuli.len() == 0 {
            return Option::None;
        }
        let mut best: usize = 0;
        let mut best_d: i128 = dist_sq_exec(pos, stimuli[0].pos);
        let mut i: usize = 1;
        while i < stimuli.len()
            invariant
                1 <= i <= stimuli@.len(),
                0 <= best < i,
                within(pos@, POS_LIMIT as int),
                forall|j: int| 0 <= j < stimuli@.len() ==> (#[trigger] stimuli@[j]).wf(),
                best_d == dist_sq(pos@, stimuli@[best as int].pos@),
                forall|j: int|
                    0 <= j < i ==> best_d <= #[trigger] dist_sq(pos@, stimuli@[j].pos@),
                forall|j: int|
                    0 <= j < best ==> best_d < #[trigger] dist_sq(pos@, stimuli@[j].pos@),
            decreases stimuli@.len() - i,
        {
            let d = dist_sq_exec(pos, stimuli[i].pos);
            if d < best_d {
                best = i;
                best_d = d;
            }
            i += 1;
        }
        Option::Some(best)
    }

    /// The steering contribution of a perceived target at `target`, scaled by
    /// the gene weight `weight`; each component is bounded by five times the
    /// steering-force limit.
    fn steer_toward(&self, target: Vec2, weight: i64) -> (c: Vec2)
        requires
            self.wf(),
            within(target@, POS_LIMIT as int),
            -DNA_LIMIT <= weight <= DNA_LIMIT,
        ensures
            contrib_rel(
                self.position@,
                self.velocity@,
                self.max_speed as int,
                self.max_steering_force as int,
                target@,
                weight as int,
                c@,
            ),
            within(c@, 5 * self.max_steering_force),
    {
        proof {
            lemma_velocity_component_bound(*self);
        }
        let diff = target.sub(self.position);
        let desired = crate::vec2::scale_to(diff, self.max_speed);
        let steer0 = desired.sub(self.velocity);
        let steer = crate::vec2::clamp_norm(steer0, self.max_steering_force);
        let msf = self.max_steering_force;
        proof {
            assert((steer.x as int) * (steer.x as int) <= (msf as int) * (msf as int)
                && (steer.y as int) * (steer.y as int) <= (msf as int) * (msf as int))
                by (nonlinear_arith)
                requires
                    (steer.x as int) * (steer.x as int) + (steer.y as int) * (steer.y as int)
                        <= (msf as int) * (msf as int),
            ;
            lemma_sq_bound(steer.x as int, msf as int);
            lemma_sq_bound(steer.y as int, msf as int);
            assert(-((5 * msf) * (SCALE as int)) <= (steer.x as int) * (weight as int)
                <= (5 * msf) * (SCALE as int)
                && -((5 * msf) * (SCALE as int)) <= (steer.y as int) * (weight as int)
                <= (5 * msf) * (SCALE as int)) by (nonlinear_arith)
                requires
                    -(msf as int) <= steer.x as int <= msf as int,
                    -(msf as int) <= steer.y as int <= msf as int,
                    -5000 <= weight as int <= 5000,
                    SCALE == 1000,
                    msf >= 0,
            ;
        }
        let px = (steer.x as i128) * (weight as i128);
        let py = (steer.y as i128) * (weight as i128);
        let cx = div_trunc(px, 1000);
        let cy = div_trunc(py, 1000);
        proof {
            lemma_tdiv_bound(px as int, SCALE as int, 5 * msf);
            lemma_tdiv_bound(py as int, SCALE as int, 5 * msf);
        }
        let c = Vec2 { x: cx as i64, y: cy as i64 };
        proof {
            assert(vsub(target@, self.position@) == diff@);
            assert(scaled_to(vsub(target@, self.position@), self.max_speed as int, desired@));
            assert(vsub(desired@, self.velocity@) == steer0@);
            assert(clamped(vsub(desired@, self.velocity@), msf as int, steer@));
            assert(c@ == (tdiv(steer@.0 * (weight as int), SCALE as int),
                tdiv(steer@.1 * (weight as int), SCALE as int)));
        }
        c
    }

    /// One perception pass for one stimulus class with gene weight `weight`
    /// and perception radius `perception`: consumes the nearest stimulus on
    /// contact, otherwise steers if it is perceived. Adds the pass's
    /// contribution to the acceleration, changes nothing else, and reports
    /// the contribution as a ghost value.
    fn seek(&mut self, stimuli: &mut Vec<Stimulus>, weight: i64, perception: i64) -> (gc: Ghost<
        (int, int),
    >)
        requires
            old(self).wf(),
            -DNA_LIMIT <= weight <= DNA_LIMIT,
            0 < perception <= POS_LIMIT,
            within(old(self).acceleration@, ACC_LIMIT as int + 5 * SPEED_LIMIT as int),
            forall|j: int| 0 <= j < old(stimuli)@.len() ==> (#[trigger] old(stimuli)@[j]).wf(),
        ensures
            same_except_acceleration(*old(self), *final(self)),
            forall|j: int| 0 <= j < final(stimuli)@.len() ==> (#[trigger] final(stimuli)@[j]).wf(),
            old(stimuli)@.len() - 1 <= final(stimuli)@.len() <= old(stimuli)@.len(),
            pass_rel(
                old(self).size as int,
                old(self).position@,
                old(self).velocity@,
                old(self).max_speed as int,
                old(self).max_steering_force as int,
                weight as int,
                perception as int,
                old(stimuli)@,
                final(stimuli)@,
                gc@,
            ),
            final(self).acceleration@ == vadd(old(self).acceleration@, gc@),
            within(gc@, 5 * old(self).max_steering_force as int),
    {
        let r = Vehicle::nearest(self.position, stimuli);
        match r {
            Option::None => {
                proof {
                    assert(self.acceleration@ == vadd(self.acceleration@, (0int, 0int)));
                }
                Ghost((0int, 0int))
            },
            Option::Some(i) => {
                let s = stimuli[i];
                let d2 = dist_sq_exec(self.position, s.pos);
                let sum = self.size + s.size;
                proof {
                    assert((sum as int) * (sum as int) <= 4_000_000_000_000_000_000int
                        && (sum as int) * (sum as int) >= 0) by (nonlinear_arith)
                        requires
                            0 <= sum as int <= 2_000_000_000,
                    ;
                    assert((perception as int) * (perception as int)
                        <= 1_000_000_000_000_000_000_000_000int
                        && (perception as int) * (perception as int) >= 0) by (nonlinear_arith)
                        requires
                            0 <= perception as int <= POS_LIMIT as int,
                    ;
                    lemma_dist_sq_range(self.position@, s.pos@);
                }
                if 4 * d2 <= (sum as i128) * (sum as i128) {
                    stimuli.remove(i);
                    proof {
                        let gi = i as int;
                        assert(in_contact(self.size as int, self.position@, old(stimuli)@[gi]));
                        assert(pass_rel(
                            self.size as int,
                            self.position@,
                            self.velocity@,
                            self.max_speed as int,
                            self.max_steering_force as int,
                            weight as int,
                            perception as int,
                            old(stimuli)@,
                            stimuli@,
                            (0int, 0int),
                        ));
                        assert(self.acceleration@ == vadd(self.acceleration@, (0int, 0int)));
                        assert(forall|j: int|
                            0 <= j < stimuli@.len() ==> (#[trigger] stimuli@[j]).wf());
                    }
                    Ghost((0int, 0int))
                } else if d2 <= (perception as i128) * (perception as i128) {
                    let c = self.steer_toward(s.pos, weight);
                    self.acceleration = self.acceleration.add(c);
                    proof {
                        let gi = i as int;
                        assert(!in_contact(old(self).size as int, old(self).position@, stimuli@[gi]));
                        assert(pass_rel(
                            old(self).size as int,
                            old(self).position@,
                            old(self).velocity@,
                            old(self).max_speed as int,
                            old(self).max_steering_force as int,
                            weight as int,
                            perception as int,
                            stimuli@,
                            stimuli@,
                            c@,
                        ));
                    }
                    Ghost(c@)
                } else {
                    proof {
                        let gi = i as int;
                        assert(!in_contact(self.size as int, self.position@, stimuli@[gi]));
                        assert(pass_rel(
                            self.size as int,
                            self.position@,
                            self.velocity@,
                            self.max_speed as int,
                            self.max_steering_force as int,
                            weight as int,
                            perception as int,
                            stimuli@,
                            stimuli@,
                            (0int, 0int),
                        ));
                        assert(self.acceleration@ == vadd(self.acceleration@, (0int, 0int)));
                    }
                    Ghost((0int, 0int))
                }
            },
        }
    }

    /// One full perception step: the food pass, then the poison pass, each
    /// adding its steering contribution to the acceleration. Consumed
    /// stimuli are removed from their collection.
    pub fn behaviors(&mut self, food: &mut Vec<Stimulus>, poison: &mut Vec<Stimulus>)
        requires
            old(self).wf(),
            within(old(self).acceleration@, ACC_LIMIT as int),
            forall|j: int| 0 <= j < old(food)@.len() ==> (#[trigger] old(food)@[j]).wf(),
            forall|j: int| 0 <= j < old(poison)@.len() ==> (#[trigger] old(poison)@[j]).wf(),
        ensures
            final(self).wf(),
            behaviors_rel(
                *old(self),
                *final(self),
                old(food)@,
                final(food)@,
                old(poison)@,
                final(poison)@,
            ),
            within(final(self).acceleration@, ACC_LIMIT as int + 10 * SPEED_LIMIT as int),
            old(food)@.len() - 1 <= final(food)@.len() <= old(food)@.len(),
            old(poison)@.len() - 1 <= final(poison)@.len() <= old(poison)@.len(),
            forall|j: int| 0 <= j < final(food)@.len() ==> (#[trigger] final(food)@[j]).wf(),
            forall|j: int| 0 <= j < final(poison)@.len() ==> (#[trigger] final(poison)@[j]).wf(),
    {
        let wf_gene = self.dna.0;
        let wp_gene = self.dna.1;
        let perc_f = self.perception_food;
        let perc_p = self.perception_poison;
        let cf = self.seek(food, wf_gene, perc_f);
        let ghost mid = *self;
        let cp = self.seek(poison, wp_gene, perc_p);
        proof {
            let v0 = *old(self);
            assert(pass_rel(
                v0.size as int,
                v0.position@,
                v0.velocity@,
                v0.max_speed as int,
                v0.max_steering_force as int,
                v0.dna.0 as int,
                v0.perception_food as int,
                old(food)@,
                food@,
                cf@,
            ));
            assert(pass_rel(
                v0.size as int,
                v0.position@,
                v0.velocity@,
                v0.max_speed as int,
                v0.max_steering_force as int,
                v0.dna.1 as int,
                v0.perception_poison as int,
                old(poison)@,
                poison@,
                cp@,
            ));
            assert(self.acceleration@ == vadd(vadd(v0.acceleration@, cf@), cp@));
        }
    }

    /// One Euler integration step at unit time: add the acceleration to the
    /// velocity, clamp the velocity to `max_speed`, advance the position,
    /// track the heading, and reset the acceleration.
    pub fn update(&mut self)
        requires
            old(self).wf(),
            within(old(self).acceleration@, ACC_LIMIT as int + 10 * SPEED_LIMIT as int),
        ensures
            final(self).wf(),
            update_rel(*old(self), *final(self)),
            final(self).acceleration@ == (0int, 0int),
            norm_sq(final(self).velocity@) <= final(self).max_speed * final(self).max_speed,
    {
        proof {
            lemma_velocity_component_bound(*self);
        }
        let v1 = crate::vec2::clamp_norm(
            self.velocity.add(self.acceleration),
            self.max_speed,
        );
        self.velocity = v1;
        self.position = Vec2 {
            x: sat_add(self.position.x, v1.x),
            y: sat_add(self.position.y, v1.y),
        };
        if !(v1.x == 0 && v1.y == 0) {
            self.heading = v1;
        }
        self.acceleration = Vec2::zero();
        proof {
            let v0 = *old(self);
            let vel1 = v1@;
            assert(clamped(vadd(v0.velocity@, v0.acceleration@), v0.max_speed as int, vel1));
            assert(self.position@ == (sat(v0.position@.0 + vel1.0), sat(v0.position@.1 + vel1.1)));
            assert((v1.x == 0 && v1.y == 0) <==> vel1 == (0int, 0int));
            assert(self.heading@ == if vel1 != (0int, 0int) {
                vel1
            } else {
                v0.heading@
            });
        }
    }
}

/// Saturating addition of a displacement to a coordinate: the sum, clamped to
/// the working range.
fn sat_add(a: i64, b: i64) -> (r: i64)
    requires
        -POS_LIMIT <= a <= POS_LIMIT,
        -(10 * POS_LIMIT) <= b <= 10 * POS_LIMIT,
    ensures
        r == sat(a + b),
        -POS_LIMIT <= r <= POS_LIMIT,
{
    let s = a + b;
    if s > POS_LIMIT {
        POS_LIMIT
    } else if s < -POS_LIMIT {
        -POS_LIMIT
    } else {
        s
    }
}

/// A well-formed vehicle's velocity components are bounded by its speed
/// limit.
pub proof fn lemma_velocity_component_bound(v: Vehicle)
    requires
        v.wf(),
    ensures
        within(v.velocity@, v.max_speed as int),
{
    assert((v.velocity.x as int) * (v.velocity.x as int) <= (v.max_speed as int) * (v.max_speed
        as int) && (v.velocity.y as int) * (v.velocity.y as int) <= (v.max_speed as int) * (
    v.max_speed as int)) by (nonlinear_arith)
        requires
            (v.velocity.x as int) * (v.velocity.x as int) + (v.velocity.y as int) * (v.velocity.y
                as int) <= (v.max_speed as int) * (v.max_speed as int),
    ;
    lemma_sq_bound(v.velocity.x as int, v.max_speed as int);
    lemma_sq_bound(v.velocity.y as int, v.max_speed as int);
}

/// Squared distances between in-range points are nonnegative and fit the
/// working range.
pub proof fn lemma_dist_sq_range(a: (int, int), b: (int, int))
    requires
        within(a, POS_LIMIT as int),
        within(b, POS_LIMIT as int),
    ensures
        0 <= dist_sq(a, b) <= 8_000_000_000_000_000_000_000_000int,
{
    assert(0 <= dist_sq(a, b) <= 8_000_000_000_000_000_000_000_000int) by (nonlinear_arith)
        requires
            within(a, POS_LIMIT as int),
            within(b, POS_LIMIT as int),
            dist_sq(a, b) == (a.0 - b.0) * (a.0 - b.0) + (a.1 - b.1) * (a.1 - b.1),
            POS_LIMIT == 1_000_000_000_000,
    ;
}

} // verus!
