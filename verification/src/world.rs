//! The world: the vehicle collection, the two stimulus collections, and the
//! tick driver that runs every vehicle through perception and integration in
//! stable order. Construction samples sizes, positions and genes uniformly
//! from the configured ranges.

use vstd::prelude::*;
use crate::config::{ConfigError, SimConfig};
use crate::mapping::{lemma_map_range_bounds, map_range, map_range_spec};
use crate::stimulus::{Stimulus, StimulusClass};
use crate::vec2::Vec2;
use crate::vehicle::{behaviors_rel, update_rel, Vehicle};
use crate::{DNA_LIMIT, SCALE};

verus! {

/// Relies on `rand::random_range`: a uniform draw from `lo..hi` with the
/// thread-local generator, which panics only on an empty range; every value
/// it returns lies in `[lo, hi)`.
#[verifier::external_body]
fn sample_range(lo: i64, hi: i64) -> (r: i64)
    requires
        lo < hi,
    ensures
        lo <= r < hi,
{
    rand::random_range(lo..hi)
}

/// One vehicle's step within a tick: a `behaviors` pass over both stimulus
/// collections followed by an `update`.
pub open spec fn step_rel(
    v0: Vehicle,
    f0: Seq<Stimulus>,
    p0: Seq<Stimulus>,
    v1: Vehicle,
    f1: Seq<Stimulus>,
    p1: Seq<Stimulus>,
) -> bool {
    exists|vm: Vehicle|
        #[trigger] behaviors_rel(v0, vm, f0, f1, p0, p1) && update_rel(vm, v1)
}

/// One full tick: the vehicles of `vs0` step in order, each seeing the
/// stimulus collections left by its predecessors, ending with `f1` and `p1`;
/// `vs1` are the stepped vehicles in the same order.
pub open spec fn tick_rel(
    vs0: Seq<Vehicle>,
    f0: Seq<Stimulus>,
    p0: Seq<Stimulus>,
    vs1: Seq<Vehicle>,
    f1: Seq<Stimulus>,
    p1: Seq<Stimulus>,
) -> bool
    decreases vs0.len(),
{
    if vs0.len() == 0 {
        vs1.len() == 0 && f1 == f0 && p1 == p0
    } else {
        vs1.len() == vs0.len() && exists|fm: Seq<Stimulus>, pm: Seq<Stimulus>|
            #[trigger] step_rel(vs0[0], f0, p0, vs1[0], fm, pm) && tick_rel(
                vs0.drop_first(),
                fm,
                pm,
                vs1.drop_first(),
                f1,
                p1,
            )
    }
}

/// Extending a tick by one more stepped vehicle at the end.
pub proof fn lemma_tick_rel_snoc(
    vs0: Seq<Vehicle>,
    f0: Seq<Stimulus>,
    p0: Seq<Stimulus>,
    vs1: Seq<Vehicle>,
    f1: Seq<Stimulus>,
    p1: Seq<Stimulus>,
    v0: Vehicle,
    v1: Vehicle,
    f2: Seq<Stimulus>,
    p2: Seq<Stimulus>,
)
    requires
        tick_rel(vs0, f0, p0, vs1, f1, p1),
        step_rel(v0, f1, p1, v1, f2, p2),
    ensures
        tick_rel(vs0.push(v0), f0, p0, vs1.push(v1), f2, p2),
    decreases vs0.len(),
{
    if vs0.len() == 0 {
        assert(vs0.push(v0)[0] == v0);
        assert(vs1.push(v1)[0] == v1);
        assert(vs0.push(v0).drop_first() =~= Seq::<Vehicle>::empty());
        assert(vs1.push(v1).drop_first() =~= Seq::<Vehicle>::empty());
        assert(tick_rel(vs0.push(v0).drop_first(), f2, p2, vs1.push(v1).drop_first(), f2, p2));
    } else {
        let (fmid, pmid): (Seq<Stimulus>, Seq<Stimulus>) = choose|
            fmid: Seq<Stimulus>,
            pmid: Seq<Stimulus>,
        |
            #[trigger] step_rel(vs0[0], f0, p0, vs1[0], fmid, pmid) && tick_rel(
                vs0.drop_first(),
                fmid,
                pmid,
                vs1.drop_first(),
                f1,
                p1,
            );
        lemma_tick_rel_snoc(
            vs0.drop_first(),
            fmid,
            pmid,
            vs1.drop_first(),
            f1,
            p1,
            v0,
            v1,
            f2,
            p2,
        );
        assert(vs0.push(v0).drop_first() =~= vs0.drop_first().push(v0));
        assert(vs1.push(v1).drop_first() =~= vs1.drop_first().push(v1));
        assert(vs0.push(v0)[0] == vs0[0]);
        assert(vs1.push(v1)[0] == vs1[0]);
    }
}

/// Every vehicle of a tick performs one step: against some pair of stimulus
/// collections (those its predecessors left) it runs `behaviors` and
/// `update`, producing the vehicle at the same index afterwards.
pub proof fn lemma_tick_rel_each_vehicle_steps(
    vs0: Seq<Vehicle>,
    f0: Seq<Stimulus>,
    p0: Seq<Stimulus>,
    vs1: Seq<Vehicle>,
    f1: Seq<Stimulus>,
    p1: Seq<Stimulus>,
    k: int,
)
    requires
        tick_rel(vs0, f0, p0, vs1, f1, p1),
        0 <= k < vs0.len(),
    ensures
        exists|fa: Seq<Stimulus>, pa: Seq<Stimulus>, fb: Seq<Stimulus>, pb: Seq<Stimulus>|
            #[trigger] step_rel(vs0[k], fa, pa, vs1[k], fb, pb),
    decreases k,
{
    let (fm, pm): (Seq<Stimulus>, Seq<Stimulus>) = choose|fm: Seq<Stimulus>, pm: Seq<Stimulus>|
        #[trigger] step_rel(vs0[0], f0, p0, vs1[0], fm, pm) && tick_rel(
            vs0.drop_first(),
            fm,
            pm,
            vs1.drop_first(),
            f1,
            p1,
        );
    if k == 0 {
        assert(step_rel(vs0[0], f0, p0, vs1[0], fm, pm));
    } else {
        lemma_tick_rel_each_vehicle_steps(
            vs0.drop_first(),
            fm,
            pm,
            vs1.drop_first(),
            f1,
            p1,
            k - 1,
        );
        assert(vs0.drop_first()[k - 1] == vs0[k]);
        assert(vs1.drop_first()[k - 1] == vs1[k]);
    }
}

/// The world: every vehicle, the two stimulus collections, and the bounds
/// positions are sampled in.
pub struct World {
    /// The vehicles, in stable iteration order.
    pub vehicles: Vec<Vehicle>,
    /// The food stimuli; consumption removes elements.
    pub food: Vec<Stimulus>,
    /// The poison stimuli; consumption removes elements.
    pub poison: Vec<Stimulus>,
    /// World bounds `(width, height)`.
    pub bounds: (i64, i64),
}

/// A freshly constructed vehicle's fields against the configuration it was
/// sampled from: the size lies in the configured range, the limits are the
/// affine maps of the size, the position lies in the window, the genes are
/// within their range, the facing direction is nonzero, and the vehicle is
/// at rest.
pub open spec fn vehicle_from_config(v: Vehicle, c: SimConfig) -> bool {
    &&& c.vehicle_size_range.0 <= v.size < c.vehicle_size_range.1
    &&& v.max_speed == map_range_spec(
        v.size as int,
        c.vehicle_size_range.0 as int,
        c.vehicle_size_range.1 as int,
        c.max_speed_range.0 as int,
        c.max_speed_range.1 as int,
    )
    &&& v.max_steering_force == map_range_spec(
        v.size as int,
        c.vehicle_size_range.0 as int,
        c.vehicle_size_range.1 as int,
        c.max_steering_force_range.0 as int,
        c.max_steering_force_range.1 as int,
    )
    &&& 0 <= v.position.x < c.window_size.0
    &&& 0 <= v.position.y < c.window_size.1
    &&& -DNA_LIMIT <= v.dna.0 < DNA_LIMIT
    &&& -DNA_LIMIT <= v.dna.1 < DNA_LIMIT
    &&& v.perception_food == c.perception_food
    &&& v.perception_poison == c.perception_poison
    &&& v.heading@ != (0int, 0int)
    &&& v.velocity@ == (0int, 0int)
    &&& v.acceleration@ == (0int, 0int)
}

/// A freshly constructed stimulus against its configured size range, the
/// window and its class.
pub open spec fn stimulus_from_config(
    s: Stimulus,
    size_range: (i64, i64),
    window: (i64, i64),
    class: StimulusClass,
) -> bool {
    &&& size_range.0 <= s.size < size_range.1
    &&& 0 <= s.pos.x < window.0
    &&& 0 <= s.pos.y < window.1
    &&& s.class == class
}

impl World {
    /// Every vehicle is well formed and at rest between ticks; every food
    /// stimulus is well formed and tagged food, every poison stimulus well
    /// formed and tagged poison.
    pub open spec fn wf(self) -> bool {
        &&& forall|j: int|
            0 <= j < self.vehicles@.len() ==> (#[trigger] self.vehicles@[j]).wf()
                && self.vehicles@[j].acceleration@ == (0int, 0int)
        &&& forall|j: int|
            0 <= j < self.food@.len() ==> (#[trigger] self.food@[j]).wf()
                && self.food@[j].class == StimulusClass::Food
        &&& forall|j: int|
            0 <= j < self.poison@.len() ==> (#[trigger] self.poison@[j]).wf()
                && self.poison@[j].class == StimulusClass::Poison
    }

    /// Builds a world from a configuration, sampling vehicle sizes,
    /// positions, headings and genes, and stimulus sizes and positions,
    /// uniformly from the configured ranges. Rejects an invalid
    /// configuration with the first violated field.
    pub fn new(config: &SimConfig) -> (r: Result<World, ConfigError>)
        ensures
            r is Ok <==> config.valid(),
            match r {
                Result::Ok(w) => {
                    &&& w.wf()
                    &&& w.bounds == config.window_size
                    &&& w.vehicles@.len() == config.vehicle_quantity
                    &&& w.food@.len() == config.food_quantity
                    &&& w.poison@.len() == config.poison_quantity
                    &&& forall|j: int|
                        0 <= j < w.vehicles@.len() ==> vehicle_from_config(
                            #[trigger] w.vehicles@[j],
                            *config,
                        )
                    &&& forall|j: int|
                        0 <= j < w.food@.len() ==> stimulus_from_config(
                            #[trigger] w.food@[j],
                            config.food_size_range,
                            config.window_size,
                            StimulusClass::Food,
                        )
                    &&& forall|j: int|
                        0 <= j < w.poison@.len() ==> stimulus_from_config(
                            #[trigger] w.poison@[j],
                            config.poison_size_range,
                            config.window_size,
                            StimulusClass::Poison,
                        )
                },
                Result::Err(e) => config.validation_of() == Result::<(), ConfigError>::Err(e),
            },
    {
        match config.validate() {
            Result::Err(e) => Result::Err(e),
            Result::Ok(()) => {
                let mut vehicles: Vec<Vehicle> = Vec::new();
                let mut k: usize = 0;
                while k < config.vehicle_quantity
                    invariant
                        config.valid(),
                        k == vehicles@.len() <= config.vehicle_quantity,
                        forall|j: int|
                            0 <= j < vehicles@.len() ==> (#[trigger] vehicles@[j]).wf()
                                && vehicle_from_config(vehicles@[j], *config),
                    decreases config.vehicle_quantity - k,
                {
                    let size = sample_range(
                        config.vehicle_size_range.0,
                        config.vehicle_size_range.1,
                    );
                    let ms = map_range(size, config.vehicle_size_range, config.max_speed_range);
                    let msf = map_range(
                        size,
                        config.vehicle_size_range,
                        config.max_steering_force_range,
                    );
                    proof {
                        lemma_map_range_bounds(
                            size as int,
                            config.vehicle_size_range.0 as int,
                            config.vehicle_size_range.1 as int,
                            config.max_speed_range.0 as int,
                            config.max_speed_range.1 as int,
                        );
                        lemma_map_range_bounds(
                            size as int,
                            config.vehicle_size_range.0 as int,
                            config.vehicle_size_range.1 as int,
                            config.max_steering_force_range.0 as int,
                            config.max_steering_force_range.1 as int,
                        );
                    }
                    let px = sample_range(0, config.window_size.0);
                    let py = sample_range(0, config.window_size.1);
                    let hx = sample_range(-SCALE, SCALE);
                    let hy = sample_range(-SCALE, SCALE);
                    let heading = if hx == 0 && hy == 0 {
                        Vec2 { x: SCALE, y: 0 }
                    } else {
                        Vec2 { x: hx, y: hy }
                    };
                    proof {
                        assert(heading@ != (0int, 0int));
                    }
                    let d0 = sample_range(-DNA_LIMIT, DNA_LIMIT);
                    let d1 = sample_range(-DNA_LIMIT, DNA_LIMIT);
                    let v = Vehicle::new(
                        size,
                        ms,
                        msf,
                        Vec2 { x: px, y: py },
                        heading,
                        (d0, d1),
                        config.perception_food,
                        config.perception_poison,
                    );
                    vehicles.push(v);
                    k += 1;
                }
                let mut food: Vec<Stimulus> = Vec::new();
                let mut k: usize = 0;
                while k < config.food_quantity
                    invariant
                        config.valid(),
                        k == food@.len() <= config.food_quantity,
                        forall|j: int|
                            0 <= j < food@.len() ==> (#[trigger] food@[j]).wf()
                                && stimulus_from_config(
                                food@[j],
                                config.food_size_range,
                                config.window_size,
                                StimulusClass::Food,
                            ),
                    decreases config.food_quantity - k,
                {
                    let size = sample_range(config.food_size_range.0, config.food_size_range.1);
                    let px = sample_range(0, config.window_size.0);
                    let py = sample_range(0, config.window_size.1);
                    food.push(
                        Stimulus::new(size, Vec2 { x: px, y: py }, StimulusClass::Food),
                    );
                    k += 1;
                }
                let mut poison: Vec<Stimulus> = Vec::new();
                let mut k: usize = 0;
                while k < config.poison_quantity
                    invariant
                        config.valid(),
                        k == poison@.len() <= config.poison_quantity,
                        forall|j: int|
                            0 <= j < poison@.len() ==> (#[trigger] poison@[j]).wf()
                                && stimulus_from_config(
                                poison@[j],
                                config.poison_size_range,
                                config.window_size,
                                StimulusClass::Poison,
                            ),
                    decreases config.poison_quantity - k,
                {
                    let size = sample_range(
                        config.poison_size_range.0,
                        config.poison_size_range.1,
                    );
                    let px = sample_range(0, config.window_size.0);
                    let py = sample_range(0, config.window_size.1);
                    poison.push(
                        Stimulus::new(size, Vec2 { x: px, y: py }, StimulusClass::Poison),
                    );
                    k += 1;
                }
                Result::Ok(World { vehicles, food, poison, bounds: config.window_size })
            },
        }
    }

    /// One tick: every vehicle, in stable order, perceives and consumes
    /// against the current stimulus collections and then integrates. Later
    /// vehicles see the collections as left by earlier ones. The stimulus
    /// collections never grow.
    pub fn tick(&mut self)
        requires
            old(self).wf(),
        ensures
            final(self).wf(),
            final(self).vehicles@.len() == old(self).vehicles@.len(),
            final(self).bounds == old(self).bounds,
            final(self).food@.len() <= old(self).food@.len(),
            final(self).poison@.len() <= old(self).poison@.len(),
            tick_rel(
                old(self).vehicles@,
                old(self).food@,
                old(self).poison@,
                final(self).vehicles@,
                final(self).food@,
                final(self).poison@,
            ),
    {
        let n = self.vehicles.len();
        let ghost vs0 = self.vehicles@;
        let ghost f0 = self.food@;
        let ghost p0 = self.poison@;
        let mut i: usize = 0;
        proof {
            assert(vs0.take(0) =~= Seq::<Vehicle>::empty());
            assert(tick_rel(vs0.take(0), f0, p0, self.vehicles@.take(0), self.food@, self.poison@));
        }
        while i < n
            invariant
                0 <= i <= n,
                n == vs0.len(),
                self.vehicles@.len() == n,
                self.bounds == old(self).bounds,
                forall|j: int| i <= j < n ==> self.vehicles@[j] == vs0[j],
                forall|j: int|
                    0 <= j < n ==> (#[trigger] self.vehicles@[j]).wf()
                        && self.vehicles@[j].acceleration@ == (0int, 0int),
                forall|j: int|
                    0 <= j < self.food@.len() ==> (#[trigger] self.food@[j]).wf()
                        && self.food@[j].class == StimulusClass::Food,
                forall|j: int|
                    0 <= j < self.poison@.len() ==> (#[trigger] self.poison@[j]).wf()
                        && self.poison@[j].class == StimulusClass::Poison,
                self.food@.len() <= f0.len(),
                self.poison@.len() <= p0.len(),
                tick_rel(
                    vs0.take(i as int),
                    f0,
                    p0,
                    self.vehicles@.take(i as int),
                    self.food@,
                    self.poison@,
                ),
            decreases n - i,
        {
            let ghost fi = self.food@;
            let ghost pi = self.poison@;
            let ghost vs_before = self.vehicles@;
            let mut v = self.vehicles[i];
            v.behaviors(&mut self.food, &mut self.poison);
            let ghost vmid = v;
            v.update();
            self.vehicles[i] = v;
            proof {
                assert(behaviors_rel(vs0[i as int], vmid, fi, self.food@, pi, self.poison@));
                assert(update_rel(vmid, v));
                assert(step_rel(vs0[i as int], fi, pi, v, self.food@, self.poison@));
                lemma_tick_rel_snoc(
                    vs0.take(i as int),
                    f0,
                    p0,
                    vs_before.take(i as int),
                    fi,
                    pi,
                    vs0[i as int],
                    v,
                    self.food@,
                    self.poison@,
                );
                assert(vs0.take(i as int).push(vs0[i as int]) =~= vs0.take(i as int + 1));
                assert(vs_before.take(i as int).push(v) =~= self.vehicles@.take(i as int + 1));
            }
            i += 1;
        }
        proof {
            assert(vs0.take(n as int) =~= vs0);
            assert(self.vehicles@.take(n as int) =~= self.vehicles@);
        }
    }
}

} // verus!
