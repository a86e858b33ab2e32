//! The laws of the simulation step that relate several operations, proved
//! from the contracts in `vehicle` and `vec2`. (Per-operation laws — the
//! speed limit after `update`, the monotone stimulus counts after `tick` —
//! are stated directly on those operations.)

use vstd::prelude::*;
use crate::stimulus::{in_contact, Stimulus};
use crate::vec2::{
    clamped, dist_sq, dot, lemma_clamped_signs, lemma_scaled_to_norm, lemma_scaled_to_signs,
    lemma_tdiv_sign, norm_sq, scaled_to, tdiv, vadd, vsub,
};
use crate::vehicle::{
    behaviors_rel, contrib_rel, is_nearest, pass_rel, update_rel, Vehicle,
};
use crate::SCALE;

verus! {

/// A stimulus in contact with the vehicle is consumed by the pass — unless a
/// strictly nearer stimulus, or an equally near one of lower index, was the
/// nearest instead (the pass consumes at most one stimulus: the nearest).
pub proof fn lemma_contact_is_consumed(
    vsize: int,
    pos: (int, int),
    vel: (int, int),
    ms: int,
    msf: int,
    w: int,
    perc: int,
    s0: Seq<Stimulus>,
    s1: Seq<Stimulus>,
    c: (int, int),
    j: int,
)
    requires
        pass_rel(vsize, pos, vel, ms, msf, w, perc, s0, s1, c),
        0 <= j < s0.len(),
        in_contact(vsize, pos, s0[j]),
    ensures
        exists|i: int|
            #[trigger] is_nearest(pos, s0, i) && ((i == j && s1 == s0.remove(j)) || dist_sq(
                pos,
                s0[i].pos@,
            ) < dist_sq(pos, s0[j].pos@) || (dist_sq(pos, s0[i].pos@) == dist_sq(pos, s0[j].pos@)
                && i < j)),
{
    let i = choose|i: int|
        {
            &&& #[trigger] is_nearest(pos, s0, i)
            &&& if in_contact(vsize, pos, s0[i]) {
                s1 == s0.remove(i) && c == (0int, 0int)
            } else if dist_sq(pos, s0[i].pos@) <= perc * perc {
                s1 == s0 && contrib_rel(pos, vel, ms, msf, s0[i].pos@, w, c)
            } else {
                s1 == s0 && c == (0int, 0int)
            }
        };
    if i == j {
        assert(s1 == s0.remove(j));
    } else if dist_sq(pos, s0[i].pos@) == dist_sq(pos, s0[j].pos@) {
        if i > j {
            assert(dist_sq(pos, s0[j].pos@) > dist_sq(pos, s0[i].pos@));
        }
    }
}

/// A pass with a zero gene weight contributes nothing to the acceleration.
pub proof fn lemma_zero_weight_pass_is_inert(
    vsize: int,
    pos: (int, int),
    vel: (int, int),
    ms: int,
    msf: int,
    perc: int,
    s0: Seq<Stimulus>,
    s1: Seq<Stimulus>,
    c: (int, int),
)
    requires
        pass_rel(vsize, pos, vel, ms, msf, 0, perc, s0, s1, c),
    ensures
        c == (0int, 0int),
{
    if s0.len() == 0 {
    } else {
        let i = choose|i: int|
            {
                &&& #[trigger] is_nearest(pos, s0, i)
                &&& if in_contact(vsize, pos, s0[i]) {
                    s1 == s0.remove(i) && c == (0int, 0int)
                } else if dist_sq(pos, s0[i].pos@) <= perc * perc {
                    s1 == s0 && contrib_rel(pos, vel, ms, msf, s0[i].pos@, 0, c)
                } else {
                    s1 == s0 && c == (0int, 0int)
                }
            };
        if !in_contact(vsize, pos, s0[i]) && dist_sq(pos, s0[i].pos@) <= perc * perc {
            let (desired, steer): ((int, int), (int, int)) = choose|
                desired: (int, int),
                steer: (int, int),
            |
                {
                    &&& #[trigger] scaled_to(vsub(s0[i].pos@, pos), ms, desired)
                    &&& #[trigger] clamped(vsub(desired, vel), msf, steer)
                    &&& c == (tdiv(steer.0 * 0, SCALE as int), tdiv(steer.1 * 0, SCALE as int))
                };
            assert(steer.0 * 0 == 0) by (nonlinear_arith);
            assert(steer.1 * 0 == 0) by (nonlinear_arith);
            assert(tdiv(0, SCALE as int) == 0) by {
                vstd::arithmetic::div_mod::lemma_div_of0(SCALE as int);
            }
        }
    }
}

/// With both gene weights zero, `behaviors` leaves the acceleration exactly
/// as it was, whatever the surroundings hold.
pub proof fn lemma_inert_genes(
    v0: Vehicle,
    v1: Vehicle,
    f0: Seq<Stimulus>,
    f1: Seq<Stimulus>,
    p0: Seq<Stimulus>,
    p1: Seq<Stimulus>,
)
    requires
        behaviors_rel(v0, v1, f0, f1, p0, p1),
        v0.dna.0 == 0,
        v0.dna.1 == 0,
    ensures
        v1.acceleration == v0.acceleration,
{
    let (cf, cp): ((int, int), (int, int)) = choose|cf: (int, int), cp: (int, int)|
        {
            &&& #[trigger] pass_rel(
                v0.size as int,
                v0.position@,
                v0.velocity@,
                v0.max_speed as int,
                v0.max_steering_force as int,
                v0.dna.0 as int,
                v0.perception_food as int,
                f0,
                f1,
                cf,
            )
            &&& #[trigger] pass_rel(
                v0.size as int,
                v0.position@,
                v0.velocity@,
                v0.max_speed as int,
                v0.max_steering_force as int,
                v0.dna.1 as int,
                v0.perception_poison as int,
                p0,
                p1,
                cp,
            )
            &&& v1.acceleration@ == vadd(vadd(v0.acceleration@, cf), cp)
        };
    lemma_zero_weight_pass_is_inert(
        v0.size as int,
        v0.position@,
        v0.velocity@,
        v0.max_speed as int,
        v0.max_steering_force as int,
        v0.perception_food as int,
        f0,
        f1,
        cf,
    );
    lemma_zero_weight_pass_is_inert(
        v0.size as int,
        v0.position@,
        v0.velocity@,
        v0.max_speed as int,
        v0.max_steering_force as int,
        v0.perception_poison as int,
        p0,
        p1,
        cp,
    );
    assert(v1.acceleration@ == v0.acceleration@);
}

/// With no acceleration, `update` can only keep or shrink the speed: the
/// velocity clamp never increases the magnitude.
pub proof fn lemma_coasting_never_speeds_up(v0: Vehicle, v1: Vehicle)
    requires
        update_rel(v0, v1),
        v0.wf(),
        v0.acceleration@ == (0int, 0int),
    ensures
        norm_sq(v1.velocity@) <= norm_sq(v0.velocity@),
{
    let vel1 = choose|vel1: (int, int)|
        #[trigger] clamped(vadd(v0.velocity@, v0.acceleration@), v0.max_speed as int, vel1)
            && v1.velocity@ == vel1;
    assert(vadd(v0.velocity@, v0.acceleration@) == v0.velocity@);
    if norm_sq(v0.velocity@) <= (v0.max_speed as int) * (v0.max_speed as int) {
    } else {
        lemma_scaled_to_norm(v0.velocity@, v0.max_speed as int, vel1);
    }
}

/// The sign of the gene weight governs the direction of the steering
/// contribution for a vehicle at rest: a nonnegative weight never steers
/// away from the target, a nonpositive weight never steers toward it.
pub proof fn lemma_gene_sign_governs_pull(
    pos: (int, int),
    ms: int,
    msf: int,
    target: (int, int),
    w: int,
    c: (int, int),
)
    requires
        contrib_rel(pos, (0int, 0int), ms, msf, target, w, c),
        ms >= 0,
        msf >= 0,
    ensures
        w >= 0 ==> dot(c, vsub(target, pos)) >= 0,
        w <= 0 ==> dot(c, vsub(target, pos)) <= 0,
{
    let diff = vsub(target, pos);
    let (desired, steer): ((int, int), (int, int)) = choose|
        desired: (int, int),
        steer: (int, int),
    |
        {
            &&& #[trigger] scaled_to(vsub(target, pos), ms, desired)
            &&& #[trigger] clamped(vsub(desired, (0int, 0int)), msf, steer)
            &&& c == (tdiv(steer.0 * w, SCALE as int), tdiv(steer.1 * w, SCALE as int))
        };
    lemma_scaled_to_signs(diff, ms, desired);
    assert(vsub(desired, (0int, 0int)) == desired);
    lemma_clamped_signs(desired, msf, steer);
    lemma_signed_product(steer.0, w);
    lemma_signed_product(steer.1, w);
    lemma_tdiv_sign(steer.0 * w, SCALE as int);
    lemma_tdiv_sign(steer.1 * w, SCALE as int);
    lemma_signed_product(c.0, diff.0);
    lemma_signed_product(c.1, diff.1);
}

/// Products of weakly same-signed factors are nonnegative; of weakly
/// opposite-signed factors, nonpositive.
pub proof fn lemma_signed_product(a: int, b: int)
    ensures
        a >= 0 && b >= 0 ==> a * b >= 0,
        a <= 0 && b <= 0 ==> a * b >= 0,
        a >= 0 && b <= 0 ==> a * b <= 0,
        a <= 0 && b >= 0 ==> a * b <= 0,
{
    assert((a >= 0 && b >= 0 ==> a * b >= 0) && (a <= 0 && b <= 0 ==> a * b >= 0) && (a >= 0 && b
        <= 0 ==> a * b <= 0) && (a <= 0 && b >= 0 ==> a * b <= 0)) by (nonlinear_arith);
}

/// A vehicle at rest with genes `(w, 0)`, a single perceived (not yet
/// touched) food and no poison never ends the tick moving away from the food
/// when `w >= 0`, and never toward it when `w <= 0`.
pub proof fn lemma_single_food_governs_motion(
    v0: Vehicle,
    v1: Vehicle,
    v2: Vehicle,
    f0: Seq<Stimulus>,
    f1: Seq<Stimulus>,
    p0: Seq<Stimulus>,
    p1: Seq<Stimulus>,
)
    requires
        behaviors_rel(v0, v1, f0, f1, p0, p1),
        update_rel(v1, v2),
        v0.wf(),
        v0.velocity@ == (0int, 0int),
        v0.acceleration@ == (0int, 0int),
        v0.dna.1 == 0,
        p0.len() == 0,
        f0.len() == 1,
        !in_contact(v0.size as int, v0.position@, f0[0]),
        dist_sq(v0.position@, f0[0].pos@) <= (v0.perception_food as int) * (v0.perception_food
            as int),
    ensures
        v0.dna.0 >= 0 ==> dot(v2.velocity@, vsub(f0[0].pos@, v0.position@)) >= 0,
        v0.dna.0 <= 0 ==> dot(v2.velocity@, vsub(f0[0].pos@, v0.position@)) <= 0,
{
    let diff = vsub(f0[0].pos@, v0.position@);
    let (cf, cp): ((int, int), (int, int)) = choose|cf: (int, int), cp: (int, int)|
        {
            &&& #[trigger] pass_rel(
                v0.size as int,
                v0.position@,
                v0.velocity@,
                v0.max_speed as int,
                v0.max_steering_force as int,
                v0.dna.0 as int,
                v0.perception_food as int,
                f0,
                f1,
                cf,
            )
            &&& #[trigger] pass_rel(
                v0.size as int,
                v0.position@,
                v0.velocity@,
                v0.max_speed as int,
                v0.max_steering_force as int,
                v0.dna.1 as int,
                v0.perception_poison as int,
                p0,
                p1,
                cp,
            )
            &&& v1.acceleration@ == vadd(vadd(v0.acceleration@, cf), cp)
        };
    // The poison pass is over an empty collection.
    assert(cp == (0int, 0int));
    // The food pass perceives the single food: index 0 is the only index.
    let i = choose|i: int|
        {
            &&& #[trigger] is_nearest(v0.position@, f0, i)
            &&& if in_contact(v0.size as int, v0.position@, f0[i]) {
                f1 == f0.remove(i) && cf == (0int, 0int)
            } else if dist_sq(v0.position@, f0[i].pos@) <= (v0.perception_food as int) * (
            v0.perception_food as int) {
                f1 == f0 && contrib_rel(
                    v0.position@,
                    v0.velocity@,
                    v0.max_speed as int,
                    v0.max_steering_force as int,
                    f0[i].pos@,
                    v0.dna.0 as int,
                    cf,
                )
            } else {
                f1 == f0 && cf == (0int, 0int)
            }
        };
    assert(i == 0);
    // The contribution follows the gene sign along the food direction.
    lemma_contrib_signs(
        v0.position@,
        v0.max_speed as int,
        v0.max_steering_force as int,
        f0[0].pos@,
        v0.dna.0 as int,
        cf,
    );
    assert(v1.acceleration@ == cf);
    // The update clamps `cf` itself (the velocity was zero), keeping signs.
    let vel1 = choose|vel1: (int, int)|
        #[trigger] clamped(vadd(v1.velocity@, v1.acceleration@), v1.max_speed as int, vel1)
            && v2.velocity@ == vel1;
    assert(v1.velocity@ == v0.velocity@);
    assert(vadd(v1.velocity@, v1.acceleration@) == cf);
    lemma_clamped_signs(cf, v1.max_speed as int, vel1);
    lemma_signed_product(vel1.0, diff.0);
    lemma_signed_product(vel1.1, diff.1);
}

/// The componentwise signs of a resting vehicle's steering contribution
/// follow the gene sign along the target direction.
proof fn lemma_contrib_signs(
    pos: (int, int),
    ms: int,
    msf: int,
    target: (int, int),
    w: int,
    c: (int, int),
)
    requires
        contrib_rel(pos, (0int, 0int), ms, msf, target, w, c),
        ms >= 0,
        msf >= 0,
    ensures
        w >= 0 ==> (vsub(target, pos).0 >= 0 ==> c.0 >= 0) && (vsub(target, pos).0 <= 0 ==> c.0
            <= 0) && (vsub(target, pos).1 >= 0 ==> c.1 >= 0) && (vsub(target, pos).1 <= 0 ==> c.1
            <= 0),
        w <= 0 ==> (vsub(target, pos).0 >= 0 ==> c.0 <= 0) && (vsub(target, pos).0 <= 0 ==> c.0
            >= 0) && (vsub(target, pos).1 >= 0 ==> c.1 <= 0) && (vsub(target, pos).1 <= 0 ==> c.1
            >= 0),
{
    let diff = vsub(target, pos);
    let (desired, steer): ((int, int), (int, int)) = choose|
        desired: (int, int),
        steer: (int, int),
    |
        {
            &&& #[trigger] scaled_to(vsub(target, pos), ms, desired)
            &&& #[trigger] clamped(vsub(desired, (0int, 0int)), msf, steer)
            &&& c == (tdiv(steer.0 * w, SCALE as int), tdiv(steer.1 * w, SCALE as int))
        };
    lemma_scaled_to_signs(diff, ms, desired);
    assert(vsub(desired, (0int, 0int)) == desired);
    lemma_clamped_signs(desired, msf, steer);
    lemma_signed_product(steer.0, w);
    lemma_signed_product(steer.1, w);
    lemma_tdiv_sign(steer.0 * w, SCALE as int);
    lemma_tdiv_sign(steer.1 * w, SCALE as int);
}

/// Every steering force computed within a pass is clamped to the vehicle's
/// steering limit before the gene weight scales it: the contribution is the
/// gene-weighted image of a force of magnitude at most `msf`.
pub proof fn lemma_steering_force_is_clamped(
    pos: (int, int),
    vel: (int, int),
    ms: int,
    msf: int,
    target: (int, int),
    w: int,
    c: (int, int),
)
    requires
        contrib_rel(pos, vel, ms, msf, target, w, c),
        msf >= 0,
    ensures
        exists|steer: (int, int)|
            norm_sq(steer) <= msf * msf && c == (
                tdiv(steer.0 * w, SCALE as int),
                tdiv(steer.1 * w, SCALE as int),
            ),
{
    let (desired, steer): ((int, int), (int, int)) = choose|
        desired: (int, int),
        steer: (int, int),
    |
        {
            &&& #[trigger] scaled_to(vsub(target, pos), ms, desired)
            &&& #[trigger] clamped(vsub(desired, vel), msf, steer)
            &&& c == (tdiv(steer.0 * w, SCALE as int), tdiv(steer.1 * w, SCALE as int))
        };
    crate::vec2::lemma_clamped_norm(vsub(desired, vel), msf, steer);
    assert(norm_sq(steer) <= msf * msf && c == (
        tdiv(steer.0 * w, SCALE as int),
        tdiv(steer.1 * w, SCALE as int),
    ));
}

/// One component of the summed, gene-weighted steering: when the (clamped)
/// steering component `s` weakly matches the sign of the target direction
/// component `u`, the sum of the two gene-scaled copies of `s` follows the
/// sign of the summed weights along `u`.
proof fn lemma_weighted_component_sign(s: int, u: int, wf: int, wp: int)
    requires
        u >= 0 ==> s >= 0,
        u <= 0 ==> s <= 0,
    ensures
        wf + wp >= 0 && u >= 0 ==> tdiv(s * wf, SCALE as int) + tdiv(s * wp, SCALE as int) >= 0,
        wf + wp >= 0 && u <= 0 ==> tdiv(s * wf, SCALE as int) + tdiv(s * wp, SCALE as int) <= 0,
        wf + wp <= 0 && u >= 0 ==> tdiv(s * wf, SCALE as int) + tdiv(s * wp, SCALE as int) <= 0,
        wf + wp <= 0 && u <= 0 ==> tdiv(s * wf, SCALE as int) + tdiv(s * wp, SCALE as int) >= 0,
{
    assert(s >= 0 && wf + wp >= 0 ==> s * wf >= -(s * wp)) by (nonlinear_arith);
    assert(s <= 0 && wf + wp >= 0 ==> s * wf <= -(s * wp)) by (nonlinear_arith);
    assert(s >= 0 && wf + wp <= 0 ==> s * wf <= -(s * wp)) by (nonlinear_arith);
    assert(s <= 0 && wf + wp <= 0 ==> s * wf >= -(s * wp)) by (nonlinear_arith);
    crate::vec2::lemma_tdiv_neg(s * wp, SCALE as int);
    if s * wf >= -(s * wp) {
        crate::vec2::lemma_tdiv_monotone(-(s * wp), s * wf, SCALE as int);
    }
    if s * wf <= -(s * wp) {
        crate::vec2::lemma_tdiv_monotone(s * wf, -(s * wp), SCALE as int);
    }
}

/// Coincident nearest food and poison act like a single stimulus carrying
/// the summed gene weight, in sign: a resting vehicle's acceleration after
/// `behaviors`, and its velocity after the following `update`, never point
/// against the target direction when `w_food + w_poison >= 0`, and never
/// toward it when the sum is nonpositive. (The strict sign match of the
/// real-valued model can fail when the summed weight is under one whole
/// unit: the gene scaling truncates such a contribution to zero.)
pub proof fn lemma_coincident_stimuli_sum_governs(
    v0: Vehicle,
    v1: Vehicle,
    v2: Vehicle,
    f0: Seq<Stimulus>,
    f1: Seq<Stimulus>,
    p0: Seq<Stimulus>,
    p1: Seq<Stimulus>,
)
    requires
        behaviors_rel(v0, v1, f0, f1, p0, p1),
        update_rel(v1, v2),
        v0.wf(),
        v0.velocity@ == (0int, 0int),
        v0.acceleration@ == (0int, 0int),
        f0.len() == 1,
        p0.len() == 1,
        p0[0].pos == f0[0].pos,
        !in_contact(v0.size as int, v0.position@, f0[0]),
        !in_contact(v0.size as int, v0.position@, p0[0]),
        dist_sq(v0.position@, f0[0].pos@) <= (v0.perception_food as int) * (v0.perception_food
            as int),
        dist_sq(v0.position@, p0[0].pos@) <= (v0.perception_poison as int) * (
        v0.perception_poison as int),
    ensures
        v0.dna.0 + v0.dna.1 >= 0 ==> dot(v1.acceleration@, vsub(f0[0].pos@, v0.position@)) >= 0
            && dot(v2.velocity@, vsub(f0[0].pos@, v0.position@)) >= 0,
        v0.dna.0 + v0.dna.1 <= 0 ==> dot(v1.acceleration@, vsub(f0[0].pos@, v0.position@)) <= 0
            && dot(v2.velocity@, vsub(f0[0].pos@, v0.position@)) <= 0,
{
    let target = f0[0].pos@;
    let u = vsub(target, v0.position@);
    let (cf, cp): ((int, int), (int, int)) = choose|cf: (int, int), cp: (int, int)|
        {
            &&& #[trigger] pass_rel(
                v0.size as int,
                v0.position@,
                v0.velocity@,
                v0.max_speed as int,
                v0.max_steering_force as int,
                v0.dna.0 as int,
                v0.perception_food as int,
                f0,
                f1,
                cf,
            )
            &&& #[trigger] pass_rel(
                v0.size as int,
                v0.position@,
                v0.velocity@,
                v0.max_speed as int,
                v0.max_steering_force as int,
                v0.dna.1 as int,
                v0.perception_poison as int,
                p0,
                p1,
                cp,
            )
            &&& v1.acceleration@ == vadd(vadd(v0.acceleration@, cf), cp)
        };
    // Each pass perceives its single stimulus: index 0 is the only index,
    // and both targets are the same point.
    let fi = choose|i: int|
        {
            &&& #[trigger] is_nearest(v0.position@, f0, i)
            &&& if in_contact(v0.size as int, v0.position@, f0[i]) {
                f1 == f0.remove(i) && cf == (0int, 0int)
            } else if dist_sq(v0.position@, f0[i].pos@) <= (v0.perception_food as int) * (
            v0.perception_food as int) {
                f1 == f0 && contrib_rel(
                    v0.position@,
                    v0.velocity@,
                    v0.max_speed as int,
                    v0.max_steering_force as int,
                    f0[i].pos@,
                    v0.dna.0 as int,
                    cf,
                )
            } else {
                f1 == f0 && cf == (0int, 0int)
            }
        };
    assert(fi == 0);
    let pi = choose|i: int|
        {
            &&& #[trigger] is_nearest(v0.position@, p0, i)
            &&& if in_contact(v0.size as int, v0.position@, p0[i]) {
                p1 == p0.remove(i) && cp == (0int, 0int)
            } else if dist_sq(v0.position@, p0[i].pos@) <= (v0.perception_poison as int) * (
            v0.perception_poison as int) {
                p1 == p0 && contrib_rel(
                    v0.position@,
                    v0.velocity@,
                    v0.max_speed as int,
                    v0.max_steering_force as int,
                    p0[i].pos@,
                    v0.dna.1 as int,
                    cp,
                )
            } else {
                p1 == p0 && cp == (0int, 0int)
            }
        };
    assert(pi == 0);
    // Both passes clamp the same steering force: the computation depends on
    // the position, the velocity and the shared target alone.
    let (df, sf): ((int, int), (int, int)) = choose|desired: (int, int), steer: (int, int)|
        {
            &&& #[trigger] scaled_to(vsub(target, v0.position@), v0.max_speed as int, desired)
            &&& #[trigger] clamped(vsub(desired, v0.velocity@), v0.max_steering_force as int,
            steer)
            &&& cf == (tdiv(steer.0 * (v0.dna.0 as int), SCALE as int), tdiv(steer.1 * (v0.dna.0
                as int), SCALE as int))
        };
    let (dp, sp): ((int, int), (int, int)) = choose|desired: (int, int), steer: (int, int)|
        {
            &&& #[trigger] scaled_to(vsub(target, v0.position@), v0.max_speed as int, desired)
            &&& #[trigger] clamped(vsub(desired, v0.velocity@), v0.max_steering_force as int,
            steer)
            &&& cp == (tdiv(steer.0 * (v0.dna.1 as int), SCALE as int), tdiv(steer.1 * (v0.dna.1
                as int), SCALE as int))
        };
    crate::vec2::lemma_scaled_to_unique(u, v0.max_speed as int, df, dp);
    crate::vec2::lemma_clamped_unique(
        vsub(df, v0.velocity@),
        v0.max_steering_force as int,
        sf,
        sp,
    );
    // The shared steering force weakly follows the target direction.
    lemma_scaled_to_signs(u, v0.max_speed as int, df);
    assert(vsub(df, v0.velocity@) == df);
    lemma_clamped_signs(df, v0.max_steering_force as int, sf);
    // Summed gene scaling follows the summed weight's sign, per component.
    lemma_weighted_component_sign(sf.0, u.0, v0.dna.0 as int, v0.dna.1 as int);
    lemma_weighted_component_sign(sf.1, u.1, v0.dna.0 as int, v0.dna.1 as int);
    let acc = v1.acceleration@;
    assert(acc == (cf.0 + cp.0, cf.1 + cp.1));
    lemma_signed_product(acc.0, u.0);
    lemma_signed_product(acc.1, u.1);
    // The velocity clamp in `update` keeps each component's sign.
    let vel2 = choose|vel1: (int, int)|
        #[trigger] clamped(vadd(v1.velocity@, v1.acceleration@), v1.max_speed as int, vel1)
            && v2.velocity@ == vel1;
    assert(v1.velocity@ == v0.velocity@);
    assert(vadd(v1.velocity@, v1.acceleration@) == acc);
    lemma_clamped_signs(acc, v1.max_speed as int, vel2);
    lemma_signed_product(vel2.0, u.0);
    lemma_signed_product(vel2.1, u.1);
}

/// The contact law over a vehicle's whole step within a tick: any stimulus
/// of either class that overlapped the vehicle at the moment its `behaviors`
/// ran is consumed by that step — unless a strictly nearer stimulus, or an
/// equally near one of lower index, was the nearest of its class instead.
pub proof fn lemma_step_contact_is_consumed(
    v0: Vehicle,
    f0: Seq<Stimulus>,
    p0: Seq<Stimulus>,
    v1: Vehicle,
    f1: Seq<Stimulus>,
    p1: Seq<Stimulus>,
    j: int,
)
    requires
        crate::world::step_rel(v0, f0, p0, v1, f1, p1),
    ensures
        0 <= j < f0.len() && in_contact(v0.size as int, v0.position@, f0[j]) ==> exists|i: int|
            #[trigger] is_nearest(v0.position@, f0, i) && ((i == j && f1 == f0.remove(j))
                || dist_sq(v0.position@, f0[i].pos@) < dist_sq(v0.position@, f0[j].pos@) || (
            dist_sq(v0.position@, f0[i].pos@) == dist_sq(v0.position@, f0[j].pos@) && i < j)),
        0 <= j < p0.len() && in_contact(v0.size as int, v0.position@, p0[j]) ==> exists|i: int|
            #[trigger] is_nearest(v0.position@, p0, i) && ((i == j && p1 == p0.remove(j))
                || dist_sq(v0.position@, p0[i].pos@) < dist_sq(v0.position@, p0[j].pos@) || (
            dist_sq(v0.position@, p0[i].pos@) == dist_sq(v0.position@, p0[j].pos@) && i < j)),
{
    let vm = choose|vm: Vehicle|
        #[trigger] behaviors_rel(v0, vm, f0, f1, p0, p1) && update_rel(vm, v1);
    let (cf, cp): ((int, int), (int, int)) = choose|cf: (int, int), cp: (int, int)|
        {
            &&& #[trigger] pass_rel(
                v0.size as int,
                v0.position@,
                v0.velocity@,
                v0.max_speed as int,
                v0.max_steering_force as int,
                v0.dna.0 as int,
                v0.perception_food as int,
                f0,
                f1,
                cf,
            )
            &&& #[trigger] pass_rel(
                v0.size as int,
                v0.position@,
                v0.velocity@,
                v0.max_speed as int,
                v0.max_steering_force as int,
                v0.dna.1 as int,
                v0.perception_poison as int,
                p0,
                p1,
                cp,
            )
            &&& vm.acceleration@ == vadd(vadd(v0.acceleration@, cf), cp)
        };
    if 0 <= j < f0.len() && in_contact(v0.size as int, v0.position@, f0[j]) {
        lemma_contact_is_consumed(
            v0.size as int,
            v0.position@,
            v0.velocity@,
            v0.max_speed as int,
            v0.max_steering_force as int,
            v0.dna.0 as int,
            v0.perception_food as int,
            f0,
            f1,
            cf,
            j,
        );
    }
    if 0 <= j < p0.len() && in_contact(v0.size as int, v0.position@, p0[j]) {
        lemma_contact_is_consumed(
            v0.size as int,
            v0.position@,
            v0.velocity@,
            v0.max_speed as int,
            v0.max_steering_force as int,
            v0.dna.1 as int,
            v0.perception_poison as int,
            p0,
            p1,
            cp,
            j,
        );
    }
}

} // verus!
