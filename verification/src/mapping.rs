//! Affine remapping of a value from one range onto another, in exact
//! fixed-point arithmetic: the derivation of a vehicle's speed and steering
//! limits from its sampled size.

use vstd::prelude::*;
use vstd::arithmetic::div_mod::{
    lemma_div_is_ordered, lemma_div_multiples_vanish, lemma_div_pos_is_pos,
    lemma_fundamental_div_mod, lemma_mod_bound,
};
use crate::vec2::{div_trunc, tdiv};

verus! {

/// Largest magnitude of any endpoint or value handed to `map_range`.
pub const MAP_LIMIT: i64 = 1_000_000_000;

/// The exact value of the affine remap of `v` from `(a, b)` onto `(c, d)`:
/// `c + (d - c) * (v - a) / (b - a)` with truncating division, written over
/// a positive divisor (both factors of the quotient negated when the source
/// range is decreasing, which leaves the rational unchanged).
pub open spec fn map_range_spec(v: int, a: int, b: int, c: int, d: int) -> int
    recommends
        a != b,
{
    if a < b {
        c + tdiv((d - c) * (v - a), b - a)
    } else {
        c + tdiv((d - c) * (a - v), a - b)
    }
}

/// Remaps `value` from the range `from` onto the range `to` affinely:
/// `from.0` maps to `to.0` and `from.1` to `to.1`. Either range may be
/// reversed (decreasing); only the source range must be nondegenerate.
pub fn map_range(value: i64, from: (i64, i64), to: (i64, i64)) -> (r: i64)
    requires
        from.0 != from.1,
        -MAP_LIMIT <= value <= MAP_LIMIT,
        -MAP_LIMIT <= from.0 <= MAP_LIMIT,
        -MAP_LIMIT <= from.1 <= MAP_LIMIT,
        -MAP_LIMIT <= to.0 <= MAP_LIMIT,
        -MAP_LIMIT <= to.1 <= MAP_LIMIT,
    ensures
        r == map_range_spec(value as int, from.0 as int, from.1 as int, to.0 as int,
            to.1 as int),
{
    let rise = to.1 - to.0;
    let run = if from.0 < from.1 {
        value - from.0
    } else {
        from.0 - value
    };
    let div = if from.0 < from.1 {
        from.1 - from.0
    } else {
        from.0 - from.1
    };
    proof {
        assert(-4_000_000_000_000_000_000int <= (rise as int) * (run as int)
            <= 4_000_000_000_000_000_000int) by (nonlinear_arith)
            requires
                -2_000_000_000 <= rise as int <= 2_000_000_000,
                -2_000_000_000 <= run as int <= 2_000_000_000,
        ;
    }
    let num = (rise as i128) * (run as i128);
    let q = div_trunc(num, div as i128);
    proof {
        crate::vec2::lemma_tdiv_magnitude(num as int, div as int);
    }
    to.0 + (q as i64)
}

/// The remap of a value inside the source range lands between the endpoints
/// of the target range, whichever way the target range is oriented.
pub proof fn lemma_map_range_bounds(v: int, a: int, b: int, c: int, d: int)
    requires
        a < b,
        a <= v <= b,
    ensures
        c <= d ==> c <= map_range_spec(v, a, b, c, d) <= d,
        c > d ==> d <= map_range_spec(v, a, b, c, d) <= c,
{
    let w = b - a;
    lemma_div_multiples_vanish(d - c, w);
    assert((d - c) * w == w * (d - c)) by (nonlinear_arith);
    if c <= d {
        let num = (d - c) * (v - a);
        assert(0 <= num <= (d - c) * w) by (nonlinear_arith)
            requires
                num == (d - c) * (v - a),
                d - c >= 0,
                0 <= v - a <= w,
                w > 0,
        ;
        lemma_div_pos_is_pos(num, w);
        lemma_div_is_ordered(num, (d - c) * w, w);
    } else {
        let num = (c - d) * (v - a);
        assert(0 <= num <= (c - d) * w
            && (d - c) * (v - a) == -num) by (nonlinear_arith)
            requires
                num == (c - d) * (v - a),
                c - d >= 0,
                0 <= v - a <= w,
                w > 0,
        ;
        lemma_div_pos_is_pos(num, w);
        lemma_div_is_ordered(num, (c - d) * w, w);
        lemma_div_multiples_vanish(c - d, w);
        assert((c - d) * w == w * (c - d)) by (nonlinear_arith);
    }
}

/// Round trip through increasing ranges: remapping a value onto another
/// range and back recovers it up to the rounding step. The loss never
/// exceeds one source step per target step — at most
/// `(b - a - 1) / (d - c) + 1` — and is one-sided: the recovered value never
/// overshoots. (`lemma_map_range_round_trip_general` extends this to
/// decreasing ranges.)
pub proof fn lemma_map_range_round_trip(x: int, a: int, b: int, c: int, d: int)
    requires
        a < b,
        c < d,
        a <= x <= b,
    ensures
        map_range_spec(map_range_spec(x, a, b, c, d), c, d, a, b) <= x,
        x - map_range_spec(map_range_spec(x, a, b, c, d), c, d, a, b) <= (b - a - 1) / (d - c)
            + 1,
{
    let w = b - a;
    let e = d - c;
    let n1 = e * (x - a);
    assert(n1 >= 0) by (nonlinear_arith)
        requires
            n1 == e * (x - a),
            e > 0,
            x - a >= 0,
    ;
    let q1 = n1 / w;
    lemma_div_pos_is_pos(n1, w);
    assert(map_range_spec(x, a, b, c, d) == c + q1);
    let n2 = w * q1;
    assert(n2 >= 0) by (nonlinear_arith)
        requires
            n2 == w * q1,
            w > 0,
            q1 >= 0,
    ;
    let q2 = n2 / e;
    lemma_div_pos_is_pos(n2, e);
    assert(map_range_spec(c + q1, c, d, a, b) == a + q2);

    // Upper bound: the recovered value never overshoots.
    lemma_fundamental_div_mod(n1, w);
    lemma_mod_bound(n1, w);
    let r1 = n1 % w;
    assert(n2 == n1 - r1);
    lemma_div_is_ordered(n2, n1, e);
    lemma_div_multiples_vanish(x - a, e);
    assert(e * (x - a) == n1);
    assert(q2 <= x - a);

    // Lower bound: the loss is the first division's remainder, measured in
    // target steps.
    let qb = r1 / e;
    lemma_div_pos_is_pos(r1, e);
    lemma_fundamental_div_mod(r1, e);
    lemma_mod_bound(r1, e);
    assert(r1 <= e * qb + e - 1);
    let m = x - a - qb - 1;
    if m >= 0 {
        assert(n2 >= e * m) by (nonlinear_arith)
            requires
                n2 == n1 - r1,
                n1 == e * (x - a),
                r1 <= e * qb + e - 1,
                m == x - a - qb - 1,
        ;
        lemma_div_is_ordered(e * m, n2, e);
        lemma_div_multiples_vanish(m, e);
        assert(q2 >= m);
    }
    assert(x - (a + q2) <= qb + 1);
    lemma_div_is_ordered(r1, w - 1, e);
}

/// The width of a range, whichever way it is oriented.
pub open spec fn range_width(a: int, b: int) -> int {
    if a < b {
        b - a
    } else {
        a - b
    }
}

/// The value recovered by mapping `x` onto `(c, d)` and back onto `(a, b)`.
pub open spec fn map_range_round(x: int, a: int, b: int, c: int, d: int) -> int {
    map_range_spec(map_range_spec(x, a, b, c, d), c, d, a, b)
}

/// Negating both target endpoints negates the map exactly (truncating
/// division is odd).
pub proof fn lemma_map_range_target_negation(v: int, a: int, b: int, c: int, d: int)
    requires
        a != b,
    ensures
        map_range_spec(v, a, b, -c, -d) == -map_range_spec(v, a, b, c, d),
{
    if a < b {
        assert((-d - -c) * (v - a) == -((d - c) * (v - a))) by (nonlinear_arith);
        crate::vec2::lemma_tdiv_neg((d - c) * (v - a), b - a);
    } else {
        assert((-d - -c) * (a - v) == -((d - c) * (a - v))) by (nonlinear_arith);
        crate::vec2::lemma_tdiv_neg((d - c) * (a - v), a - b);
    }
}

/// Negating the value and both source endpoints leaves the map unchanged:
/// the two branches of `map_range_spec` are images of each other.
pub proof fn lemma_map_range_source_negation(v: int, a: int, b: int, c: int, d: int)
    requires
        a != b,
    ensures
        map_range_spec(v, a, b, c, d) == map_range_spec(-v, -a, -b, c, d),
{
    if a < b {
        assert((d - c) * (v - a) == (d - c) * ((-a) - (-v))) by (nonlinear_arith);
    } else {
        assert((d - c) * (a - v) == (d - c) * ((-v) - (-a))) by (nonlinear_arith);
    }
}

/// Round trip for every orientation: remapping a value onto a nondegenerate
/// range and back recovers it up to the rounding step, at most one source
/// step per target step. Through an increasing source range the recovered
/// value never overshoots; through a decreasing one it never undershoots.
pub proof fn lemma_map_range_round_trip_general(x: int, a: int, b: int, c: int, d: int)
    requires
        a != b,
        c != d,
        a < b ==> a <= x <= b,
        b < a ==> b <= x <= a,
    ensures
        a < b ==> 0 <= x - map_range_round(x, a, b, c, d) <= (range_width(a, b) - 1)
            / range_width(c, d) + 1,
        b < a ==> 0 <= map_range_round(x, a, b, c, d) - x <= (range_width(a, b) - 1)
            / range_width(c, d) + 1,
{
    if a < b {
        if c < d {
            lemma_map_range_round_trip(x, a, b, c, d);
        } else {
            // Mirror the decreasing target through negation: the outward map
            // negates, and the way back reads the negated source the same.
            let y = map_range_spec(x, a, b, c, d);
            lemma_map_range_target_negation(x, a, b, -c, -d);
            assert(y == -map_range_spec(x, a, b, -c, -d));
            lemma_map_range_source_negation(y, c, d, a, b);
            assert(map_range_spec(y, c, d, a, b) == map_range_spec(-y, -c, -d, a, b));
            lemma_map_range_round_trip(x, a, b, -c, -d);
        }
    } else {
        // Mirror the decreasing source through negation of the value and the
        // source range; the target side then mirrors back on the way in.
        lemma_map_range_source_negation(x, a, b, c, d);
        let y = map_range_spec(-x, -a, -b, c, d);
        lemma_map_range_target_negation(y, c, d, -a, -b);
        assert(map_range_spec(y, c, d, a, b) == -map_range_spec(y, c, d, -a, -b));
        if c < d {
            lemma_map_range_round_trip(-x, -a, -b, c, d);
        } else {
            let yb = map_range_spec(-x, -a, -b, -c, -d);
            lemma_map_range_target_negation(-x, -a, -b, -c, -d);
            assert(y == -yb);
            lemma_map_range_source_negation(y, c, d, -a, -b);
            assert(map_range_spec(y, c, d, -a, -b) == map_range_spec(-y, -c, -d, -a, -b));
            lemma_map_range_round_trip(-x, -a, -b, -c, -d);
        }
    }
}

} // verus!
