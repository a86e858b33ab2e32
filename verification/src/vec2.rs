//! Planar vectors in fixed-point coordinates, with the exact integer
//! arithmetic the simulation is specified over: squared norms, truncating
//! scalar division, rescaling to a target magnitude, and norm clamping.
//!
//! Rescaling divides by the integer ceiling of the true Euclidean norm, so a
//! rescaled or clamped vector never exceeds the requested magnitude; the
//! lemmas at the bottom of the file prove that bound.

use vstd::prelude::*;
use vstd::arithmetic::div_mod::{
    lemma_div_is_ordered, lemma_div_multiples_vanish, lemma_div_pos_is_pos,
    lemma_fundamental_div_mod, lemma_remainder_lower,
};

verus! {

/// Largest magnitude a coordinate may have on entry to the norm routines;
/// squares of such values stay comfortably inside `i128`.
pub const VEC_LIMIT: i64 = 4_000_000_000_000;

/// A 2D vector (or point) in fixed-point world coordinates.
#[derive(Clone, Copy, PartialEq, Eq, Structural, Debug)]
pub struct Vec2 {
    pub x: i64,
    pub y: i64,
}

impl View for Vec2 {
    type V = (int, int);

    open spec fn view(&self) -> (int, int) {
        (self.x as int, self.y as int)
    }
}

/// The squared Euclidean norm, as an unbounded integer.
pub open spec fn norm_sq(v: (int, int)) -> int {
    v.0 * v.0 + v.1 * v.1
}

/// The squared Euclidean distance between two points.
pub open spec fn dist_sq(a: (int, int), b: (int, int)) -> int {
    norm_sq(vsub(a, b))
}

/// Component-wise sum.
pub open spec fn vadd(a: (int, int), b: (int, int)) -> (int, int) {
    (a.0 + b.0, a.1 + b.1)
}

/// Component-wise difference.
pub open spec fn vsub(a: (int, int), b: (int, int)) -> (int, int) {
    (a.0 - b.0, a.1 - b.1)
}

/// The Euclidean inner product.
pub open spec fn dot(a: (int, int), b: (int, int)) -> int {
    a.0 * b.0 + a.1 * b.1
}

/// Integer division truncating toward zero (the machine semantics of `/` on
/// signed integers), for a positive divisor.
pub open spec fn tdiv(a: int, b: int) -> int
    recommends
        b > 0,
{
    if a >= 0 {
        a / b
    } else {
        -((-a) / b)
    }
}

/// `d` is the integer ceiling of the square root of `n`: the least
/// nonnegative integer whose square is at least `n`.
pub open spec fn is_csqrt(n: int, d: int) -> bool {
    d >= 0 && d * d >= n && (d == 0 || (d - 1) * (d - 1) < n)
}

/// Both components of `v` lie within `[-lim, lim]`.
pub open spec fn within(v: (int, int), lim: int) -> bool {
    -lim <= v.0 <= lim && -lim <= v.1 <= lim
}

/// `r` is `v` rescaled to magnitude at most `m`: each component is multiplied
/// by `m` and divided (truncating) by the ceiling of `v`'s norm. The zero
/// vector rescales to itself.
pub open spec fn scaled_to(v: (int, int), m: int, r: (int, int)) -> bool {
    if v == (0int, 0int) {
        r == v
    } else {
        exists|d: int|
            is_csqrt(norm_sq(v), d) && r == (tdiv(v.0 * m, d), tdiv(v.1 * m, d))
    }
}

/// `r` is `v` clamped to magnitude at most `m`: unchanged when already within
/// `m`, otherwise rescaled to `m`.
pub open spec fn clamped(v: (int, int), m: int, r: (int, int)) -> bool {
    if norm_sq(v) <= m * m {
        r == v
    } else {
        scaled_to(v, m, r)
    }
}

impl Vec2 {
    /// The zero vector.
    pub fn zero() -> (r: Vec2)
        ensures
            r@ == (0int, 0int),
    {
        Vec2 { x: 0, y: 0 }
    }

    /// Component-wise sum.
    pub fn add(self, other: Vec2) -> (r: Vec2)
        requires
            i64::MIN <= self.x + other.x <= i64::MAX,
            i64::MIN <= self.y + other.y <= i64::MAX,
        ensures
            r@ == vadd(self@, other@),
    {
        Vec2 { x: self.x + other.x, y: self.y + other.y }
    }

    /// Component-wise difference.
    pub fn sub(self, other: Vec2) -> (r: Vec2)
        requires
            i64::MIN <= self.x - other.x <= i64::MAX,
            i64::MIN <= self.y - other.y <= i64::MAX,
        ensures
            r@ == vsub(self@, other@),
    {
        Vec2 { x: self.x - other.x, y: self.y - other.y }
    }
}

/// The squared norm of `v`, computed exactly in 128 bits.
pub fn norm_sq_exec(v: Vec2) -> (n: i128)
    requires
        within(v@, VEC_LIMIT as int),
    ensures
        n == norm_sq(v@),
{
    proof {
        assert((v.x as int) * (v.x as int) <= (VEC_LIMIT as int) * (VEC_LIMIT as int)
            && (v.y as int) * (v.y as int) <= (VEC_LIMIT as int) * (VEC_LIMIT as int)
            && (v.x as int) * (v.x as int) >= 0 && (v.y as int) * (v.y as int) >= 0)
            by (nonlinear_arith)
            requires
                -(VEC_LIMIT as int) <= v.x as int <= VEC_LIMIT as int,
                -(VEC_LIMIT as int) <= v.y as int <= VEC_LIMIT as int,
        ;
    }
    (v.x as i128) * (v.x as i128) + (v.y as i128) * (v.y as i128)
}

/// The squared distance between `a` and `b`, computed exactly in 128 bits.
pub fn dist_sq_exec(a: Vec2, b: Vec2) -> (n: i128)
    requires
        within(a@, VEC_LIMIT as int / 2),
        within(b@, VEC_LIMIT as int / 2),
    ensures
        n == dist_sq(a@, b@),
{
    let d = a.sub(b);
    norm_sq_exec(d)
}

/// The least `d >= 0` with `d * d >= n`: the integer ceiling of the square
/// root of `n`.
pub fn isqrt_ceil(n: i128) -> (d: i128)
    requires
        0 <= n <= 1000000000000000000000000000000i128,
    ensures
        is_csqrt(n as int, d as int),
        0 <= d <= 1000000000000000i128,
{
    if n == 0 {
        return 0;
    }
    let mut lo: i128 = 0;
    let mut hi: i128 = 1000000000000000;
    proof {
        assert(1000000000000000int * 1000000000000000int
            == 1000000000000000000000000000000int);
    }
    while lo + 1 < hi
        invariant
            0 <= lo < hi <= 1000000000000000i128,
            lo == 0 || (lo as int) * (lo as int) < n as int,
            (hi as int) * (hi as int) >= n as int,
            1 <= n,
        decreases hi - lo,
    {
        let mid = lo + (hi - lo) / 2;
        proof {
            assert((mid as int) * (mid as int) <= 1000000000000000000000000000000int)
                by (nonlinear_arith)
                requires
                    0 <= mid as int <= 1000000000000000int,
            ;
        }
        if mid * mid >= n {
            hi = mid;
        } else {
            lo = mid;
        }
    }
    hi
}

/// Truncating division of `a` by a positive `b`, exactly `tdiv`.
pub fn div_trunc(a: i128, b: i128) -> (q: i128)
    requires
        b >= 1,
        a > i128::MIN,
    ensures
        q == tdiv(a as int, b as int),
{
    if a >= 0 {
        a / b
    } else {
        -((-a) / b)
    }
}

/// Rescales `v` so that its magnitude is at most `m` (and equals `m` up to
/// rounding when `v` is nonzero): the fixed-point form of `normalize(v) * m`.
pub fn scale_to(v: Vec2, m: i64) -> (r: Vec2)
    requires
        within(v@, VEC_LIMIT as int),
        0 <= m,
        m <= 1_000_000_000i64,
    ensures
        scaled_to(v@, m as int, r@),
        norm_sq(r@) <= (m as int) * (m as int),
        within(r@, m as int),
{
    let n = norm_sq_exec(v);
    if n == 0 {
        proof {
            lemma_zero_norm(v@);
        }
        return v;
    }
    proof {
        assert(norm_sq(v@) <= 2 * (VEC_LIMIT as int) * (VEC_LIMIT as int)
            && (v.x as int) * (v.x as int) <= norm_sq(v@)
            && (v.y as int) * (v.y as int) <= norm_sq(v@))
            by (nonlinear_arith)
            requires
                -(VEC_LIMIT as int) <= v.x as int <= VEC_LIMIT as int,
                -(VEC_LIMIT as int) <= v.y as int <= VEC_LIMIT as int,
                norm_sq(v@) == (v.x as int) * (v.x as int) + (v.y as int) * (v.y as int),
        ;
    }
    let d = isqrt_ceil(n);
    proof {
        assert(d >= 1);
        lemma_component_within_csqrt(v.x as int, norm_sq(v@), d as int);
        lemma_component_within_csqrt(v.y as int, norm_sq(v@), d as int);
        assert((v.x as int) * (m as int) <= (d as int) * (m as int)
            && -((d as int) * (m as int)) <= (v.x as int) * (m as int)
            && (v.y as int) * (m as int) <= (d as int) * (m as int)
            && -((d as int) * (m as int)) <= (v.y as int) * (m as int))
            by (nonlinear_arith)
            requires
                -(d as int) <= v.x as int <= d as int,
                -(d as int) <= v.y as int <= d as int,
                0 <= m as int,
        ;
        assert((d as int) * (m as int) <= 1_000_000_000_000_000_000_000_000int)
            by (nonlinear_arith)
            requires
                0 <= d as int <= 1_000_000_000_000_000int,
                0 <= m as int <= 1_000_000_000int,
        ;
    }
    let px = (v.x as i128) * (m as i128);
    let py = (v.y as i128) * (m as i128);
    let rx = div_trunc(px, d);
    let ry = div_trunc(py, d);
    proof {
        assert((m as int) * (d as int) == (d as int) * (m as int)) by (nonlinear_arith);
        assert(-((m as int) * (d as int)) <= px as int <= (m as int) * (d as int));
        assert(-((m as int) * (d as int)) <= py as int <= (m as int) * (d as int));
        lemma_tdiv_bound(px as int, d as int, m as int);
        lemma_tdiv_bound(py as int, d as int, m as int);
        lemma_scaled_norm(v.x as int, v.y as int, m as int, d as int);
        assert(is_csqrt(norm_sq(v@), d as int));
    }
    let r = Vec2 { x: rx as i64, y: ry as i64 };
    proof {
        assert(v@ != (0int, 0int)) by {
            if v@ == (0int, 0int) {
                assert(v@.0 == 0 && v@.1 == 0);
                assert(norm_sq(v@) == v@.0 * v@.0 + v@.1 * v@.1);
                assert(v@.0 * v@.0 == 0 && v@.1 * v@.1 == 0) by (nonlinear_arith)
                    requires
                        v@.0 == 0 && v@.1 == 0,
                ;
            }
        }
        assert(r@ == (tdiv(v@.0 * (m as int), d as int), tdiv(v@.1 * (m as int), d as int)));
        assert(scaled_to(v@, m as int, r@));
    }
    r
}

/// Clamps `v` to magnitude at most `m`: unchanged when already within `m`,
/// otherwise rescaled down to `m`. Clamping never increases the norm.
pub fn clamp_norm(v: Vec2, m: i64) -> (r: Vec2)
    requires
        within(v@, VEC_LIMIT as int),
        0 <= m,
        m <= 1_000_000_000i64,
    ensures
        clamped(v@, m as int, r@),
        norm_sq(r@) <= (m as int) * (m as int),
        norm_sq(r@) <= norm_sq(v@),
        within(r@, VEC_LIMIT as int),
{
    let n = norm_sq_exec(v);
    proof {
        assert((m as int) * (m as int) <= 1_000_000_000_000_000_000int) by (nonlinear_arith)
            requires
                0 <= m as int <= 1_000_000_000int,
        ;
    }
    if n <= (m as i128) * (m as i128) {
        v
    } else {
        scale_to(v, m)
    }
}

/// A vector of zero squared norm is the zero vector.
pub proof fn lemma_zero_norm(v: (int, int))
    requires
        norm_sq(v) == 0,
    ensures
        v == (0int, 0int),
{
    assert(v.0 == 0 && v.1 == 0) by (nonlinear_arith)
        requires
            v.0 * v.0 + v.1 * v.1 == 0,
    ;
}

/// A component of a vector is bounded in magnitude by any ceiling square root
/// of the vector's squared norm.
pub proof fn lemma_component_within_csqrt(x: int, n: int, d: int)
    requires
        x * x <= n,
        is_csqrt(n, d),
    ensures
        -d <= x <= d,
{
    assert(-d <= x <= d) by (nonlinear_arith)
        requires
            x * x <= n,
            d >= 0,
            d * d >= n,
    ;
}

/// Truncating division by `b >= 1` of a value bounded by `c * b` yields a
/// quotient bounded by `c`.
pub proof fn lemma_tdiv_bound(a: int, b: int, c: int)
    requires
        b >= 1,
        c >= 0,
        -(c * b) <= a <= c * b,
    ensures
        -c <= tdiv(a, b) <= c,
{
    lemma_div_multiples_vanish(c, b);
    assert(c * b == b * c);
    if a >= 0 {
        lemma_div_pos_is_pos(a, b);
        lemma_div_is_ordered(a, c * b, b);
    } else {
        lemma_div_pos_is_pos(-a, b);
        lemma_div_is_ordered(-a, c * b, b);
    }
}

/// A truncating quotient by `b >= 1` is no larger in magnitude than the
/// numerator.
pub proof fn lemma_tdiv_magnitude(a: int, b: int)
    requires
        b >= 1,
    ensures
        -(if a >= 0 { a } else { -a }) <= tdiv(a, b) <= (if a >= 0 { a } else { -a }),
{
    let abs_a = if a >= 0 { a } else { -a };
    assert(-(abs_a * b) <= a <= abs_a * b) by (nonlinear_arith)
        requires
            b >= 1,
            abs_a == if a >= 0 { a } else { -a },
    ;
    lemma_tdiv_bound(a, b, abs_a);
}

/// Truncating division is odd in the numerator.
pub proof fn lemma_tdiv_neg(a: int, b: int)
    requires
        b >= 1,
    ensures
        tdiv(-a, b) == -tdiv(a, b),
{
    if a == 0 {
        vstd::arithmetic::div_mod::lemma_div_of0(b);
    }
}

/// The sign of a truncating quotient follows the sign of the numerator.
pub proof fn lemma_tdiv_sign(a: int, b: int)
    requires
        b >= 1,
    ensures
        a >= 0 ==> tdiv(a, b) >= 0,
        a <= 0 ==> tdiv(a, b) <= 0,
{
    if a >= 0 {
        lemma_div_pos_is_pos(a, b);
    } else {
        lemma_div_pos_is_pos(-a, b);
    }
}

/// The square of a truncating quotient, rescaled by the divisor, never
/// exceeds the square of the numerator.
pub proof fn lemma_tdiv_sq(a: int, d: int)
    requires
        d >= 1,
    ensures
        tdiv(a, d) * tdiv(a, d) * (d * d) <= a * a,
{
    let q = if a >= 0 { a / d } else { (-a) / d };
    let abs_a = if a >= 0 { a } else { -a };
    lemma_div_pos_is_pos(abs_a, d);
    lemma_fundamental_div_mod(abs_a, d);
    lemma_remainder_lower(abs_a, d);
    assert(q * d <= abs_a);
    assert(q >= 0);
    assert(q * q * (d * d) <= a * a) by (nonlinear_arith)
        requires
            q >= 0,
            d >= 1,
            q * d <= abs_a,
            abs_a == if a >= 0 { a } else { -a },
    ;
    assert(tdiv(a, d) * tdiv(a, d) == q * q) by (nonlinear_arith)
        requires
            tdiv(a, d) == if a >= 0 { q } else { -q },
    ;
}

/// Rescaling a vector of norm at most `d` by `m / d` (with truncating
/// division) yields a vector of norm at most `m`.
pub proof fn lemma_scaled_norm(x: int, y: int, m: int, d: int)
    requires
        d >= 1,
        m >= 0,
        x * x + y * y <= d * d,
    ensures
        tdiv(x * m, d) * tdiv(x * m, d) + tdiv(y * m, d) * tdiv(y * m, d) <= m * m,
{
    let rx = tdiv(x * m, d);
    let ry = tdiv(y * m, d);
    lemma_tdiv_sq(x * m, d);
    lemma_tdiv_sq(y * m, d);
    assert((x * m) * (x * m) == (x * x) * (m * m)) by (nonlinear_arith);
    assert((y * m) * (y * m) == (y * y) * (m * m)) by (nonlinear_arith);
    assert((rx * rx + ry * ry) * (d * d) <= (x * x + y * y) * (m * m)) by (nonlinear_arith)
        requires
            rx * rx * (d * d) <= (x * x) * (m * m),
            ry * ry * (d * d) <= (y * y) * (m * m),
    ;
    assert((x * x + y * y) * (m * m) <= (d * d) * (m * m)) by (nonlinear_arith)
        requires
            x * x + y * y <= d * d,
            m * m >= 0,
    ;
    assert(d * d >= 1) by (nonlinear_arith)
        requires
            d >= 1,
    ;
    assert(rx * rx + ry * ry <= m * m) by (nonlinear_arith)
        requires
            (rx * rx + ry * ry) * (d * d) <= (x * x + y * y) * (m * m),
            (x * x + y * y) * (m * m) <= (d * d) * (m * m),
            d * d >= 1,
    ;
}

/// A rescaled vector's norm never exceeds the target magnitude.
pub proof fn lemma_scaled_to_norm(v: (int, int), m: int, r: (int, int))
    requires
        scaled_to(v, m, r),
        m >= 0,
    ensures
        norm_sq(r) <= m * m,
{
    if v == (0int, 0int) {
        assert(norm_sq(r) == 0);
        assert(m * m >= 0) by (nonlinear_arith);
    } else {
        let d = choose|d: int|
            is_csqrt(norm_sq(v), d) && r == (tdiv(v.0 * m, d), tdiv(v.1 * m, d));
        assert(norm_sq(v) >= 1) by (nonlinear_arith)
            requires
                !(v.0 == 0 && v.1 == 0),
                norm_sq(v) == v.0 * v.0 + v.1 * v.1,
        ;
        assert(d >= 1) by (nonlinear_arith)
            requires
                d >= 0,
                d * d >= norm_sq(v),
                norm_sq(v) >= 1,
        ;
        lemma_scaled_norm(v.0, v.1, m, d);
    }
}


/// A clamped vector's norm respects both the clamp bound and the original
/// norm.
pub proof fn lemma_clamped_norm(v: (int, int), m: int, r: (int, int))
    requires
        clamped(v, m, r),
        m >= 0,
    ensures
        norm_sq(r) <= m * m,
        norm_sq(r) <= norm_sq(v),
{
    if norm_sq(v) <= m * m {
    } else {
        lemma_scaled_to_norm(v, m, r);
    }
}

/// Rescaling preserves the (weak) sign of each component.
pub proof fn lemma_scaled_to_signs(v: (int, int), m: int, r: (int, int))
    requires
        scaled_to(v, m, r),
        m >= 0,
    ensures
        v.0 >= 0 ==> r.0 >= 0,
        v.0 <= 0 ==> r.0 <= 0,
        v.1 >= 0 ==> r.1 >= 0,
        v.1 <= 0 ==> r.1 <= 0,
{
    if v != (0int, 0int) {
        let d = choose|d: int|
            is_csqrt(norm_sq(v), d) && r == (tdiv(v.0 * m, d), tdiv(v.1 * m, d));
        assert(norm_sq(v) >= 1) by (nonlinear_arith)
            requires
                !(v.0 == 0 && v.1 == 0),
                norm_sq(v) == v.0 * v.0 + v.1 * v.1,
        ;
        assert(d >= 1) by (nonlinear_arith)
            requires
                d >= 0,
                d * d >= norm_sq(v),
                norm_sq(v) >= 1,
        ;
        lemma_mul_sign(v.0, m);
        lemma_mul_sign(v.1, m);
        lemma_tdiv_sign(v.0 * m, d);
        lemma_tdiv_sign(v.1 * m, d);
    }
}

/// Clamping preserves the (weak) sign of each component.
pub proof fn lemma_clamped_signs(v: (int, int), m: int, r: (int, int))
    requires
        clamped(v, m, r),
        m >= 0,
    ensures
        v.0 >= 0 ==> r.0 >= 0,
        v.0 <= 0 ==> r.0 <= 0,
        v.1 >= 0 ==> r.1 >= 0,
        v.1 <= 0 ==> r.1 <= 0,
{
    if norm_sq(v) <= m * m {
    } else {
        lemma_scaled_to_signs(v, m, r);
    }
}

/// The sign of a product of a value with a nonnegative factor follows the
/// sign of the value.
pub proof fn lemma_mul_sign(a: int, m: int)
    requires
        m >= 0,
    ensures
        a >= 0 ==> a * m >= 0,
        a <= 0 ==> a * m <= 0,
{
    assert((a >= 0 ==> a * m >= 0) && (a <= 0 ==> a * m <= 0)) by (nonlinear_arith)
        requires
            m >= 0,
    ;
}

/// The ceiling square root is unique.
pub proof fn lemma_csqrt_unique(n: int, d1: int, d2: int)
    requires
        is_csqrt(n, d1),
        is_csqrt(n, d2),
    ensures
        d1 == d2,
{
    assert(d1 == d2) by (nonlinear_arith)
        requires
            d1 >= 0 && d1 * d1 >= n && (d1 == 0 || (d1 - 1) * (d1 - 1) < n),
            d2 >= 0 && d2 * d2 >= n && (d2 == 0 || (d2 - 1) * (d2 - 1) < n),
    ;
}

/// Rescaling is deterministic: the relation admits one result.
pub proof fn lemma_scaled_to_unique(v: (int, int), m: int, r1: (int, int), r2: (int, int))
    requires
        scaled_to(v, m, r1),
        scaled_to(v, m, r2),
    ensures
        r1 == r2,
{
    if v != (0int, 0int) {
        let d1 = choose|d: int|
            is_csqrt(norm_sq(v), d) && r1 == (tdiv(v.0 * m, d), tdiv(v.1 * m, d));
        let d2 = choose|d: int|
            is_csqrt(norm_sq(v), d) && r2 == (tdiv(v.0 * m, d), tdiv(v.1 * m, d));
        lemma_csqrt_unique(norm_sq(v), d1, d2);
    }
}

/// Clamping is deterministic: the relation admits one result.
pub proof fn lemma_clamped_unique(v: (int, int), m: int, r1: (int, int), r2: (int, int))
    requires
        clamped(v, m, r1),
        clamped(v, m, r2),
    ensures
        r1 == r2,
{
    if norm_sq(v) > m * m {
        lemma_scaled_to_unique(v, m, r1, r2);
    }
}

/// Truncating division is monotone in the numerator.
pub proof fn lemma_tdiv_monotone(a: int, b: int, k: int)
    requires
        k >= 1,
        a <= b,
    ensures
        tdiv(a, k) <= tdiv(b, k),
{
    if a >= 0 {
        lemma_div_is_ordered(a, b, k);
    } else if b <= 0 {
        lemma_div_is_ordered(-b, -a, k);
    } else {
        lemma_tdiv_sign(a, k);
        lemma_tdiv_sign(b, k);
    }
}

/// A square bound transfers to a magnitude bound.
pub proof fn lemma_sq_bound(x: int, m: int)
    requires
        m >= 0,
        x * x <= m * m,
    ensures
        -m <= x <= m,
{
    assert(-m <= x <= m) by (nonlinear_arith)
        requires
            m >= 0,
            x * x <= m * m,
    ;
}

} // verus!
