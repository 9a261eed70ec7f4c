//! Fixed-point planar vectors and the integer arithmetic they need.
//!
//! World positions are pairs of `i64` coordinates counted in thousandths
//! of a world unit, so `MILLI` steps make one unit.  A "unit vector" in
//! this scale has norm close to `MILLI`.

use vstd::prelude::*;

verus! {

use vstd::arithmetic::div_mod::lemma_div_is_ordered;
use vstd::arithmetic::div_mod::lemma_div_multiples_vanish;

/// Fixed-point steps per world unit.
pub const MILLI: i64 = 1000;

/// Bound on the coordinates of any world position the library accepts.
pub const WORLD_LIMIT: i64 = 1_000_000_000;

/// Bound on the coordinates of a pursuit goal: a world position plus a
/// bounded target offset.
pub const GOAL_LIMIT: i64 = 1_000_100_000;

/// Bound on the coordinates of points obtained from grid cells; slightly
/// wider than `WORLD_LIMIT` so that every cell near the map still maps in.
pub const POINT_LIMIT: i64 = 1_050_000_000;

/// Bound on the coordinates of a difference of two in-range points.
pub const DIFF_LIMIT: i64 = 2_100_000_000;

/// A planar vector in fixed-point world coordinates.
#[derive(Clone, Copy, PartialEq, Eq, Structural, Debug, Hash)]
pub struct Vec2I {
    pub x: i64,
    pub y: i64,
}

pub open spec fn zero_vec() -> Vec2I {
    Vec2I { x: 0, y: 0 }
}

/// Both coordinates of `v` lie in `[-m, m]`.
pub open spec fn in_box(v: Vec2I, m: int) -> bool {
    -m <= v.x <= m && -m <= v.y <= m
}

/// Every vector of `ps` lies in the box of half-width `m`.
pub open spec fn all_in_box(ps: Seq<Vec2I>, m: int) -> bool {
    forall|i: int| 0 <= i < ps.len() ==> in_box(#[trigger] ps[i], m)
}

pub open spec fn norm_sq(v: Vec2I) -> int {
    v.x * v.x + v.y * v.y
}

pub open spec fn dist_sq(a: Vec2I, b: Vec2I) -> int {
    (a.x - b.x) * (a.x - b.x) + (a.y - b.y) * (a.y - b.y)
}

/// Componentwise sum; exact whenever the true sums fit in `i64`.
pub open spec fn vec_add(a: Vec2I, b: Vec2I) -> Vec2I {
    Vec2I { x: (a.x + b.x) as i64, y: (a.y + b.y) as i64 }
}

/// Componentwise difference; exact whenever the true differences fit in `i64`.
pub open spec fn vec_sub(a: Vec2I, b: Vec2I) -> Vec2I {
    Vec2I { x: (a.x - b.x) as i64, y: (a.y - b.y) as i64 }
}

/// `r` is the floor of the square root of `n`.
pub open spec fn is_sqrt_floor(n: int, r: int) -> bool {
    0 <= r && r * r <= n && n < (r + 1) * (r + 1)
}

/// The floor of the square root of a nonnegative integer.
pub open spec fn sqrt_floor(n: int) -> int {
    choose|r: int| is_sqrt_floor(n, r)
}

/// Any witness of `is_sqrt_floor` is the value of `sqrt_floor`.
pub proof fn lemma_sqrt_floor_unique(n: int, r: int)
    requires
        is_sqrt_floor(n, r),
    ensures
        sqrt_floor(n) == r,
{
    assert(exists|q: int| is_sqrt_floor(n, q));
    let s = sqrt_floor(n);
    assert(is_sqrt_floor(n, s));
    if s < r {
        assert((s + 1) * (s + 1) <= r * r) by (nonlinear_arith)
            requires
                0 <= s,
                s < r,
        ;
        assert(false);
    }
    if r < s {
        assert((r + 1) * (r + 1) <= s * s) by (nonlinear_arith)
            requires
                0 <= r,
                r < s,
        ;
        assert(false);
    }
}

/// Rust's truncating integer division, as a mathematical function;
/// `a / b` in ghost code is Euclidean and differs on negative `a`.
pub open spec fn div_trunc(a: int, b: int) -> int {
    if a >= 0 {
        a / b
    } else {
        -((-a) / b)
    }
}

/// Magnitude bound for truncating division: dividing by `b > 0` cannot
/// grow past any bound `c` with `|a| <= b * c`.
pub proof fn lemma_div_trunc_bound(a: int, b: int, c: int)
    requires
        0 < b,
        0 <= c,
        -(b * c) <= a <= b * c,
    ensures
        -c <= div_trunc(a, b) <= c,
{
    if a >= 0 {
        lemma_div_is_ordered(a, b * c, b);
        lemma_div_multiples_vanish(c, b);
        vstd::arithmetic::div_mod::lemma_div_pos_is_pos(a, b);
    } else {
        lemma_div_is_ordered(-a, b * c, b);
        lemma_div_multiples_vanish(c, b);
        vstd::arithmetic::div_mod::lemma_div_pos_is_pos(-a, b);
    }
}

/// Floor of the integer square root, as executable code.
pub fn isqrt(n: u64) -> (r: u64)
    ensures
        is_sqrt_floor(n as int, r as int),
        r == sqrt_floor(n as int),
{
    let mut lo: u64 = 0;
    let mut hi: u64 = 4_294_967_296;
    proof {
        assert((4_294_967_296int) * (4_294_967_296int) > u64::MAX as int) by (nonlinear_arith);
    }
    while hi - lo > 1
        invariant
            lo < hi <= 4_294_967_296,
            (lo as int) * (lo as int) <= n as int,
            (n as int) < (hi as int) * (hi as int),
        decreases hi - lo,
    {
        let mid: u64 = lo + (hi - lo) / 2;
        proof {
            assert((mid as int) * (mid as int) <= u128::MAX as int) by (nonlinear_arith)
                requires
                    0 <= mid as int <= 4_294_967_296,
            ;
        }
        if (mid as u128) * (mid as u128) <= n as u128 {
            lo = mid;
        } else {
            hi = mid;
        }
    }
    proof {
        lemma_sqrt_floor_unique(n as int, lo as int);
    }
    lo
}

/// Truncating division of bounded `i64` values by a positive divisor.
pub fn div_trunc_i64(a: i64, b: i64) -> (r: i64)
    requires
        0 < b,
        -0x4000_0000_0000_0000 < a < 0x4000_0000_0000_0000,
    ensures
        r == div_trunc(a as int, b as int),
{
    a / b
}

/// Squared distance between two bounded points.
pub fn dist_sq_i64(a: Vec2I, b: Vec2I) -> (r: i64)
    requires
        in_box(a, POINT_LIMIT as int),
        in_box(b, POINT_LIMIT as int),
    ensures
        r == dist_sq(a, b),
        0 <= r,
{
    let dx: i64 = a.x - b.x;
    let dy: i64 = a.y - b.y;
    proof {
        assert(dx * dx + dy * dy <= i64::MAX as int && 0 <= dx * dx && 0 <= dy * dy)
            by (nonlinear_arith)
            requires
                -2_100_000_000 <= dx <= 2_100_000_000,
                -2_100_000_000 <= dy <= 2_100_000_000,
        ;
    }
    dx * dx + dy * dy
}

/// The floor of the norm of a bounded vector.
pub fn norm_i64(v: Vec2I) -> (r: i64)
    requires
        in_box(v, DIFF_LIMIT as int),
    ensures
        r == sqrt_floor(norm_sq(v)),
        is_sqrt_floor(norm_sq(v), r as int),
        0 <= r <= 3_000_000_000,
{
    proof {
        assert(v.x * v.x + v.y * v.y <= 8_820_000_000_000_000_000 && 0 <= v.x * v.x && 0 <= v.y
            * v.y) by (nonlinear_arith)
            requires
                -2_100_000_000 <= v.x <= 2_100_000_000,
                -2_100_000_000 <= v.y <= 2_100_000_000,
        ;
    }
    let nsq: u64 = (v.x * v.x) as u64 + (v.y * v.y) as u64;
    let r: u64 = isqrt(nsq);
    proof {
        assert(is_sqrt_floor(nsq as int, r as int));
        if r as int > 3_000_000_000 {
            assert((r as int) * (r as int) > 8_820_000_000_000_000_000) by (nonlinear_arith)
                requires
                    r as int > 3_000_000_000,
            ;
        }
    }
    r as i64
}

/// Direction of `v` as a fixed-point unit vector (norm close to `MILLI`),
/// or zero when `v` is zero.
pub open spec fn normalize_spec(v: Vec2I) -> Vec2I {
    if norm_sq(v) == 0 {
        zero_vec()
    } else {
        let n = sqrt_floor(norm_sq(v));
        Vec2I { x: div_trunc(v.x * MILLI, n) as i64, y: div_trunc(v.y * MILLI, n) as i64 }
    }
}

/// A normalized vector has components no larger than `MILLI`, and the
/// truncating divisions in `normalize_spec` stay within `i64`.
pub proof fn lemma_normalize_bounds(v: Vec2I)
    requires
        in_box(v, DIFF_LIMIT as int),
    ensures
        in_box(normalize_spec(v), MILLI as int),
        norm_sq(v) != 0 ==> {
            let n = sqrt_floor(norm_sq(v));
            -(MILLI as int) <= div_trunc(v.x * MILLI, n) <= MILLI as int && -(MILLI as int)
                <= div_trunc(v.y * MILLI, n) <= MILLI as int
        },
{
    if norm_sq(v) != 0 {
        let nsq = norm_sq(v);
        assert(nsq >= 1) by (nonlinear_arith)
            requires
                nsq == v.x * v.x + v.y * v.y,
                nsq != 0,
        ;
        lemma_sqrt_floor_exists(nsq);
        let n = sqrt_floor(nsq);
        assert(is_sqrt_floor(nsq, n));
        assert(n >= 1) by (nonlinear_arith)
            requires
                0 <= n,
                nsq < (n + 1) * (n + 1),
                nsq >= 1,
        ;
        assert(-n <= v.x <= n && -n <= v.y <= n) by (nonlinear_arith)
            requires
                0 <= n,
                n * n <= nsq,
                nsq < (n + 1) * (n + 1),
                nsq == v.x * v.x + v.y * v.y,
        ;
        assert(-(n * MILLI) <= v.x * MILLI <= n * MILLI && -(n * MILLI) <= v.y * MILLI <= n
            * MILLI) by (nonlinear_arith)
            requires
                -n <= v.x <= n,
                -n <= v.y <= n,
                MILLI > 0,
        ;
        lemma_div_trunc_bound(v.x * MILLI, n, MILLI as int);
        lemma_div_trunc_bound(v.y * MILLI, n, MILLI as int);
    }
}

/// Every nonnegative integer has a floor square root.
pub proof fn lemma_sqrt_floor_exists(n: int)
    requires
        0 <= n,
    ensures
        is_sqrt_floor(n, sqrt_floor(n)),
    decreases n,
{
    if n == 0 {
        assert(is_sqrt_floor(0, 0));
    } else {
        lemma_sqrt_floor_exists(n - 1);
        let r = sqrt_floor(n - 1);
        assert(is_sqrt_floor(n - 1, r));
        if n < (r + 1) * (r + 1) {
            assert(is_sqrt_floor(n, r));
        } else {
            assert((r + 2) * (r + 2) > n) by (nonlinear_arith)
                requires
                    0 <= r,
                    n - 1 < (r + 1) * (r + 1),
            ;
            assert(is_sqrt_floor(n, r + 1));
        }
    }
    assert(exists|q: int| is_sqrt_floor(n, q));
    assert(is_sqrt_floor(n, sqrt_floor(n)));
}

/// Executable counterpart of `normalize_spec`.
pub fn normalize_or_zero(v: Vec2I) -> (r: Vec2I)
    requires
        in_box(v, DIFF_LIMIT as int),
    ensures
        r == normalize_spec(v),
        in_box(r, MILLI as int),
{
    let n: i64 = norm_i64(v);
    proof {
        lemma_normalize_bounds(v);
    }
    if n == 0 {
        proof {
            assert((0int + 1) * (0int + 1) == 1) by (nonlinear_arith);
            assert(norm_sq(v) == 0);
        }
        Vec2I { x: 0, y: 0 }
    } else {
        proof {
            assert(norm_sq(v) != 0) by (nonlinear_arith)
                requires
                    is_sqrt_floor(norm_sq(v), n as int),
                    n >= 1,
            ;
        }
        let x: i64 = div_trunc_i64(v.x * MILLI, n);
        let y: i64 = div_trunc_i64(v.y * MILLI, n);
        Vec2I { x, y }
    }
}

/// `(a * wa + b * wb) / 10`, componentwise with truncating division:
/// the integer form of a convex blend with weights in tenths.
pub open spec fn blend_spec(a: Vec2I, wa: int, b: Vec2I, wb: int) -> Vec2I {
    Vec2I {
        x: div_trunc(a.x * wa + b.x * wb, 10) as i64,
        y: div_trunc(a.y * wa + b.y * wb, 10) as i64,
    }
}

/// Executable counterpart of `blend_spec`.
pub fn blend_weighted(a: Vec2I, wa: i64, b: Vec2I, wb: i64) -> (r: Vec2I)
    requires
        0 <= wa <= 10,
        0 <= wb <= 10,
        in_box(a, 100_000_000),
        in_box(b, 100_000_000),
    ensures
        r == blend_spec(a, wa as int, b, wb as int),
        in_box(r, 200_000_000),
{
    proof {
        assert(-1_000_000_000 <= a.x * wa <= 1_000_000_000 && -1_000_000_000 <= a.y * wa
            <= 1_000_000_000 && -1_000_000_000 <= b.x * wb <= 1_000_000_000 && -1_000_000_000
            <= b.y * wb <= 1_000_000_000) by (nonlinear_arith)
            requires
                0 <= wa <= 10,
                0 <= wb <= 10,
                -100_000_000 <= a.x <= 100_000_000,
                -100_000_000 <= a.y <= 100_000_000,
                -100_000_000 <= b.x <= 100_000_000,
                -100_000_000 <= b.y <= 100_000_000,
        ;
        assert(-(10int * 200_000_000) <= a.x * wa + b.x * wb <= 10int * 200_000_000
            && -(10int * 200_000_000) <= a.y * wa + b.y * wb <= 10int * 200_000_000)
            by (nonlinear_arith)
            requires
                0 <= wa <= 10,
                0 <= wb <= 10,
                -100_000_000 <= a.x <= 100_000_000,
                -100_000_000 <= a.y <= 100_000_000,
                -100_000_000 <= b.x <= 100_000_000,
                -100_000_000 <= b.y <= 100_000_000,
        ;
        lemma_div_trunc_bound(a.x * wa + b.x * wb, 10, 200_000_000);
        lemma_div_trunc_bound(a.y * wa + b.y * wb, 10, 200_000_000);
    }
    let x: i64 = div_trunc_i64(a.x * wa + b.x * wb, 10);
    let y: i64 = div_trunc_i64(a.y * wa + b.y * wb, 10);
    Vec2I { x, y }
}

/// A fixed-point unit direction times a speed in fixed-point units per
/// second: the velocity of an agent moving along `d`.
pub open spec fn scale_speed_spec(d: Vec2I, speed: int) -> Vec2I {
    Vec2I {
        x: div_trunc(d.x * speed, MILLI as int) as i64,
        y: div_trunc(d.y * speed, MILLI as int) as i64,
    }
}

/// Executable counterpart of `scale_speed_spec`.
pub fn scale_speed(d: Vec2I, speed: i64) -> (r: Vec2I)
    requires
        in_box(d, MILLI as int),
        0 <= speed <= 1_000_000,
    ensures
        r == scale_speed_spec(d, speed as int),
        in_box(r, speed as int),
{
    proof {
        assert(-(MILLI as int * speed) <= d.x * speed <= MILLI as int * speed && -(MILLI as int
            * speed) <= d.y * speed <= MILLI as int * speed) by (nonlinear_arith)
            requires
                -(MILLI as int) <= d.x <= MILLI as int,
                -(MILLI as int) <= d.y <= MILLI as int,
                0 <= speed,
        ;
        lemma_div_trunc_bound(d.x * speed, MILLI as int, speed as int);
        lemma_div_trunc_bound(d.y * speed, MILLI as int, speed as int);
    }
    let x: i64 = div_trunc_i64(d.x * speed, MILLI);
    let y: i64 = div_trunc_i64(d.y * speed, MILLI);
    Vec2I { x, y }
}

/// Componentwise sum of two bounded vectors.
pub fn vec_add_i64(a: Vec2I, b: Vec2I) -> (r: Vec2I)
    requires
        in_box(a, 2_000_000_000),
        in_box(b, 2_000_000_000),
    ensures
        r == vec_add(a, b),
        r.x == a.x + b.x,
        r.y == a.y + b.y,
{
    Vec2I { x: a.x + b.x, y: a.y + b.y }
}

/// Componentwise difference of two bounded vectors.
pub fn vec_sub_i64(a: Vec2I, b: Vec2I) -> (r: Vec2I)
    requires
        in_box(a, 2_000_000_000),
        in_box(b, 2_000_000_000),
    ensures
        r == vec_sub(a, b),
        r.x == a.x - b.x,
        r.y == a.y - b.y,
{
    Vec2I { x: a.x - b.x, y: a.y - b.y }
}

} // verus!
