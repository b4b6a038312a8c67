//! Integration of an actor's motion over one time step, with its velocity
//! held under a ceiling.

use vstd::prelude::*;
use vstd::math::abs;
use crate::actors::Actor;
use crate::geometry::{Point2, Vector2, MICROS_PER_SECOND};

verus! {

/// Ceiling on the magnitude of any velocity: 400 pixels per second.
pub const MAX_PHYSICS_VEL: i64 = 400_000;

/// Longest time step the integrator takes: one second, in microseconds.
pub const MAX_DT: i64 = 1_000_000;

/// Farthest an actor moves in one step of at most `MAX_DT` once its velocity
/// is under the ceiling.
pub const MAX_STEP: i64 = 400_000;

/// `r` is the least natural number whose square is at least `n`.
pub open spec fn is_ceil_sqrt(n: int, r: int) -> bool {
    &&& r >= 0
    &&& r * r >= n
    &&& (r == 0 || (r - 1) * (r - 1) < n)
}

/// The rounded-up square root of `n`.
pub open spec fn ceil_sqrt(n: int) -> int {
    choose|r: int| is_ceil_sqrt(n, r)
}

/// Division that rounds toward zero, as machine division does.
pub open spec fn div_trunc(a: int, d: int) -> int {
    if a >= 0 {
        a / d
    } else {
        -((-a) / d)
    }
}

/// A velocity component scaled by `MAX_PHYSICS_VEL / root`.
pub open spec fn rescale(c: int, root: int) -> int {
    div_trunc(c * MAX_PHYSICS_VEL, root)
}

/// The velocity with its magnitude brought down to the ceiling, when it is
/// above it; it is divided by the rounded-up length, so the result never
/// exceeds the ceiling.
pub open spec fn clamp_velocity(v: Vector2) -> Vector2 {
    if v.norm_squared() > MAX_PHYSICS_VEL * MAX_PHYSICS_VEL {
        let root = ceil_sqrt(v.norm_squared());
        Vector2 { x: rescale(v.x as int, root) as i64, y: rescale(v.y as int, root) as i64 }
    } else {
        v
    }
}

/// Distance covered along one axis at speed `v` over `dt` microseconds.
pub open spec fn displacement(v: int, dt: int) -> int {
    div_trunc(v * dt, MICROS_PER_SECOND as int)
}

/// The actor after one step of `dt` microseconds: velocity clamped, then
/// position advanced by velocity times the step.
pub open spec fn integrate(a: Actor, dt: int) -> Actor {
    let v = clamp_velocity(a.velocity);
    Actor {
        pos: Point2 {
            x: (a.pos.x + displacement(v.x as int, dt)) as i64,
            y: (a.pos.y + displacement(v.y as int, dt)) as i64,
        },
        velocity: v,
        ..a
    }
}

proof fn lemma_square_monotone(a: int, b: int)
    requires
        0 <= a <= b,
    ensures
        a * a <= b * b,
{
    assert(a * a <= b * b) by (nonlinear_arith)
        requires
            0 <= a <= b,
    ;
}

proof fn lemma_ceil_sqrt_unique(n: int, a: int, b: int)
    requires
        is_ceil_sqrt(n, a),
        is_ceil_sqrt(n, b),
    ensures
        a == b,
{
    if a < b {
        lemma_square_monotone(a, b - 1);
    } else if b < a {
        lemma_square_monotone(b, a - 1);
    }
}

proof fn lemma_ceil_sqrt_is(n: int, r: int)
    requires
        is_ceil_sqrt(n, r),
    ensures
        ceil_sqrt(n) == r,
{
    lemma_ceil_sqrt_unique(n, ceil_sqrt(n), r);
}

/// The rounded-up square root, by bisection.
fn ceil_sqrt_u128(n: u128) -> (r: u128)
    ensures
        is_ceil_sqrt(n as int, r as int),
        r <= 0x1_0000_0000_0000_0000,
{
    if n == 0 {
        0
    } else {
        let mut lo: u128 = 0;
        let mut hi: u128 = 0x1_0000_0000_0000_0000;
        assert(hi * hi > n) by (nonlinear_arith)
            requires
                hi == 0x1_0000_0000_0000_0000,
                n <= 0xFFFF_FFFF_FFFF_FFFF_FFFF_FFFF_FFFF_FFFF,
        ;
        while hi - lo > 1
            invariant
                lo < hi <= 0x1_0000_0000_0000_0000,
                lo * lo < n,
                n <= hi * hi,
            decreases hi - lo,
        {
            let mid: u128 = lo + (hi - lo) / 2;
            assert(mid * mid <= 0xFFFF_FFFF_FFFF_FFFE_0000_0000_0000_0001) by (nonlinear_arith)
                requires
                    mid <= 0xFFFF_FFFF_FFFF_FFFF,
            ;
            if mid * mid < n {
                lo = mid;
            } else {
                hi = mid;
            }
        }
        hi
    }
}

/// `|c|` as an unsigned number.
fn magnitude(c: i64) -> (r: u128)
    ensures
        r == abs(c as int),
{
    if c >= 0 {
        c as u128
    } else {
        (-(c as i128)) as u128
    }
}

/// `c * MAX_PHYSICS_VEL / root`, rounded toward zero.
fn rescale_component(c: i64, root: u128) -> (r: i64)
    requires
        0 < root <= 0x1_0000_0000_0000_0000,
        c * c <= root * root,
    ensures
        r == rescale(c as int, root as int),
        abs(r as int) * root <= abs(c as int) * MAX_PHYSICS_VEL,
{
    assert(-0x8000_0000_0000_0000_0000_0000 <= c * MAX_PHYSICS_VEL <= 0x8000_0000_0000_0000_0000_0000)
        by (nonlinear_arith)
        requires
            -0x8000_0000_0000_0000 <= c <= 0x8000_0000_0000_0000,
    ;
    let p: i128 = (c as i128) * (MAX_PHYSICS_VEL as i128);
    let d: i128 = root as i128;
    let ghost a: int = abs(c as int) as int;
    proof {
        assert(a <= root) by (nonlinear_arith)
            requires
                a == abs(c as int),
                c * c <= root * root,
                root > 0,
        ;
        assert(abs(p as int) == a * MAX_PHYSICS_VEL) by (nonlinear_arith)
            requires
                p == c * MAX_PHYSICS_VEL,
                a == abs(c as int),
        ;
    }
    let m: i128 = if p >= 0 {
        p
    } else {
        -p
    };
    let q: i128 = m / d;
    proof {
        assert(q * d <= m && q <= MAX_PHYSICS_VEL) by (nonlinear_arith)
            requires
                q == m / d,
                d > 0,
                m == a * MAX_PHYSICS_VEL,
                0 <= a <= d,
        ;
    }
    if p >= 0 {
        q as i64
    } else {
        -(q as i64)
    }
}

/// Bound on the clamped velocity: `(qx^2 + qy^2) root^2 <= (cx^2 + cy^2) M^2 <= root^2 M^2`.
proof fn lemma_rescaled_under_ceiling(cx: int, cy: int, qx: int, qy: int, root: int)
    requires
        root > 0,
        cx * cx + cy * cy <= root * root,
        abs(qx) * root <= abs(cx) * MAX_PHYSICS_VEL,
        abs(qy) * root <= abs(cy) * MAX_PHYSICS_VEL,
    ensures
        qx * qx + qy * qy <= MAX_PHYSICS_VEL * MAX_PHYSICS_VEL,
{
    let m = MAX_PHYSICS_VEL as int;
    let (ax, ay, bx, by) = (abs(cx) as int, abs(cy) as int, abs(qx) as int, abs(qy) as int);
    assert(bx * bx == qx * qx && by * by == qy * qy && ax * ax == cx * cx && ay * ay == cy * cy)
        by (nonlinear_arith)
        requires
            bx == abs(qx),
            by == abs(qy),
            ax == abs(cx),
            ay == abs(cy),
    ;
    lemma_square_monotone(bx * root, ax * m);
    lemma_square_monotone(by * root, ay * m);
    let (sx, sy, sr, sm, tx, ty) = (bx * bx, by * by, root * root, m * m, ax * ax, ay * ay);
    assert((bx * root) * (bx * root) == sx * sr && (ax * m) * (ax * m) == tx * sm)
        by (nonlinear_arith)
        requires
            sx == bx * bx,
            sr == root * root,
            tx == ax * ax,
            sm == m * m,
    ;
    assert((by * root) * (by * root) == sy * sr && (ay * m) * (ay * m) == ty * sm)
        by (nonlinear_arith)
        requires
            sy == by * by,
            sr == root * root,
            ty == ay * ay,
            sm == m * m,
    ;
    assert(sr > 0) by (nonlinear_arith)
        requires
            sr == root * root,
            root > 0,
    ;
    assert((tx + ty) * sm <= sr * sm) by (nonlinear_arith)
        requires
            tx + ty <= sr,
            sm > 0,
    ;
    assert((sx + sy) * sr <= sr * sm) by (nonlinear_arith)
        requires
            sx * sr <= tx * sm,
            sy * sr <= ty * sm,
            (tx + ty) * sm <= sr * sm,
    ;
    assert(sx + sy <= sm) by (nonlinear_arith)
        requires
            (sx + sy) * sr <= sr * sm,
            sr > 0,
    ;
}

/// The velocity brought under the ceiling, as `clamp_velocity` states.
pub fn clamp_velocity_exec(v: Vector2) -> (r: Vector2)
    ensures
        r == clamp_velocity(v),
        r.norm_squared() <= MAX_PHYSICS_VEL * MAX_PHYSICS_VEL,
        -MAX_PHYSICS_VEL <= r.x <= MAX_PHYSICS_VEL,
        -MAX_PHYSICS_VEL <= r.y <= MAX_PHYSICS_VEL,
{
    let r = clamp_velocity_inner(v);
    proof {
        lemma_component_under_ceiling(r.x as int, r.y as int);
        lemma_component_under_ceiling(r.y as int, r.x as int);
    }
    r
}

/// A component of a vector under the ceiling is itself under it.
proof fn lemma_component_under_ceiling(a: int, b: int)
    requires
        a * a + b * b <= MAX_PHYSICS_VEL * MAX_PHYSICS_VEL,
    ensures
        -MAX_PHYSICS_VEL <= a <= MAX_PHYSICS_VEL,
{
    assert(-MAX_PHYSICS_VEL <= a <= MAX_PHYSICS_VEL) by (nonlinear_arith)
        requires
            a * a + b * b <= MAX_PHYSICS_VEL * MAX_PHYSICS_VEL,
    ;
}

fn clamp_velocity_inner(v: Vector2) -> (r: Vector2)
    ensures
        r == clamp_velocity(v),
        r.norm_squared() <= MAX_PHYSICS_VEL * MAX_PHYSICS_VEL,
{
    let ax = magnitude(v.x);
    let ay = magnitude(v.y);
    assert(ax * ax == v.x * v.x && ay * ay == v.y * v.y) by (nonlinear_arith)
        requires
            ax == abs(v.x as int),
            ay == abs(v.y as int),
    ;
    assert(ax * ax <= 0x4000_0000_0000_0000_0000_0000_0000_0000 && ay * ay
        <= 0x4000_0000_0000_0000_0000_0000_0000_0000) by (nonlinear_arith)
        requires
            ax <= 0x8000_0000_0000_0000,
            ay <= 0x8000_0000_0000_0000,
    ;
    let norm_sq: u128 = ax * ax + ay * ay;
    let ceiling: u128 = (MAX_PHYSICS_VEL as u128) * (MAX_PHYSICS_VEL as u128);
    if norm_sq > ceiling {
        let root = ceil_sqrt_u128(norm_sq);
        proof {
            lemma_ceil_sqrt_is(v.norm_squared(), root as int);
            assert(v.x * v.x <= root * root && v.y * v.y <= root * root) by (nonlinear_arith)
                requires
                    v.x * v.x + v.y * v.y <= root * root,
            ;
        }
        let x = rescale_component(v.x, root);
        let y = rescale_component(v.y, root);
        proof {
            lemma_rescaled_under_ceiling(v.x as int, v.y as int, x as int, y as int, root as int);
        }
        Vector2 { x, y }
    } else {
        v
    }
}

/// Distance covered along one axis at speed `v` over `dt` microseconds,
/// rounded toward zero.
fn displacement_exec(v: i64, dt: i64) -> (r: i64)
    requires
        -MAX_PHYSICS_VEL <= v <= MAX_PHYSICS_VEL,
        0 <= dt <= MAX_DT,
    ensures
        r == displacement(v as int, dt as int),
        -MAX_STEP <= r <= MAX_STEP,
{
    assert(-MAX_PHYSICS_VEL * MAX_DT <= v * dt <= MAX_PHYSICS_VEL * MAX_DT) by (nonlinear_arith)
        requires
            -MAX_PHYSICS_VEL <= v <= MAX_PHYSICS_VEL,
            0 <= dt <= MAX_DT,
    ;
    let p: i64 = v * dt;
    if p >= 0 {
        p / MICROS_PER_SECOND
    } else {
        -((-p) / MICROS_PER_SECOND)
    }
}

/// Advances an actor by one step of `dt` microseconds: its velocity is first
/// brought under `MAX_PHYSICS_VEL`, then its position moves by velocity times
/// the step. Afterwards the velocity's magnitude is never above the ceiling.
pub fn update_actor_position(actor: &mut Actor, dt: i64)
    requires
        old(actor).pos.in_range(),
        0 <= dt <= MAX_DT,
    ensures
        *final(actor) == integrate(*old(actor), dt as int),
        final(actor).velocity.norm_squared() <= MAX_PHYSICS_VEL * MAX_PHYSICS_VEL,
        -MAX_PHYSICS_VEL <= final(actor).velocity.x <= MAX_PHYSICS_VEL,
        -MAX_PHYSICS_VEL <= final(actor).velocity.y <= MAX_PHYSICS_VEL,
        abs(final(actor).pos.x - old(actor).pos.x) <= MAX_STEP,
        abs(final(actor).pos.y - old(actor).pos.y) <= MAX_STEP,
{
    let v = clamp_velocity_exec(actor.velocity);
    let dx = displacement_exec(v.x, dt);
    let dy = displacement_exec(v.y, dt);
    actor.velocity = v;
    actor.pos = Point2 { x: actor.pos.x + dx, y: actor.pos.y + dy };
}

} // verus!
