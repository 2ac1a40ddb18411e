//! The player: position, facing direction, camera plane and velocity,
//! all in 16.16 fixed point.
//!
//! The camera plane is the vector perpendicular to the view direction
//! whose magnitude encodes the horizontal field of view. Rotation applies
//! one exact 2-by-2 rotation matrix to the direction and the plane alike,
//! so their relative geometry cannot drift apart (see
//! [`lemma_rotation_preserves_dot`]).

use vstd::prelude::*;

use crate::data::WorldMap;
use crate::fixed::{
    fx_div, fx_floor, fx_floor_spec, fx_mul, fxdiv, fxmul, isqrt, sqrt_floor, FP_ONE, FX_PROD_BOUND,
};
use crate::sprites::Entity;
use crate::{DIR_BOUND, POS_BOUND};

verus! {

/// Maximum speed, in cells per second (the value 4).
pub const MOVE_SPEED: i64 = 262144;

/// Rotation speed, in radians per second (the value 2).
pub const ROT_SPEED: i64 = 131072;

/// Acceleration applied while a movement key is held (the value 0.1).
pub const ACCELERATION: i64 = 6554;

/// Drag coefficient: each frame removes `DRAG * frame_time` of the
/// velocity (the value 3).
pub const DRAG: i64 = 196608;

/// Collision radius of the player, in cells (the value 0.2).
pub const PLAYER_RADIUS: i64 = 13107;

/// The mutable camera/player pose.
#[derive(Clone, Copy, PartialEq, Eq, Structural, Debug)]
pub struct Player {
    pub pos_x: i64,
    pub pos_y: i64,
    pub dir_x: i64,
    pub dir_y: i64,
    pub plane_x: i64,
    pub plane_y: i64,
    pub vel_x: i64,
    pub vel_y: i64,
}

impl Player {
    /// The determinant of the camera basis `[plane | dir]`, at scale
    /// `2^32`. Nonzero exactly when direction and plane span the plane,
    /// which the sprite projection inverts.
    pub open spec fn det(&self) -> int {
        self.plane_x * self.dir_y - self.dir_x * self.plane_y
    }

    /// Component bounds under which every renderer computation stays in
    /// range.
    pub open spec fn wf(&self) -> bool {
        &&& -POS_BOUND <= self.pos_x <= POS_BOUND
        &&& -POS_BOUND <= self.pos_y <= POS_BOUND
        &&& -DIR_BOUND <= self.dir_x <= DIR_BOUND
        &&& -DIR_BOUND <= self.dir_y <= DIR_BOUND
        &&& -DIR_BOUND <= self.plane_x <= DIR_BOUND
        &&& -DIR_BOUND <= self.plane_y <= DIR_BOUND
        &&& -DIR_BOUND <= self.vel_x <= DIR_BOUND
        &&& -DIR_BOUND <= self.vel_y <= DIR_BOUND
    }
}

/// First component of the exact (unrounded) rotation of `(x, y)` by the
/// matrix `[[c, -s], [s, c]]`; the result carries the product scale.
pub open spec fn rot_x(x: int, y: int, c: int, s: int) -> int {
    x * c - y * s
}

/// Second component of the exact rotation of `(x, y)`.
pub open spec fn rot_y(x: int, y: int, c: int, s: int) -> int {
    x * s + y * c
}

/// Rotating two vectors by the same matrix scales their dot product by
/// `c^2 + s^2`, the squared norm of the rotation pair. For a unit pair
/// (`c^2 + s^2` equal to one in fixed point) the dot product is
/// preserved exactly: perpendicular vectors stay perpendicular, and (by
/// taking the two vectors equal) every magnitude is unchanged. This is
/// why rotation is applied as one matrix to direction and camera plane
/// rather than by incremental updates.
pub proof fn lemma_rotation_preserves_dot(ux: int, uy: int, vx: int, vy: int, c: int, s: int)
    ensures
        rot_x(ux, uy, c, s) * rot_x(vx, vy, c, s) + rot_y(ux, uy, c, s) * rot_y(vx, vy, c, s) == (c
            * c + s * s) * (ux * vx + uy * vy),
{
    assert((ux * c - uy * s) * (vx * c - vy * s) == (ux * c) * (vx * c) - (ux * c) * (vy * s) - (uy
        * s) * (vx * c) + (uy * s) * (vy * s)) by (nonlinear_arith);
    assert((ux * s + uy * c) * (vx * s + vy * c) == (ux * s) * (vx * s) + (ux * s) * (vy * c) + (uy
        * c) * (vx * s) + (uy * c) * (vy * c)) by (nonlinear_arith);
    assert((ux * c) * (vx * c) == (ux * vx) * (c * c)) by (nonlinear_arith);
    assert((ux * c) * (vy * s) == (ux * vy) * (c * s)) by (nonlinear_arith);
    assert((uy * s) * (vx * c) == (uy * vx) * (c * s)) by (nonlinear_arith);
    assert((uy * s) * (vy * s) == (uy * vy) * (s * s)) by (nonlinear_arith);
    assert((ux * s) * (vx * s) == (ux * vx) * (s * s)) by (nonlinear_arith);
    assert((ux * s) * (vy * c) == (ux * vy) * (c * s)) by (nonlinear_arith);
    assert((uy * c) * (vx * s) == (uy * vx) * (c * s)) by (nonlinear_arith);
    assert((uy * c) * (vy * c) == (uy * vy) * (c * c)) by (nonlinear_arith);
    assert((ux * vx) * (c * c) + (uy * vy) * (s * s) + (ux * vx) * (s * s) + (uy * vy) * (c * c)
        == (c * c + s * s) * (ux * vx + uy * vy)) by (nonlinear_arith);
}

/// Applies the rotation matrix `[[c, -s], [s, c]]` to `(x, y)` in fixed
/// point, rounding each component toward minus infinity.
pub fn rotate_vec(x: i64, y: i64, c: i64, s: i64) -> (r: (i64, i64))
    requires
        -DIR_BOUND <= x <= DIR_BOUND,
        -DIR_BOUND <= y <= DIR_BOUND,
        -FP_ONE <= c <= FP_ONE,
        -FP_ONE <= s <= FP_ONE,
    ensures
        r.0 == fxmul(x as int, c as int) - fxmul(y as int, s as int),
        r.1 == fxmul(x as int, s as int) + fxmul(y as int, c as int),
        -2 * DIR_BOUND <= r.0 <= 2 * DIR_BOUND,
        -2 * DIR_BOUND <= r.1 <= 2 * DIR_BOUND,
{
    proof {
        lemma_fxmul_small(x as int, c as int);
        lemma_fxmul_small(y as int, s as int);
        lemma_fxmul_small(x as int, s as int);
        lemma_fxmul_small(y as int, c as int);
    }
    let nx = fx_mul(x, c) - fx_mul(y, s);
    let ny = fx_mul(x, s) + fx_mul(y, c);
    (nx, ny)
}

/// Largest frame time `move_player` accepts (a third of a second): under
/// it the drag factor stays at most one and the speed cap under
/// `DIR_BOUND`, so the pose bounds are self-sustaining. The caller
/// clamps longer stalls.
pub const MAX_FRAME_TIME: i64 = 21845;

/// The held movement and rotation keys of one frame.
#[derive(Clone, Copy, PartialEq, Eq, Structural, Debug)]
pub struct InputState {
    pub up: bool,
    pub down: bool,
    pub left: bool,
    pub right: bool,
}

/// Squared length of a vector.
pub open spec fn norm_sq(x: int, y: int) -> int {
    x * x + y * y
}

/// A direction/velocity component clamped into the pose bounds.
pub open spec fn clamp_dir(v: int) -> int {
    if v > DIR_BOUND {
        DIR_BOUND as int
    } else if v < -DIR_BOUND {
        -DIR_BOUND as int
    } else {
        v
    }
}

/// A position component clamped into the pose bounds.
pub open spec fn clamp_pos(v: int) -> int {
    if v > POS_BOUND {
        POS_BOUND as int
    } else if v < -POS_BOUND {
        -POS_BOUND as int
    } else {
        v
    }
}

/// The unit vector along `(x, y)` in fixed point (each component the
/// original divided by the floor square root of the squared norm), or
/// the vector itself when that norm rounds to zero.
pub open spec fn unit_x(x: int, y: int) -> int {
    let n = sqrt_floor(norm_sq(x, y) as nat) as int;
    if n == 0 {
        x
    } else {
        fxdiv(x, n)
    }
}

pub open spec fn unit_y(x: int, y: int) -> int {
    let n = sqrt_floor(norm_sq(x, y) as nat) as int;
    if n == 0 {
        y
    } else {
        fxdiv(y, n)
    }
}

/// One acceleration step along the (normalized) view direction, `sign`
/// +1 for forward and -1 for backward: the new velocity is kept only
/// while its speed stays under `MOVE_SPEED · frame_time`. A degenerate
/// zero-length direction accelerates nothing.
pub open spec fn accel_spec(p: Player, ft: int, sign: int) -> Player {
    let n = sqrt_floor(norm_sq(p.dir_x as int, p.dir_y as int) as nat) as int;
    if n == 0 {
        p
    } else {
        let am = fxmul(crate::camera::ACCELERATION as int, ft);
        let nvx = p.vel_x + sign * fxmul(am, unit_x(p.dir_x as int, p.dir_y as int));
        let nvy = p.vel_y + sign * fxmul(am, unit_y(p.dir_x as int, p.dir_y as int));
        let cap = fxmul(MOVE_SPEED as int, ft);
        if norm_sq(nvx, nvy) < cap * cap {
            Player { vel_x: nvx as i64, vel_y: nvy as i64, ..p }
        } else {
            p
        }
    }
}

/// One rotation step: the same matrix applied to direction and camera
/// plane, each component clamped into the pose bounds (the clamp is
/// inert for unit-scale vectors).
pub open spec fn rotate_spec(p: Player, c: int, s: int) -> Player {
    Player {
        dir_x: clamp_dir(fxmul(p.dir_x as int, c) - fxmul(p.dir_y as int, s)) as i64,
        dir_y: clamp_dir(fxmul(p.dir_x as int, s) + fxmul(p.dir_y as int, c)) as i64,
        plane_x: clamp_dir(fxmul(p.plane_x as int, c) - fxmul(p.plane_y as int, s)) as i64,
        plane_y: clamp_dir(fxmul(p.plane_x as int, s) + fxmul(p.plane_y as int, c)) as i64,
        ..p
    }
}

/// Half the component bound: vectors within it never touch the
/// defensive clamp of a rotation step, so the step is the plain
/// floor-rounded matrix application.
pub const HALF_DIR: i64 = 0x2_0000;

/// How far one rotation step can move a dot product, at the product
/// scale `2^32`, beyond the exact `c^2 + s^2` scaling of the unrounded
/// matrix: each of the four rounded components sits within two
/// fixed-point units of its exact value.
pub const ROT_DOT_ERR: i64 = 0x40_0000_0000_0000;

/// Tolerance on a rotated dot product in component units: at most
/// `ROT_DOT_ERR / 2^32`, about 0.001 in real terms.
pub const DOT_TOL: i64 = 0x40_0000;

/// The rounded rotation step scales any dot product by `c^2 + s^2`, up
/// to `ROT_DOT_ERR` at product scale. For a unit rotation pair
/// (`c^2 + s^2` equal to one in fixed point) this says both halves of
/// the camera's geometric invariant at once: a dot product of zero
/// stays within tolerance of zero, and — taking the two vectors equal —
/// every squared magnitude moves by at most the same margin. Applied
/// step by step it bounds the drift over any sequence of left/right
/// rotation frames.
pub proof fn lemma_rotation_dot_tolerance(ux: int, uy: int, vx: int, vy: int, c: int, s: int)
    requires
        -HALF_DIR <= ux <= HALF_DIR,
        -HALF_DIR <= uy <= HALF_DIR,
        -HALF_DIR <= vx <= HALF_DIR,
        -HALF_DIR <= vy <= HALF_DIR,
        -FP_ONE <= c <= FP_ONE,
        -FP_ONE <= s <= FP_ONE,
    ensures
        ({
            let rux = clamp_dir(fxmul(ux, c) - fxmul(uy, s));
            let ruy = clamp_dir(fxmul(ux, s) + fxmul(uy, c));
            let rvx = clamp_dir(fxmul(vx, c) - fxmul(vy, s));
            let rvy = clamp_dir(fxmul(vx, s) + fxmul(vy, c));
            (c * c + s * s) * (ux * vx + uy * vy) - ROT_DOT_ERR <= (FP_ONE * FP_ONE) * (rux * rvx
                + ruy * rvy) <= (c * c + s * s) * (ux * vx + uy * vy) + ROT_DOT_ERR
        }),
{
    let one = FP_ONE as int;
    lemma_rot_component(ux, uy, c, s);
    lemma_rot_component(vx, vy, c, s);
    lemma_rot_component_y(ux, uy, c, s);
    lemma_rot_component_y(vx, vy, c, s);
    let rux = clamp_dir(fxmul(ux, c) - fxmul(uy, s));
    let ruy = clamp_dir(fxmul(ux, s) + fxmul(uy, c));
    let rvx = clamp_dir(fxmul(vx, c) - fxmul(vy, s));
    let rvy = clamp_dir(fxmul(vx, s) + fxmul(vy, c));
    let p1 = rot_x(ux, uy, c, s) - one * rux;
    let p2 = rot_x(vx, vy, c, s) - one * rvx;
    let p3 = rot_y(ux, uy, c, s) - one * ruy;
    let p4 = rot_y(vx, vy, c, s) - one * rvy;
    assert(rot_x(ux, uy, c, s) * rot_x(vx, vy, c, s) - 0x20_0000_0000_0000 <= (one * rux) * (one
        * rvx) <= rot_x(ux, uy, c, s) * rot_x(vx, vy, c, s) + 0x20_0000_0000_0000)
        by (nonlinear_arith)
        requires
            one * rux == rot_x(ux, uy, c, s) - p1,
            one * rvx == rot_x(vx, vy, c, s) - p2,
            -2 * one < p1 < 2 * one,
            -2 * one < p2 < 2 * one,
            one == 0x1_0000,
            -0x4_0100_0000 <= rot_x(ux, uy, c, s) <= 0x4_0100_0000,
            -0x4_0100_0000 <= rot_x(vx, vy, c, s) <= 0x4_0100_0000,
    ;
    assert(rot_y(ux, uy, c, s) * rot_y(vx, vy, c, s) - 0x20_0000_0000_0000 <= (one * ruy) * (one
        * rvy) <= rot_y(ux, uy, c, s) * rot_y(vx, vy, c, s) + 0x20_0000_0000_0000)
        by (nonlinear_arith)
        requires
            one * ruy == rot_y(ux, uy, c, s) - p3,
            one * rvy == rot_y(vx, vy, c, s) - p4,
            -2 * one < p3 < 2 * one,
            -2 * one < p4 < 2 * one,
            one == 0x1_0000,
            -0x4_0100_0000 <= rot_y(ux, uy, c, s) <= 0x4_0100_0000,
            -0x4_0100_0000 <= rot_y(vx, vy, c, s) <= 0x4_0100_0000,
    ;
    assert((one * rux) * (one * rvx) + (one * ruy) * (one * rvy) == (one * one) * (rux * rvx + ruy
        * rvy)) by (nonlinear_arith);
    lemma_rotation_preserves_dot(ux, uy, vx, vy, c, s);
}

/// One rounded x component of a rotation step: it never touches the
/// clamp, and scaled back up it sits within one fixed-point unit below
/// the exact rotation (the floor remainders of the two products).
proof fn lemma_rot_component(x: int, y: int, c: int, s: int)
    requires
        -HALF_DIR <= x <= HALF_DIR,
        -HALF_DIR <= y <= HALF_DIR,
        -FP_ONE <= c <= FP_ONE,
        -FP_ONE <= s <= FP_ONE,
    ensures
        ({
            let r = clamp_dir(fxmul(x, c) - fxmul(y, s));
            &&& r == fxmul(x, c) - fxmul(y, s)
            &&& -2 * FP_ONE < rot_x(x, y, c, s) - (FP_ONE as int) * r < 2 * FP_ONE
            &&& -0x4_0100_0000 <= rot_x(x, y, c, s) <= 0x4_0100_0000
        }),
{
    let one = FP_ONE as int;
    crate::fixed::lemma_fxmul_bound(x, c, HALF_DIR as int, one);
    crate::fixed::lemma_fxmul_bound(y, s, HALF_DIR as int, one);
    vstd::arithmetic::div_mod::lemma_fundamental_div_mod(x * c, one);
    vstd::arithmetic::div_mod::lemma_mod_bound(x * c, one);
    vstd::arithmetic::div_mod::lemma_fundamental_div_mod(y * s, one);
    vstd::arithmetic::div_mod::lemma_mod_bound(y * s, one);
    assert(one * fxmul(x, c) == x * c - (x * c) % one);
    assert(one * fxmul(y, s) == y * s - (y * s) % one);
}

/// The y counterpart of `lemma_rot_component`.
proof fn lemma_rot_component_y(x: int, y: int, c: int, s: int)
    requires
        -HALF_DIR <= x <= HALF_DIR,
        -HALF_DIR <= y <= HALF_DIR,
        -FP_ONE <= c <= FP_ONE,
        -FP_ONE <= s <= FP_ONE,
    ensures
        ({
            let r = clamp_dir(fxmul(x, s) + fxmul(y, c));
            &&& r == fxmul(x, s) + fxmul(y, c)
            &&& -2 * FP_ONE < rot_y(x, y, c, s) - (FP_ONE as int) * r < 2 * FP_ONE
            &&& -0x4_0100_0000 <= rot_y(x, y, c, s) <= 0x4_0100_0000
        }),
{
    let one = FP_ONE as int;
    crate::fixed::lemma_fxmul_bound(x, s, HALF_DIR as int, one);
    crate::fixed::lemma_fxmul_bound(y, c, HALF_DIR as int, one);
    vstd::arithmetic::div_mod::lemma_fundamental_div_mod(x * s, one);
    vstd::arithmetic::div_mod::lemma_mod_bound(x * s, one);
    vstd::arithmetic::div_mod::lemma_fundamental_div_mod(y * c, one);
    vstd::arithmetic::div_mod::lemma_mod_bound(y * c, one);
    assert(one * fxmul(x, s) == x * s - (x * s) % one);
    assert(one * fxmul(y, c) == y * c - (y * c) % one);
}

/// A rotation step applied to a perpendicular direction/plane pair
/// leaves their dot product within `DOT_TOL` of zero, whatever the
/// rotation pair: the camera's orthogonality survives rotation up to
/// fixed-point rounding.
pub proof fn lemma_rotate_spec_orthogonality(p: Player, c: int, s: int)
    requires
        -HALF_DIR <= p.dir_x <= HALF_DIR,
        -HALF_DIR <= p.dir_y <= HALF_DIR,
        -HALF_DIR <= p.plane_x <= HALF_DIR,
        -HALF_DIR <= p.plane_y <= HALF_DIR,
        -FP_ONE <= c <= FP_ONE,
        -FP_ONE <= s <= FP_ONE,
        p.dir_x * p.plane_x + p.dir_y * p.plane_y == 0,
    ensures
        ({
            let q = rotate_spec(p, c, s);
            -DOT_TOL <= q.dir_x * q.plane_x + q.dir_y * q.plane_y <= DOT_TOL
        }),
{
    lemma_rotation_dot_tolerance(
        p.dir_x as int,
        p.dir_y as int,
        p.plane_x as int,
        p.plane_y as int,
        c,
        s,
    );
    assert(FP_ONE * FP_ONE == 0x1_0000_0000) by (nonlinear_arith);
    assert((c * c + s * s) * (p.dir_x * p.plane_x + p.dir_y * p.plane_y) == 0)
        by (nonlinear_arith)
        requires
            p.dir_x * p.plane_x + p.dir_y * p.plane_y == 0,
    ;
    let q = rotate_spec(p, c, s);
    let rux = clamp_dir(fxmul(p.dir_x as int, c) - fxmul(p.dir_y as int, s));
    let ruy = clamp_dir(fxmul(p.dir_x as int, s) + fxmul(p.dir_y as int, c));
    let rvx = clamp_dir(fxmul(p.plane_x as int, c) - fxmul(p.plane_y as int, s));
    let rvy = clamp_dir(fxmul(p.plane_x as int, s) + fxmul(p.plane_y as int, c));
    assert(q.dir_x == rux && q.dir_y == ruy && q.plane_x == rvx && q.plane_y == rvy);
    assert(-ROT_DOT_ERR <= (FP_ONE * FP_ONE) * (rux * rvx + ruy * rvy) <= ROT_DOT_ERR);
    assert(q.dir_x * q.plane_x + q.dir_y * q.plane_y == rux * rvx + ruy * rvy);
    let d = rux * rvx + ruy * rvy;
    assert(-DOT_TOL <= d <= DOT_TOL) by (nonlinear_arith)
        requires
            -0x40_0000_0000_0000 <= (FP_ONE * FP_ONE) * d <= 0x40_0000_0000_0000,
            FP_ONE == 0x1_0000,
    ;
}

/// A rotation step moves the camera plane's squared magnitude by at
/// most `ROT_DOT_ERR` at product scale beyond the exact `c^2 + s^2`
/// scaling: with a unit rotation pair, the field-of-view magnitude does
/// not drift beyond rounding.
pub proof fn lemma_rotate_spec_magnitude(p: Player, c: int, s: int)
    requires
        -HALF_DIR <= p.plane_x <= HALF_DIR,
        -HALF_DIR <= p.plane_y <= HALF_DIR,
        -FP_ONE <= c <= FP_ONE,
        -FP_ONE <= s <= FP_ONE,
    ensures
        ({
            let q = rotate_spec(p, c, s);
            (c * c + s * s) * norm_sq(p.plane_x as int, p.plane_y as int) - ROT_DOT_ERR <= (FP_ONE
                * FP_ONE) * norm_sq(q.plane_x as int, q.plane_y as int) <= (c * c + s * s)
                * norm_sq(p.plane_x as int, p.plane_y as int) + ROT_DOT_ERR
        }),
{
    lemma_rotation_dot_tolerance(
        p.plane_x as int,
        p.plane_y as int,
        p.plane_x as int,
        p.plane_y as int,
        c,
        s,
    );
}

/// The drag step: each velocity component loses its `DRAG · frame_time`
/// share.
pub open spec fn drag_spec(p: Player, ft: int) -> Player {
    let f = fxmul(DRAG as int, ft);
    Player {
        vel_x: (p.vel_x - fxmul(p.vel_x as int, f)) as i64,
        vel_y: (p.vel_y - fxmul(p.vel_y as int, f)) as i64,
        ..p
    }
}

/// The player overlaps this entity: it is collidable and closer than
/// its collision radius.
pub open spec fn collides(e: Entity, px: int, py: int) -> bool {
    e.collidable && norm_sq(e.pos_x - px, e.pos_y - py) < e.collision_radius * e.collision_radius
}

/// How many of the first `i` entities the player overlaps.
pub open spec fn collision_count(es: Seq<Entity>, px: int, py: int, i: int) -> nat
    decreases i,
{
    if i <= 0 {
        0
    } else {
        collision_count(es, px, py, i - 1) + if collides(es[i - 1], px, py) {
            1nat
        } else {
            0nat
        }
    }
}

/// The entity-collision step: each overlapped collidable entity
/// reflects the velocity, so the velocity is negated exactly when their
/// number is odd.
pub open spec fn collide_spec(p: Player, es: Seq<Entity>) -> Player {
    if collision_count(es, p.pos_x as int, p.pos_y as int, es.len() as int) % 2 == 1 {
        Player { vel_x: (-p.vel_x) as i64, vel_y: (-p.vel_y) as i64, ..p }
    } else {
        p
    }
}

/// The wall-slide step: probe one player radius ahead along the
/// velocity; if that point lies in a solid cell (or off the grid, which
/// counts as solid), zero the velocity component along the axis whose
/// cell changed, so the player slides along the wall instead of
/// sticking. A zero velocity probes nothing.
pub open spec fn slide_spec(map: WorldMap, p: Player) -> Player {
    if p.vel_x == 0 && p.vel_y == 0 {
        p
    } else {
        let n = sqrt_floor(norm_sq(p.vel_x as int, p.vel_y as int) as nat) as int;
        if n == 0 {
            p
        } else {
            let cpx = p.pos_x + fxmul(fxdiv(p.vel_x as int, n), PLAYER_RADIUS as int);
            let cpy = p.pos_y + fxmul(fxdiv(p.vel_y as int, n), PLAYER_RADIUS as int);
            let cx = fx_floor_spec(cpx);
            let cy = fx_floor_spec(cpy);
            let open_cell = 0 <= cx < map.width && 0 <= cy < map.height && map.cell_at(
                cx,
                cy,
            ).wall_tex == 0;
            if open_cell {
                p
            } else if cx != fx_floor_spec(p.pos_x as int) {
                Player { vel_x: 0, ..p }
            } else {
                Player { vel_y: 0, ..p }
            }
        }
    }
}

/// The position step: move by the velocity, clamped into the pose
/// bounds.
pub open spec fn walk_spec(p: Player) -> Player {
    Player {
        pos_x: clamp_pos(p.pos_x + p.vel_x) as i64,
        pos_y: clamp_pos(p.pos_y + p.vel_y) as i64,
        ..p
    }
}

/// The whole per-frame update, in the order the steps run: forward and
/// backward acceleration, left and right rotation, drag, entity
/// collision, wall slide, walk.
pub open spec fn move_player_spec(
    p: Player,
    input: InputState,
    ft: int,
    c: int,
    s: int,
    es: Seq<Entity>,
    map: WorldMap,
) -> Player {
    let p1 = if input.up {
        accel_spec(p, ft, 1)
    } else {
        p
    };
    let p2 = if input.down {
        accel_spec(p1, ft, -1)
    } else {
        p1
    };
    let p3 = if input.left {
        rotate_spec(p2, c, s)
    } else {
        p2
    };
    let p4 = if input.right {
        rotate_spec(p3, c, -s)
    } else {
        p3
    };
    let p5 = drag_spec(p4, ft);
    let p6 = collide_spec(p5, es);
    let p7 = slide_spec(map, p6);
    walk_spec(p7)
}

/// The floor square root of the squared norm and the unit components,
/// as `unit_x` / `unit_y` prescribe.
fn unit_vec(x: i64, y: i64) -> (r: (i64, i64, i64))
    requires
        -DIR_BOUND <= x <= DIR_BOUND,
        -DIR_BOUND <= y <= DIR_BOUND,
    ensures
        r.2 == sqrt_floor(norm_sq(x as int, y as int) as nat),
        r.0 == unit_x(x as int, y as int),
        r.1 == unit_y(x as int, y as int),
        r.2 >= 0,
        r.2 > 0 ==> -FP_ONE <= r.0 <= FP_ONE && -FP_ONE <= r.1 <= FP_ONE,
{
    proof {
        assert(0 <= x * x <= 0x10_0000_0000 && 0 <= y * y <= 0x10_0000_0000) by (nonlinear_arith)
            requires
                -0x4_0000 <= x <= 0x4_0000,
                -0x4_0000 <= y <= 0x4_0000,
        ;
    }
    let s = x * x + y * y;
    let n = isqrt(s);
    if n == 0 {
        (x, y, 0)
    } else {
        proof {
            assert(x * x <= s && y * y <= s) by (nonlinear_arith)
                requires
                    s == x * x + y * y,
            ;
            assert(-n <= x <= n && -n <= y <= n) by (nonlinear_arith)
                requires
                    x * x <= s,
                    y * y <= s,
                    n >= 0,
                    (n + 1) * (n + 1) > s,
            ;
            crate::fixed::lemma_fxdiv_unit(x as int, n as int);
            crate::fixed::lemma_fxdiv_unit(y as int, n as int);
        }
        (fx_div(x, n), fx_div(y, n), n)
    }
}

/// The acceleration step's velocity, see `accel_spec`.
fn accel_velocity(p: &Player, ft: i64, forward: bool) -> (v: (i64, i64))
    requires
        p.wf(),
        0 <= ft <= MAX_FRAME_TIME,
    ensures
        ({
            let q = accel_spec(
                *p,
                ft as int,
                if forward {
                    1int
                } else {
                    -1int
                },
            );
            v.0 == q.vel_x && v.1 == q.vel_y
        }),
        -DIR_BOUND <= v.0 <= DIR_BOUND,
        -DIR_BOUND <= v.1 <= DIR_BOUND,
{
    let (nx, ny, n) = unit_vec(p.dir_x, p.dir_y);
    if n == 0 {
        return (p.vel_x, p.vel_y);
    }
    proof {
        crate::fixed::lemma_fxmul_bound(
            ACCELERATION as int,
            ft as int,
            ACCELERATION as int,
            MAX_FRAME_TIME as int,
        );
    }
    let am = fx_mul(ACCELERATION, ft);
    proof {
        crate::fixed::lemma_fxmul_bound(am as int, nx as int, 2185, FP_ONE as int);
        crate::fixed::lemma_fxmul_bound(am as int, ny as int, 2185, FP_ONE as int);
        vstd::arithmetic::div_mod::lemma_div_pos_is_pos(
            (ACCELERATION * ft) as int,
            FP_ONE as int,
        );
    }
    let ax = fx_mul(am, nx);
    let ay = fx_mul(am, ny);
    let nvx = if forward {
        p.vel_x + ax
    } else {
        p.vel_x - ax
    };
    let nvy = if forward {
        p.vel_y + ay
    } else {
        p.vel_y - ay
    };
    proof {
        crate::fixed::lemma_fxmul_bound(
            MOVE_SPEED as int,
            ft as int,
            MOVE_SPEED as int,
            MAX_FRAME_TIME as int,
        );
        assert(0 <= nvx * nvx <= 0x100_0000_0000 && 0 <= nvy * nvy <= 0x100_0000_0000)
            by (nonlinear_arith)
            requires
                -0x5_0000 <= nvx <= 0x5_0000,
                -0x5_0000 <= nvy <= 0x5_0000,
        ;
        vstd::arithmetic::div_mod::lemma_div_pos_is_pos((MOVE_SPEED * ft) as int, FP_ONE as int);
    }
    let cap = fx_mul(MOVE_SPEED, ft);
    proof {
        assert(0 <= cap <= 0x2_0000);
        assert(0 <= cap * cap <= 0x4_0000_0000) by (nonlinear_arith)
            requires
                0 <= cap <= 0x2_0000,
        ;
    }
    if nvx * nvx + nvy * nvy < cap * cap {
        proof {
            assert(-cap <= nvx <= cap && -cap <= nvy <= cap) by (nonlinear_arith)
                requires
                    nvx * nvx + nvy * nvy < cap * cap,
                    0 <= nvx * nvx,
                    0 <= nvy * nvy,
                    0 <= cap,
            ;
        }
        (nvx, nvy)
    } else {
        (p.vel_x, p.vel_y)
    }
}

/// Clamps a component into the direction/velocity bounds.
fn clamp_dir_val(v: i64) -> (r: i64)
    ensures
        r == clamp_dir(v as int),
        -DIR_BOUND <= r <= DIR_BOUND,
{
    if v > DIR_BOUND {
        DIR_BOUND
    } else if v < -DIR_BOUND {
        -DIR_BOUND
    } else {
        v
    }
}

/// Clamps a component into the position bounds.
fn clamp_pos_val(v: i64) -> (r: i64)
    ensures
        r == clamp_pos(v as int),
        -POS_BOUND <= r <= POS_BOUND,
{
    if v > POS_BOUND {
        POS_BOUND
    } else if v < -POS_BOUND {
        -POS_BOUND
    } else {
        v
    }
}

/// Shrinking a component by its drag share keeps it within bounds.
proof fn lemma_drag_bounds(v: int, f: int)
    requires
        -DIR_BOUND <= v <= DIR_BOUND,
        0 <= f <= FP_ONE,
    ensures
        -DIR_BOUND <= v - fxmul(v, f) <= DIR_BOUND,
{
    let one = FP_ONE as int;
    if v >= 0 {
        assert(0 <= v * f <= one * v) by (nonlinear_arith)
            requires
                0 <= v,
                0 <= f <= one,
        ;
        vstd::arithmetic::div_mod::lemma_div_pos_is_pos(v * f, one);
        vstd::arithmetic::div_mod::lemma_div_is_ordered(v * f, one * v, one);
        vstd::arithmetic::div_mod::lemma_div_multiples_vanish(v, one);
    } else {
        assert(one * v <= v * f <= 0) by (nonlinear_arith)
            requires
                v < 0,
                0 <= f <= one,
        ;
        vstd::arithmetic::div_mod::lemma_div_is_ordered(one * v, v * f, one);
        vstd::arithmetic::div_mod::lemma_div_multiples_vanish(v, one);
        assert(fxmul(v, f) <= 0) by {
            vstd::arithmetic::div_mod::lemma_div_is_ordered(v * f, 0, one);
        }
    }
}

/// The per-frame player update: acceleration from held keys, rotation
/// by the frame's exact rotation pair `(rot_cos, rot_sin)`, drag,
/// entity collision, wall slide, and the walk itself — in that order,
/// as `move_player_spec` states. The pose bounds are preserved.
#[verifier::rlimit(100)]
pub fn move_player(
    p: &mut Player,
    input: InputState,
    frame_time: i64,
    rot_cos: i64,
    rot_sin: i64,
    entities: &Vec<Entity>,
    map: &WorldMap,
)
    requires
        old(p).wf(),
        0 <= frame_time <= MAX_FRAME_TIME,
        -FP_ONE <= rot_cos <= FP_ONE,
        -FP_ONE <= rot_sin <= FP_ONE,
        map.wf(),
        forall|i: int| 0 <= i < entities@.len() ==> (#[trigger] entities@[i]).wf(),
    ensures
        *final(p) == move_player_spec(
            *old(p),
            input,
            frame_time as int,
            rot_cos as int,
            rot_sin as int,
            entities@,
            *map,
        ),
        final(p).wf(),
{
    if input.up {
        let v = accel_velocity(p, frame_time, true);
        p.vel_x = v.0;
        p.vel_y = v.1;
    }
    let ghost p1 = *p;
    assert(p1 == if input.up {
        accel_spec(*old(p), frame_time as int, 1)
    } else {
        *old(p)
    });
    if input.down {
        let v = accel_velocity(p, frame_time, false);
        p.vel_x = v.0;
        p.vel_y = v.1;
    }
    let ghost p2 = *p;
    assert(p2 == if input.down {
        accel_spec(p1, frame_time as int, -1)
    } else {
        p1
    });
    if input.left {
        let d = rotate_vec(p.dir_x, p.dir_y, rot_cos, rot_sin);
        let pl = rotate_vec(p.plane_x, p.plane_y, rot_cos, rot_sin);
        p.dir_x = clamp_dir_val(d.0);
        p.dir_y = clamp_dir_val(d.1);
        p.plane_x = clamp_dir_val(pl.0);
        p.plane_y = clamp_dir_val(pl.1);
    }
    let ghost p3 = *p;
    assert(p3 == if input.left {
        rotate_spec(p2, rot_cos as int, rot_sin as int)
    } else {
        p2
    });
    if input.right {
        let d = rotate_vec(p.dir_x, p.dir_y, rot_cos, -rot_sin);
        let pl = rotate_vec(p.plane_x, p.plane_y, rot_cos, -rot_sin);
        p.dir_x = clamp_dir_val(d.0);
        p.dir_y = clamp_dir_val(d.1);
        p.plane_x = clamp_dir_val(pl.0);
        p.plane_y = clamp_dir_val(pl.1);
    }
    let ghost p4 = *p;
    assert(p4 == if input.right {
        rotate_spec(p3, rot_cos as int, -rot_sin)
    } else {
        p3
    });
    proof {
        crate::fixed::lemma_fxmul_bound(
            DRAG as int,
            frame_time as int,
            DRAG as int,
            MAX_FRAME_TIME as int,
        );
        vstd::arithmetic::div_mod::lemma_div_pos_is_pos(
            (DRAG * frame_time) as int,
            FP_ONE as int,
        );
    }
    let f = fx_mul(DRAG, frame_time);
    proof {
        lemma_drag_bounds(p.vel_x as int, f as int);
        lemma_drag_bounds(p.vel_y as int, f as int);
        crate::fixed::lemma_fxmul_bound(p.vel_x as int, f as int, DIR_BOUND as int, FP_ONE as int);
        crate::fixed::lemma_fxmul_bound(p.vel_y as int, f as int, DIR_BOUND as int, FP_ONE as int);
    }
    p.vel_x = p.vel_x - fx_mul(p.vel_x, f);
    p.vel_y = p.vel_y - fx_mul(p.vel_y, f);
    let ghost p5 = *p;
    assert(p5 == drag_spec(p4, frame_time as int));
    let ghost v0x = p.vel_x;
    let ghost v0y = p.vel_y;
    let mut i: usize = 0;
    while i < entities.len()
        invariant
            i <= entities@.len(),
            forall|k: int| 0 <= k < entities@.len() ==> (#[trigger] entities@[k]).wf(),
            *p == (if collision_count(entities@, p5.pos_x as int, p5.pos_y as int, i as int) % 2
                == 1 {
                Player { vel_x: (-v0x) as i64, vel_y: (-v0y) as i64, ..p5 }
            } else {
                p5
            }),
            p5.wf(),
            v0x == p5.vel_x,
            v0y == p5.vel_y,
        decreases entities@.len() - i,
    {
        let e = &entities[i];
        if e.collidable {
            let dx = e.pos_x - p.pos_x;
            let dy = e.pos_y - p.pos_y;
            proof {
                assert(-0x100_0000_0000_0000 <= dx * dx + dy * dy <= 0x100_0000_0000_0000
                    && 0 <= dx * dx && 0 <= dy * dy) by (nonlinear_arith)
                    requires
                        -0x800_0000 <= dx <= 0x800_0000,
                        -0x800_0000 <= dy <= 0x800_0000,
                ;
                assert(0 <= e.collision_radius * e.collision_radius <= 0x10_0000_0000)
                    by (nonlinear_arith)
                    requires
                        0 <= e.collision_radius <= 0x4_0000,
                ;
            }
            let d2 = dx * dx + dy * dy;
            let r2 = e.collision_radius * e.collision_radius;
            if d2 < r2 {
                p.vel_x = -p.vel_x;
                p.vel_y = -p.vel_y;
            }
        }
        i = i + 1;
    }
    let ghost p6 = *p;
    assert(p6 == collide_spec(p5, entities@));
    if !(p.vel_x == 0 && p.vel_y == 0) {
        let (nx, ny, n) = unit_vec(p.vel_x, p.vel_y);
        if n != 0 {
            proof {
                crate::fixed::lemma_fxmul_bound(
                    nx as int,
                    PLAYER_RADIUS as int,
                    FP_ONE as int,
                    PLAYER_RADIUS as int,
                );
                crate::fixed::lemma_fxmul_bound(
                    ny as int,
                    PLAYER_RADIUS as int,
                    FP_ONE as int,
                    PLAYER_RADIUS as int,
                );
            }
            let cpx = p.pos_x + fx_mul(nx, PLAYER_RADIUS);
            let cpy = p.pos_y + fx_mul(ny, PLAYER_RADIUS);
            let cx = fx_floor(cpx);
            let cy = fx_floor(cpy);
            let open_cell = 0 <= cx && cx < map.width as i64 && 0 <= cy && cy < map.height as i64
                && map.get_cell(cx as u32, cy as u32).wall_tex == 0;
            if !open_cell {
                if cx != fx_floor(p.pos_x) {
                    p.vel_x = 0;
                } else {
                    p.vel_y = 0;
                }
            }
        }
    }
    let ghost p7 = *p;
    assert(p7 == slide_spec(*map, p6));
    p.pos_x = clamp_pos_val(p.pos_x + p.vel_x);
    p.pos_y = clamp_pos_val(p.pos_y + p.vel_y);
    assert(*p == walk_spec(p7));
}

/// A product of a `DIR_BOUND`-bounded component with a unit-bounded
/// factor keeps `fxmul` within `DIR_BOUND`.
proof fn lemma_fxmul_small(a: int, b: int)
    requires
        -DIR_BOUND <= a <= DIR_BOUND,
        -FP_ONE <= b <= FP_ONE,
    ensures
        -DIR_BOUND <= fxmul(a, b) <= DIR_BOUND,
        -FX_PROD_BOUND <= a * b <= FX_PROD_BOUND,
{
    assert(-(DIR_BOUND * FP_ONE) <= a * b <= DIR_BOUND * FP_ONE) by (nonlinear_arith)
        requires
            -DIR_BOUND <= a <= DIR_BOUND,
            -FP_ONE <= b <= FP_ONE,
    ;
    vstd::arithmetic::div_mod::lemma_div_is_ordered(
        a * b,
        DIR_BOUND * FP_ONE,
        FP_ONE as int,
    );
    vstd::arithmetic::div_mod::lemma_div_is_ordered(
        -(DIR_BOUND * FP_ONE),
        a * b,
        FP_ONE as int,
    );
    assert(DIR_BOUND * FP_ONE / (FP_ONE as int) == DIR_BOUND);
    assert(-(DIR_BOUND * FP_ONE) / (FP_ONE as int) == -DIR_BOUND);
}

} // verus!
