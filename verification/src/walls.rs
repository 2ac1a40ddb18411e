//! The wall caster: one ray per screen column, walked cell by cell
//! through the grid with a DDA (digital differential analyzer), producing
//! the per-column depth buffer and a one-pixel-wide textured slice per
//! column.
//!
//! The walk is specified twice over: `dda_rec` is the mathematical
//! recursion, and `cast_ray` is the loop proved equal to it. On an
//! enclosed map the walk always hits a wall within `width + height`
//! steps, because every step moves the current cell monotonically along
//! one axis and every boundary cell is solid.

use vstd::prelude::*;

use crate::camera::Player;
use crate::data::WorldMap;
use crate::fixed::{
    fx_abs, fx_div, fx_floor, fx_frac, fx_frac_spec, fx_floor_spec, fx_mul, fxdiv, fxmul, FP_ONE,
};
use crate::{SCREEN_HEIGHT, SCREEN_WIDTH, TEX_HEIGHT, TEX_WIDTH};

verus! {

/// Stands in for an infinite side distance on the axis a ray never
/// crosses; larger than any side distance a real axis can accumulate.
pub const SD_INF: i64 = 0x1000_0000_0000_0000;

/// One DDA step never grows a real (non-infinite) side distance by more
/// than this.
pub const SD_STEP_CAP: i64 = 0x1_0000_0000;

/// Bound on ray direction components handed to the caster.
pub const RAY_BOUND: i64 = 0x8_0000;

/// Smallest wall distance reported (about 0.001): distances are clamped
/// up to it so that the projection below never divides by (nearly) zero.
pub const MIN_WALL_DIST: i64 = 66;

/// Bound on every clamped wall distance.
pub const DIST_BOUND: i64 = 0x800_0000_0000;

/// Multiplier for wall height; one screen height at distance 1 (the
/// value 1).
pub const WALL_HEIGHT_SCALE: i64 = 65536;

/// Which face of the hit cell the ray entered through: a vertical
/// (x-side) face or a horizontal (y-side) face. Y-side walls are drawn
/// with the darkened texture variant.
#[derive(Clone, Copy, PartialEq, Eq, Structural, Debug)]
pub enum WallSide {
    X,
    Y,
}

/// The direction a ray steps along an axis: toward lower cells for a
/// negative component, else toward higher cells.
pub open spec fn step_of(r: int) -> int {
    if r < 0 {
        -1
    } else {
        1
    }
}

/// Side distance gained per cell stepped on an axis: |1 / r| in fixed
/// point, or `SD_INF` for an axis the ray never crosses.
pub open spec fn delta_of(r: int) -> int {
    if r == 0 {
        SD_INF as int
    } else if r < 0 {
        fxdiv(FP_ONE as int, -r)
    } else {
        fxdiv(FP_ONE as int, r)
    }
}

/// Initial side distance: the fraction of the start cell still ahead of
/// the position along the ray, scaled by `delta_of`.
pub open spec fn init_sd(pos: int, r: int) -> int {
    if r == 0 {
        SD_INF as int
    } else if r < 0 {
        (fx_frac_spec(pos) * delta_of(r)) / (FP_ONE as int)
    } else {
        ((FP_ONE - fx_frac_spec(pos)) * delta_of(r)) / (FP_ONE as int)
    }
}

/// The DDA recursion: step along whichever axis has the smaller
/// accumulated side distance, and stop on the first solid cell. `None`
/// only if the fuel runs out, which `cast_ray` shows cannot happen on an
/// enclosed map.
pub open spec fn dda_rec(
    map: WorldMap,
    cx: int,
    cy: int,
    sdx: int,
    sdy: int,
    step_x: int,
    step_y: int,
    delta_x: int,
    delta_y: int,
    fuel: nat,
) -> Option<(int, int, WallSide)>
    decreases fuel,
{
    if fuel == 0 {
        None
    } else if sdx < sdy {
        let nx = cx + step_x;
        if map.cell_at(nx, cy).wall_tex > 0 {
            Some((nx, cy, WallSide::X))
        } else {
            dda_rec(
                map,
                nx,
                cy,
                sdx + delta_x,
                sdy,
                step_x,
                step_y,
                delta_x,
                delta_y,
                (fuel - 1) as nat,
            )
        }
    } else {
        let ny = cy + step_y;
        if map.cell_at(cx, ny).wall_tex > 0 {
            Some((cx, ny, WallSide::Y))
        } else {
            dda_rec(
                map,
                cx,
                ny,
                sdx,
                sdy + delta_y,
                step_x,
                step_y,
                delta_x,
                delta_y,
                (fuel - 1) as nat,
            )
        }
    }
}

/// The cell and side hit by the ray from `(pos_x, pos_y)` along
/// `(ray_x, ray_y)`, with fuel for `width + height` steps.
pub open spec fn ray_hit_spec(map: WorldMap, pos_x: int, pos_y: int, ray_x: int, ray_y: int) -> Option<
    (int, int, WallSide),
> {
    dda_rec(
        map,
        fx_floor_spec(pos_x),
        fx_floor_spec(pos_y),
        init_sd(pos_x, ray_x),
        init_sd(pos_y, ray_y),
        step_of(ray_x),
        step_of(ray_y),
        delta_of(ray_x),
        delta_of(ray_y),
        (map.width + map.height) as nat,
    )
}

/// Numerator of the perpendicular wall distance on the hit axis: the
/// fixed-point distance from the position to the entered face of the hit
/// cell (the near face for a positive ray, the far face for a negative
/// one).
pub open spec fn perp_num(pos: int, ray: int, cell: int) -> int {
    cell * FP_ONE - pos + if ray < 0 {
        FP_ONE as int
    } else {
        0
    }
}

/// Perpendicular wall distance: the hit distance projected on the camera
/// axis (not the Euclidean ray length), clamped up to `MIN_WALL_DIST`.
pub open spec fn perp_dist_spec(pos: int, ray: int, cell: int) -> int {
    let d = fxdiv(perp_num(pos, ray, cell), ray);
    if d < MIN_WALL_DIST {
        MIN_WALL_DIST as int
    } else {
        d
    }
}

/// Result of casting one ray.
pub struct RayHit {
    /// Grid x of the hit wall cell.
    pub cell_x: i64,
    /// Grid y of the hit wall cell.
    pub cell_y: i64,
    /// Which face was entered (selects texture variant and coordinate).
    pub side: WallSide,
    /// DDA steps taken; at most `width + height` on an enclosed map.
    pub steps: usize,
    /// Clamped perpendicular wall distance, in fixed point.
    pub dist: i64,
}

/// Casts one ray with the DDA walk. See `ray_hit_spec` for the hit it
/// returns; the distance is the perpendicular distance to the entered
/// face, and the step count is bounded by the grid perimeter, which is
/// the termination argument made explicit.
#[verifier::loop_isolation(false)]
pub fn cast_ray(map: &WorldMap, pos_x: i64, pos_y: i64, ray_x: i64, ray_y: i64) -> (hit: RayHit)
    requires
        map.wf(),
        map.enclosed(),
        1 <= fx_floor_spec(pos_x as int) <= map.width - 2,
        1 <= fx_floor_spec(pos_y as int) <= map.height - 2,
        -RAY_BOUND <= ray_x <= RAY_BOUND,
        -RAY_BOUND <= ray_y <= RAY_BOUND,
        ray_x != 0 || ray_y != 0,
    ensures
        ray_hit_spec(*map, pos_x as int, pos_y as int, ray_x as int, ray_y as int) == Some(
            (hit.cell_x as int, hit.cell_y as int, hit.side),
        ),
        map.in_bounds(hit.cell_x as int, hit.cell_y as int),
        map.cell_at(hit.cell_x as int, hit.cell_y as int).wall_tex > 0,
        hit.steps <= map.width + map.height,
        hit.side == WallSide::X ==> ray_x != 0 && hit.dist == perp_dist_spec(
            pos_x as int,
            ray_x as int,
            hit.cell_x as int,
        ),
        hit.side == WallSide::Y ==> ray_y != 0 && hit.dist == perp_dist_spec(
            pos_y as int,
            ray_y as int,
            hit.cell_y as int,
        ),
        MIN_WALL_DIST <= hit.dist <= DIST_BOUND,
        ray_y == 0 ==> hit.side == WallSide::X && hit.cell_y == fx_floor_spec(pos_y as int),
        ray_x == 0 ==> hit.side == WallSide::Y && hit.cell_x == fx_floor_spec(pos_x as int),
{
    let w = map.width as i64;
    let h = map.height as i64;
    let sx = fx_floor(pos_x);
    let sy = fx_floor(pos_y);
    let step_x: i64 = if ray_x < 0 {
        -1
    } else {
        1
    };
    let step_y: i64 = if ray_y < 0 {
        -1
    } else {
        1
    };
    let delta_x: i64 = if ray_x == 0 {
        SD_INF
    } else {
        fx_div(FP_ONE, fx_abs(ray_x))
    };
    let delta_y: i64 = if ray_y == 0 {
        SD_INF
    } else {
        fx_div(FP_ONE, fx_abs(ray_y))
    };
    assert(ray_x != 0 ==> delta_x == delta_of(ray_x as int) && 0 <= delta_x <= SD_STEP_CAP);
    assert(ray_y != 0 ==> delta_y == delta_of(ray_y as int) && 0 <= delta_y <= SD_STEP_CAP);
    let mut sdx: i64 = init_side_dist(pos_x, ray_x, delta_x);
    let mut sdy: i64 = init_side_dist(pos_y, ray_y, delta_y);
    let mut cx = sx;
    let mut cy = sy;
    let mut steps: usize = 0;
    let ghost target = ray_hit_spec(*map, pos_x as int, pos_y as int, ray_x as int, ray_y as int);
    loop
        invariant
            1 <= cx <= w - 2,
            1 <= cy <= h - 2,
            step_x == 1 ==> sx <= cx,
            step_x == -1 ==> cx <= sx,
            step_y == 1 ==> sy <= cy,
            step_y == -1 ==> cy <= sy,
            steps == (if step_x == 1 {
                cx - sx
            } else {
                sx - cx
            }) + (if step_y == 1 {
                cy - sy
            } else {
                sy - cy
            }),
            ray_x == 0 ==> sdx == SD_INF && cx == sx,
            ray_y == 0 ==> sdy == SD_INF && cy == sy,
            ray_x != 0 ==> 0 <= sdx <= (steps + 1) * SD_STEP_CAP,
            ray_y != 0 ==> 0 <= sdy <= (steps + 1) * SD_STEP_CAP,
            dda_rec(
                *map,
                cx as int,
                cy as int,
                sdx as int,
                sdy as int,
                step_x as int,
                step_y as int,
                delta_x as int,
                delta_y as int,
                (w + h - steps) as nat,
            ) == target,
        decreases w + h - steps,
    {
        let side: WallSide;
        let ghost fuel = (w + h - steps) as nat;
        assert(fuel > 0);
        if sdx < sdy {
            sdx = sdx + delta_x;
            cx = cx + step_x;
            side = WallSide::X;
        } else {
            sdy = sdy + delta_y;
            cy = cy + step_y;
            side = WallSide::Y;
        }
        steps = steps + 1;
        let cell_wall = map.get_cell(cx as u32, cy as u32).wall_tex;
        if cell_wall > 0 {
            assert(target == Some((cx as int, cy as int, side)));
            let dist = clamped_perp_dist(
                if side == WallSide::X {
                    pos_x
                } else {
                    pos_y
                },
                if side == WallSide::X {
                    ray_x
                } else {
                    ray_y
                },
                if side == WallSide::X {
                    cx
                } else {
                    cy
                },
            );
            return RayHit { cell_x: cx, cell_y: cy, side, steps, dist };
        }
        proof {
            assert(map.in_bounds(cx as int, cy as int));
            assert(map.cell_at(cx as int, cy as int).wall_tex <= 0);
            // an open cell cannot sit on the boundary of an enclosed map
            assert(1 <= cx <= w - 2 && 1 <= cy <= h - 2);
        }
    }
}

/// Initial side distance for one axis, as `init_sd` prescribes.
fn init_side_dist(pos: i64, r: i64, delta: i64) -> (sd: i64)
    requires
        -RAY_BOUND <= r <= RAY_BOUND,
        r == 0 ==> delta == SD_INF,
        r != 0 ==> delta == delta_of(r as int) && 0 <= delta <= SD_STEP_CAP,
    ensures
        sd == init_sd(pos as int, r as int),
        r == 0 ==> sd == SD_INF,
        r != 0 ==> 0 <= sd <= SD_STEP_CAP,
{
    if r == 0 {
        return SD_INF;
    }
    let frac = fx_frac(pos);
    let part: i64 = if r < 0 {
        frac
    } else {
        FP_ONE - frac
    };
    proof {
        assert(0 <= part * delta <= 0x1_0000_0000_0000) by (nonlinear_arith)
            requires
                0 <= part <= 0x1_0000,
                0 <= delta <= 0x1_0000_0000,
        ;
        vstd::arithmetic::div_mod::lemma_div_pos_is_pos((part * delta) as int, FP_ONE as int);
        vstd::arithmetic::div_mod::lemma_div_is_ordered(
            (part * delta) as int,
            0x1_0000_0000_0000,
            FP_ONE as int,
        );
    }
    let p: i64 = part * delta;
    p / FP_ONE
}

/// The perpendicular distance to the entered face of the hit cell,
/// clamped up to `MIN_WALL_DIST`.
fn clamped_perp_dist(pos: i64, r: i64, cell: i64) -> (dist: i64)
    requires
        r != 0,
        -RAY_BOUND <= r <= RAY_BOUND,
        0 <= pos <= 0x400_0000,
        0 <= cell <= 1023,
    ensures
        dist == perp_dist_spec(pos as int, r as int, cell as int),
        MIN_WALL_DIST <= dist <= DIST_BOUND,
{
    let num: i64 = cell * FP_ONE - pos + if r < 0 {
        FP_ONE
    } else {
        0
    };
    let d0 = fx_div(num, r);
    if d0 < MIN_WALL_DIST {
        MIN_WALL_DIST
    } else {
        d0
    }
}

/// For a ray with no lateral component (a unit ray straight along the x
/// axis), the perpendicular wall distance is exactly the Euclidean
/// distance from the position to the entered face of the hit cell:
/// casting straight down a corridor has no fisheye error.
pub proof fn lemma_perp_equals_euclidean_axis(pos: int, cell: int, ray: int)
    requires
        ray == FP_ONE || ray == -FP_ONE,
        MIN_WALL_DIST <= (if ray > 0 {
            cell * FP_ONE - pos
        } else {
            pos - (cell + 1) * FP_ONE
        }),
    ensures
        perp_dist_spec(pos, ray, cell) == (if ray > 0 {
            cell * FP_ONE - pos
        } else {
            pos - (cell + 1) * FP_ONE
        }),
{
    let one = FP_ONE as int;
    if ray > 0 {
        let num = cell * one - pos;
        vstd::arithmetic::div_mod::lemma_div_multiples_vanish(num, one);
        assert(num * one == one * num) by (nonlinear_arith);
        assert(vstd::math::abs(num * one) == num * one) by (nonlinear_arith)
            requires
                num > 0,
                one > 0,
        ;
        assert(fxdiv(num, ray) == num);
    } else {
        let e = pos - (cell + 1) * one;
        let num = cell * one - pos + one;
        assert(num == -e);
        vstd::arithmetic::div_mod::lemma_div_multiples_vanish(e, one);
        assert(e * one == one * e) by (nonlinear_arith);
        assert(vstd::math::abs(num * one) == e * one) by (nonlinear_arith)
            requires
                num == -e,
                e > 0,
                one > 0,
        ;
        assert(fxdiv(num, ray) == e);
    }
}

/// One textured one-pixel-wide wall column, ready to blit: the source
/// column and row span in the (possibly darkened) wall texture, and the
/// destination row span on screen, centered on the horizontal midline.
#[derive(Clone, Copy, PartialEq, Eq, Structural, Debug)]
pub struct WallSlice {
    /// 0-based wall texture index (`wall_tex - 1`).
    pub tex: i64,
    /// Draw from the darkened texture variant (y-side hit).
    pub dark: bool,
    /// Source texture column, in `[0, TEX_WIDTH)`.
    pub tex_x: i64,
    /// First source texture row: nonzero only when the wall overflows
    /// the screen and the source region is trimmed symmetrically.
    pub tex_y_start: i64,
    /// Number of source texture rows.
    pub tex_height: i64,
    /// First screen row of the destination span.
    pub draw_start: i64,
    /// Last screen row of the destination span.
    pub draw_end: i64,
    /// The column's perpendicular wall distance (also the depth-buffer
    /// entry).
    pub dist: i64,
}

/// Camera-space offset of screen column `i`: 2·i/width − 1, from −1 at
/// the left edge toward +1 at the right.
pub open spec fn camera_x_spec(i: int) -> int {
    fxdiv(2 * i - SCREEN_WIDTH, SCREEN_WIDTH as int)
}

/// X component of the ray for screen column `i`: `dir + cameraX · plane`.
pub open spec fn column_ray_x(p: Player, i: int) -> int {
    p.dir_x + fxmul(camera_x_spec(i), p.plane_x as int)
}

/// Y component of the ray for screen column `i`.
pub open spec fn column_ray_y(p: Player, i: int) -> int {
    p.dir_y + fxmul(camera_x_spec(i), p.plane_y as int)
}

/// Height in pixels of the wall column at the given distance:
/// `scale · screenHeight / dist`.
pub open spec fn line_height_spec(dist: int) -> int {
    fxdiv(fxmul(WALL_HEIGHT_SCALE as int, SCREEN_HEIGHT as int), dist)
}

/// The slice drawn for a ray that hit cell `(cx, cy)` on `side`.
pub open spec fn wall_slice_of(
    map: WorldMap,
    p: Player,
    rx: int,
    ry: int,
    cx: int,
    cy: int,
    side: WallSide,
) -> WallSlice {
    let dist = if side == WallSide::X {
        perp_dist_spec(p.pos_x as int, rx, cx)
    } else {
        perp_dist_spec(p.pos_y as int, ry, cy)
    };
    let lh = line_height_spec(dist);
    let ds0 = SCREEN_HEIGHT / 2 - lh / 2;
    let ds = if ds0 < 0 {
        0
    } else {
        ds0
    };
    let de0 = lh / 2 + SCREEN_HEIGHT / 2;
    let de = if de0 > SCREEN_HEIGHT - 1 {
        SCREEN_HEIGHT - 1
    } else {
        de0
    };
    let wall_x = if side == WallSide::X {
        p.pos_y + fxmul(dist, ry)
    } else {
        p.pos_x + fxmul(dist, rx)
    };
    let tx0 = (fx_frac_spec(wall_x) * TEX_WIDTH) / (FP_ONE as int);
    let tx = if (side == WallSide::X && rx > 0) || (side == WallSide::Y && ry < 0) {
        TEX_WIDTH - tx0 - 1
    } else {
        tx0
    };
    let drawn = if lh > SCREEN_HEIGHT {
        SCREEN_HEIGHT * TEX_HEIGHT / lh
    } else {
        TEX_HEIGHT as int
    };
    let off = TEX_HEIGHT - drawn;
    WallSlice {
        tex: (map.cell_at(cx, cy).wall_tex - 1) as i64,
        dark: side == WallSide::Y,
        tex_x: tx as i64,
        tex_y_start: (off / 2) as i64,
        tex_height: (TEX_HEIGHT - off) as i64,
        draw_start: ds as i64,
        draw_end: de as i64,
        dist: dist as i64,
    }
}

/// What the wall pass leaves in screen column `i`: `None` only for the
/// degenerate column whose rounded ray vanishes entirely.
pub open spec fn wall_slice_spec(map: WorldMap, p: Player, i: int) -> Option<WallSlice> {
    let rx = column_ray_x(p, i);
    let ry = column_ray_y(p, i);
    if rx == 0 && ry == 0 {
        None
    } else {
        match ray_hit_spec(map, p.pos_x as int, p.pos_y as int, rx, ry) {
            None => None,
            Some(hit) => Some(wall_slice_of(map, p, rx, ry, hit.0, hit.1, hit.2)),
        }
    }
}

/// The depth-buffer entry of screen column `i`.
pub open spec fn zbuf_spec(map: WorldMap, p: Player, i: int) -> int {
    match wall_slice_spec(map, p, i) {
        None => MIN_WALL_DIST as int,
        Some(s) => s.dist as int,
    }
}

/// Camera-space offset of screen column `i`.
fn camera_x(i: i64) -> (r: i64)
    requires
        0 <= i < SCREEN_WIDTH,
    ensures
        r == camera_x_spec(i as int),
        -FP_ONE <= r <= FP_ONE,
{
    let a = 2 * i - SCREEN_WIDTH;
    let r = fx_div(a, SCREEN_WIDTH);
    proof {
        let n = (a as int) * (FP_ONE as int);
        vstd::arithmetic::div_mod::lemma_div_is_ordered(
            vstd::math::abs(n) as int,
            SCREEN_WIDTH * FP_ONE,
            SCREEN_WIDTH as int,
        );
        vstd::arithmetic::div_mod::lemma_div_multiples_vanish(FP_ONE as int, SCREEN_WIDTH as int);
        assert(vstd::math::abs(n) <= SCREEN_WIDTH * FP_ONE);
    }
    r
}

/// Builds the slice for a hit, as `wall_slice_of` prescribes.
fn make_slice(map: &WorldMap, p: &Player, rx: i64, ry: i64, hit: &RayHit) -> (s: WallSlice)
    requires
        map.wf(),
        p.wf(),
        -RAY_BOUND <= rx <= RAY_BOUND,
        -RAY_BOUND <= ry <= RAY_BOUND,
        map.in_bounds(hit.cell_x as int, hit.cell_y as int),
        map.cell_at(hit.cell_x as int, hit.cell_y as int).wall_tex > 0,
        MIN_WALL_DIST <= hit.dist <= DIST_BOUND,
        hit.side == WallSide::X ==> hit.dist == perp_dist_spec(
            p.pos_x as int,
            rx as int,
            hit.cell_x as int,
        ),
        hit.side == WallSide::Y ==> hit.dist == perp_dist_spec(
            p.pos_y as int,
            ry as int,
            hit.cell_y as int,
        ),
    ensures
        s == wall_slice_of(*map, *p, rx as int, ry as int, hit.cell_x as int, hit.cell_y as int, hit.side),
        MIN_WALL_DIST <= s.dist <= DIST_BOUND,
{
    let dist = hit.dist;
    let lh = fx_div(fx_mul(WALL_HEIGHT_SCALE, SCREEN_HEIGHT), dist);
    let mut ds = SCREEN_HEIGHT / 2 - lh / 2;
    if ds < 0 {
        ds = 0;
    }
    let mut de = lh / 2 + SCREEN_HEIGHT / 2;
    if de > SCREEN_HEIGHT - 1 {
        de = SCREEN_HEIGHT - 1;
    }
    proof {
        crate::fixed::lemma_fxmul_bound(dist as int, ry as int, DIST_BOUND as int, RAY_BOUND as int);
        crate::fixed::lemma_fxmul_bound(dist as int, rx as int, DIST_BOUND as int, RAY_BOUND as int);
    }
    let wall_x = if hit.side == WallSide::X {
        p.pos_y + fx_mul(dist, ry)
    } else {
        p.pos_x + fx_mul(dist, rx)
    };
    let frac = fx_frac(wall_x);
    proof {
        vstd::arithmetic::div_mod::lemma_div_is_ordered(
            (frac as int) * (TEX_WIDTH as int),
            0x3fffc0,
            FP_ONE as int,
        );
    }
    let tx0 = (frac * (TEX_WIDTH as i64)) / FP_ONE;
    let mirror = if hit.side == WallSide::X {
        rx > 0
    } else {
        ry < 0
    };
    let tx = if mirror {
        TEX_WIDTH as i64 - tx0 - 1
    } else {
        tx0
    };
    let tys: i64;
    let th: i64;
    if lh > SCREEN_HEIGHT {
        proof {
            vstd::arithmetic::div_mod::lemma_div_is_ordered_by_denominator(
                SCREEN_HEIGHT * (TEX_HEIGHT as int),
                SCREEN_HEIGHT + 1,
                lh as int,
            );
            vstd::arithmetic::div_mod::lemma_div_pos_is_pos(
                SCREEN_HEIGHT * (TEX_HEIGHT as int),
                lh as int,
            );
        }
        let drawn = (SCREEN_HEIGHT * (TEX_HEIGHT as i64)) / lh;
        let off = TEX_HEIGHT as i64 - drawn;
        tys = off / 2;
        th = TEX_HEIGHT as i64 - off;
    } else {
        tys = 0;
        th = TEX_HEIGHT as i64;
    }
    let tex = map.get_cell(hit.cell_x as u32, hit.cell_y as u32).wall_tex as i64 - 1;
    WallSlice {
        tex,
        dark: hit.side == WallSide::Y,
        tex_x: tx,
        tex_y_start: tys,
        tex_height: th,
        draw_start: ds,
        draw_end: de,
        dist,
    }
}

/// The wall pass: casts one ray per screen column, filling the depth
/// buffer and one optional slice per column.
#[verifier::loop_isolation(false)]
pub fn render_walls(map: &WorldMap, p: &Player) -> (out: (Vec<i64>, Vec<Option<WallSlice>>))
    requires
        map.wf(),
        map.enclosed(),
        p.wf(),
        1 <= fx_floor_spec(p.pos_x as int) <= map.width - 2,
        1 <= fx_floor_spec(p.pos_y as int) <= map.height - 2,
    ensures
        out.0@.len() == SCREEN_WIDTH,
        out.1@.len() == SCREEN_WIDTH,
        forall|i: int| 0 <= i < SCREEN_WIDTH ==> out.0@[i] == zbuf_spec(*map, *p, i),
        forall|i: int| 0 <= i < SCREEN_WIDTH ==> out.1@[i] == wall_slice_spec(*map, *p, i),
        forall|i: int| 0 <= i < SCREEN_WIDTH ==> MIN_WALL_DIST <= #[trigger] out.0@[i] <= DIST_BOUND,
{
    let mut zbuf: Vec<i64> = Vec::new();
    let mut slices: Vec<Option<WallSlice>> = Vec::new();
    let mut i: i64 = 0;
    while i < SCREEN_WIDTH
        invariant
            0 <= i <= SCREEN_WIDTH,
            zbuf@.len() == i,
            slices@.len() == i,
            forall|k: int| 0 <= k < i ==> zbuf@[k] == zbuf_spec(*map, *p, k),
            forall|k: int| 0 <= k < i ==> slices@[k] == wall_slice_spec(*map, *p, k),
            forall|k: int| 0 <= k < i ==> MIN_WALL_DIST <= #[trigger] zbuf@[k] <= DIST_BOUND,
        decreases SCREEN_WIDTH - i,
    {
        let cx = camera_x(i);
        proof {
            crate::fixed::lemma_fxmul_bound(
                cx as int,
                p.plane_x as int,
                FP_ONE as int,
                crate::DIR_BOUND as int,
            );
            crate::fixed::lemma_fxmul_bound(
                cx as int,
                p.plane_y as int,
                FP_ONE as int,
                crate::DIR_BOUND as int,
            );
        }
        let rx = p.dir_x + fx_mul(cx, p.plane_x);
        let ry = p.dir_y + fx_mul(cx, p.plane_y);
        if rx == 0 && ry == 0 {
            zbuf.push(MIN_WALL_DIST);
            slices.push(None);
        } else {
            let hit = cast_ray(map, p.pos_x, p.pos_y, rx, ry);
            let slice = make_slice(map, p, rx, ry, &hit);
            zbuf.push(slice.dist);
            slices.push(Some(slice));
        }
        i = i + 1;
    }
    (zbuf, slices)
}

} // verus!
