//! The floor/ceiling caster: for each screen row below the horizon (and
//! its mirror row above), the world position of every pixel follows by
//! linear interpolation between the two extreme rays of the camera, and
//! the pixel is copied straight out of the floor or ceiling tile of the
//! wrapped grid cell under it.
//!
//! The horizon row itself projects to infinity and is left at the
//! background value, as is any pixel whose cell has no tile there.

use vstd::prelude::*;

use crate::camera::Player;
use crate::data::{wrap_coord, MapCell, WorldMap};
use crate::fixed::{
    fx_div, fx_floor, fx_floor_spec, fx_frac, fx_frac_spec, fx_mul, fxdiv, fxmul, tdiv, FP_ONE,
};
use crate::textures::{TextureManager, TILE_BYTES};
use crate::{SCREEN_HEIGHT, SCREEN_WIDTH, TEX_WIDTH};

verus! {

/// Background byte value of the framebuffer (a mid grey).
pub const BACKGROUND: u8 = 128;

/// Every floor and ceiling id of the map names one of `n` loaded
/// textures (ids are 1-indexed; 0 and below draw nothing).
pub open spec fn tex_ids_ok(map: WorldMap, n: int) -> bool {
    forall|x: int, y: int|
        map.in_bounds(x, y) ==> (#[trigger] map.cell_at(x, y)).floor_tex <= n && map.cell_at(
            x,
            y,
        ).ceil_tex <= n
}

/// The grid cell under a world point, wrapped into the grid by the
/// power-of-two mask.
pub open spec fn cell_of(map: WorldMap, fpx: int, fpy: int) -> MapCell {
    map.cell_at(
        fx_floor_spec(fpx) % (map.width as int),
        fx_floor_spec(fpy) % (map.height as int),
    )
}

/// The floor (or ceiling) texture id under a world point.
pub open spec fn tile_id(map: WorldMap, fpx: int, fpy: int, ceil: bool) -> int {
    if ceil {
        cell_of(map, fpx, fpy).ceil_tex as int
    } else {
        cell_of(map, fpx, fpy).floor_tex as int
    }
}

/// Byte offset of the sampled texel inside its tile: the fractional
/// cell position scaled to texels, row-major, four bytes per texel.
pub open spec fn tile_off(fpx: int, fpy: int) -> int {
    (((fx_frac_spec(fpy) * TEX_WIDTH) / (FP_ONE as int)) * TEX_WIDTH + (fx_frac_spec(fpx)
        * TEX_WIDTH) / (FP_ONE as int)) * 4
}

/// Byte `k` of the pixel a world point contributes: sampled from its
/// tile, or the background when the cell draws nothing there.
pub open spec fn tile_byte(
    map: WorldMap,
    tex: TextureManager,
    fpx: int,
    fpy: int,
    ceil: bool,
    k: int,
) -> u8 {
    let id = tile_id(map, fpx, fpy, ceil);
    if id >= 1 {
        tex.raw_textures@[id - 1]@[tile_off(fpx, fpy) + k]
    } else {
        BACKGROUND
    }
}

/// Distance to the strip of floor a screen row shows:
/// `(screenHeight/2) / (row - screenHeight/2)`.
pub open spec fn row_dist(y: int) -> int {
    fxdiv(SCREEN_HEIGHT / 2, y - SCREEN_HEIGHT / 2)
}

/// Per-column world step across a row: the span between the two extreme
/// rays at this row's distance, divided over the screen columns.
pub open spec fn fstep_x(p: Player, y: int) -> int {
    tdiv(fxmul(2 * p.plane_x, row_dist(y)), SCREEN_WIDTH as int)
}

pub open spec fn fstep_y(p: Player, y: int) -> int {
    tdiv(fxmul(2 * p.plane_y, row_dist(y)), SCREEN_WIDTH as int)
}

/// World x under screen pixel `(x, y)`: the left extreme ray's point at
/// this row's distance, advanced `x` column steps.
pub open spec fn fpos_x(p: Player, x: int, y: int) -> int {
    p.pos_x + fxmul(row_dist(y), p.dir_x - p.plane_x) + x * fstep_x(p, y)
}

pub open spec fn fpos_y(p: Player, x: int, y: int) -> int {
    p.pos_y + fxmul(row_dist(y), p.dir_y - p.plane_y) + x * fstep_y(p, y)
}

/// Byte `k` of the floor pixel at `(col, y)`, `y` below the horizon.
pub open spec fn floor_byte(
    map: WorldMap,
    p: Player,
    tex: TextureManager,
    col: int,
    y: int,
    k: int,
) -> u8 {
    tile_byte(map, tex, fpos_x(p, col, y), fpos_y(p, col, y), false, k)
}

/// Byte `k` of the ceiling pixel mirrored from floor row `y`.
pub open spec fn ceil_byte(
    map: WorldMap,
    p: Player,
    tex: TextureManager,
    col: int,
    y: int,
    k: int,
) -> u8 {
    tile_byte(map, tex, fpos_x(p, col, y), fpos_y(p, col, y), true, k)
}

/// Byte `k` of framebuffer pixel `(col, row)`.
pub open spec fn pix(fb: Seq<u8>, col: int, row: int, k: int) -> u8 {
    fb[(row * SCREEN_WIDTH + col) * 4 + k]
}

/// What the whole framebuffer holds after the pass: floor rows below
/// the horizon, their mirrored ceiling rows above it, background
/// elsewhere (row 0 and the horizon row).
pub open spec fn fb_expected(
    map: WorldMap,
    p: Player,
    tex: TextureManager,
    row: int,
    col: int,
    k: int,
) -> u8 {
    if SCREEN_HEIGHT / 2 < row < SCREEN_HEIGHT {
        floor_byte(map, p, tex, col, row, k)
    } else if 1 <= row < SCREEN_HEIGHT / 2 {
        ceil_byte(map, p, tex, col, SCREEN_HEIGHT - row, k)
    } else {
        BACKGROUND
    }
}

/// The framebuffer state after the rows before `y` are done and row `y`
/// is done up to column `x`.
pub open spec fn floor_pass_partial(
    fb: Seq<u8>,
    map: WorldMap,
    p: Player,
    tex: TextureManager,
    y: int,
    x: int,
) -> bool {
    &&& fb.len() == SCREEN_WIDTH * SCREEN_HEIGHT * 4
    &&& forall|row: int, col: int, k: int|
        0 <= row < SCREEN_HEIGHT && 0 <= col < SCREEN_WIDTH && 0 <= k < 4 ==> #[trigger] pix(
            fb,
            col,
            row,
            k,
        ) == (if SCREEN_HEIGHT / 2 < row && (row < y || (row == y && col < x)) {
            floor_byte(map, p, tex, col, row, k)
        } else if 1 <= row < SCREEN_HEIGHT / 2 && (SCREEN_HEIGHT - row < y || (SCREEN_HEIGHT - row
            == y && col < x)) {
            ceil_byte(map, p, tex, col, SCREEN_HEIGHT - row, k)
        } else {
            BACKGROUND
        })
}

/// Samples the floor or ceiling tile under a world point. `None`
/// exactly when the cell draws nothing there; otherwise the four RGBA
/// bytes of the texel.
fn sample_tile(map: &WorldMap, tex: &TextureManager, fpx: i64, fpy: i64, ceil: bool) -> (r: Option<
    (u8, u8, u8, u8),
>)
    requires
        map.wf(),
        tex.wf(),
        tex_ids_ok(*map, tex.raw_textures@.len() as int),
    ensures
        r is None <==> tile_id(*map, fpx as int, fpy as int, ceil) < 1,
        r matches Some(b) ==> {
            &&& b.0 == tile_byte(*map, *tex, fpx as int, fpy as int, ceil, 0)
            &&& b.1 == tile_byte(*map, *tex, fpx as int, fpy as int, ceil, 1)
            &&& b.2 == tile_byte(*map, *tex, fpx as int, fpy as int, ceil, 2)
            &&& b.3 == tile_byte(*map, *tex, fpx as int, fpy as int, ceil, 3)
        },
{
    let cx = wrap_coord(fx_floor(fpx), map.width);
    let cy = wrap_coord(fx_floor(fpy), map.height);
    let cell = map.get_cell(cx, cy);
    let id = if ceil {
        cell.ceil_tex
    } else {
        cell.floor_tex
    };
    if id < 1 {
        return None;
    }
    let t = tex.get_raw_tex((id - 1) as u32);
    let fx = fx_frac(fpx);
    let fy = fx_frac(fpy);
    proof {
        vstd::arithmetic::div_mod::lemma_div_is_ordered(
            (fx * TEX_WIDTH) as int,
            0x3fffc0,
            FP_ONE as int,
        );
        vstd::arithmetic::div_mod::lemma_div_is_ordered(
            (fy * TEX_WIDTH) as int,
            0x3fffc0,
            FP_ONE as int,
        );
        vstd::arithmetic::div_mod::lemma_div_pos_is_pos((fx * TEX_WIDTH) as int, FP_ONE as int);
        vstd::arithmetic::div_mod::lemma_div_pos_is_pos((fy * TEX_WIDTH) as int, FP_ONE as int);
    }
    let tx = (fx * TEX_WIDTH as i64) / FP_ONE;
    let ty = (fy * TEX_WIDTH as i64) / FP_ONE;
    let off = ((ty * TEX_WIDTH as i64 + tx) * 4) as usize;
    Some((t[off], t[off + 1], t[off + 2], t[off + 3]))
}

/// Writes one RGBA pixel into the framebuffer.
fn write4(fb: &mut Vec<u8>, idx: usize, b: (u8, u8, u8, u8))
    requires
        idx + 4 <= old(fb)@.len(),
    ensures
        final(fb)@ == old(fb)@.update(idx as int, b.0).update(idx + 1, b.1).update(
            idx + 2,
            b.2,
        ).update(idx + 3, b.3),
{
    let l = fb.len();
    assert(idx + 4 <= l);
    fb[idx] = b.0;
    fb[idx + 1] = b.1;
    fb[idx + 2] = b.2;
    fb[idx + 3] = b.3;
}

/// The floor and ceiling pass: returns the full-screen RGBA
/// framebuffer, every byte as `fb_expected` states.
#[verifier::loop_isolation(false)]
#[verifier::rlimit(100)]
pub fn render_floor(map: &WorldMap, p: &Player, tex: &TextureManager) -> (fb: Vec<u8>)
    requires
        map.wf(),
        p.wf(),
        tex.wf(),
        tex_ids_ok(*map, tex.raw_textures@.len() as int),
    ensures
        fb@.len() == SCREEN_WIDTH * SCREEN_HEIGHT * 4,
        forall|row: int, col: int, k: int|
            0 <= row < SCREEN_HEIGHT && 0 <= col < SCREEN_WIDTH && 0 <= k < 4 ==> #[trigger] pix(
                fb@,
                col,
                row,
                k,
            ) == fb_expected(*map, *p, *tex, row, col, k),
{
    let mut fb: Vec<u8> = Vec::new();
    let mut fill: usize = 0;
    while fill < 1920000
        invariant
            fb@.len() == fill,
            fill <= 1920000,
            forall|i: int| 0 <= i < fill ==> fb@[i] == BACKGROUND,
        decreases 1920000 - fill,
    {
        fb.push(BACKGROUND);
        fill = fill + 1;
    }
    let mut y: i64 = SCREEN_HEIGHT / 2 + 1;
    while y < SCREEN_HEIGHT
        invariant
            SCREEN_HEIGHT / 2 + 1 <= y <= SCREEN_HEIGHT,
            floor_pass_partial(fb@, *map, *p, *tex, y as int, 0),
        decreases SCREEN_HEIGHT - y,
    {
        let prow = y - SCREEN_HEIGHT / 2;
        let rd = fx_div(SCREEN_HEIGHT / 2, prow);
        proof {
            crate::fixed::lemma_fxmul_bound(rd as int, (p.dir_x - p.plane_x) as int, 0x2000000, 0x100000);
            crate::fixed::lemma_fxmul_bound(rd as int, (p.dir_y - p.plane_y) as int, 0x2000000, 0x100000);
            crate::fixed::lemma_fxmul_bound(2 * p.plane_x as int, rd as int, 0x100000, 0x2000000);
            crate::fixed::lemma_fxmul_bound(2 * p.plane_y as int, rd as int, 0x100000, 0x2000000);
        }
        let start_x = p.pos_x + fx_mul(rd, p.dir_x - p.plane_x);
        let start_y = p.pos_y + fx_mul(rd, p.dir_y - p.plane_y);
        let mx = fx_mul(2 * p.plane_x, rd);
        let my = fx_mul(2 * p.plane_y, rd);
        proof {
            vstd::arithmetic::div_mod::lemma_div_pos_is_pos(
                vstd::math::abs(mx as int) as int,
                SCREEN_WIDTH as int,
            );
            vstd::arithmetic::div_mod::lemma_div_nonincreasing(
                vstd::math::abs(mx as int) as int,
                SCREEN_WIDTH as int,
            );
            vstd::arithmetic::div_mod::lemma_div_pos_is_pos(
                vstd::math::abs(my as int) as int,
                SCREEN_WIDTH as int,
            );
            vstd::arithmetic::div_mod::lemma_div_nonincreasing(
                vstd::math::abs(my as int) as int,
                SCREEN_WIDTH as int,
            );
        }
        let step_x = mx / SCREEN_WIDTH;
        let step_y = my / SCREEN_WIDTH;
        let mut fpx = start_x;
        let mut fpy = start_y;
        let mut x: i64 = 0;
        while x < SCREEN_WIDTH
            invariant
                0 <= x <= SCREEN_WIDTH,
                SCREEN_HEIGHT / 2 + 1 <= y < SCREEN_HEIGHT,
                start_x == p.pos_x + fxmul(row_dist(y as int), p.dir_x - p.plane_x),
                start_y == p.pos_y + fxmul(row_dist(y as int), p.dir_y - p.plane_y),
                step_x == fstep_x(*p, y as int),
                step_y == fstep_y(*p, y as int),
                -0x8100_0000 <= start_x <= 0x8100_0000,
                -0x8100_0000 <= start_y <= 0x8100_0000,
                -0x8000_0000 <= step_x <= 0x8000_0000,
                -0x8000_0000 <= step_y <= 0x8000_0000,
                fpx == start_x + x * step_x,
                fpy == start_y + x * step_y,
                -0x8100_0000 - x * 0x8000_0000 <= fpx <= 0x8100_0000 + x * 0x8000_0000,
                -0x8100_0000 - x * 0x8000_0000 <= fpy <= 0x8100_0000 + x * 0x8000_0000,
                floor_pass_partial(fb@, *map, *p, *tex, y as int, x as int),
            decreases SCREEN_WIDTH - x,
        {
            let floor_px = sample_tile(map, tex, fpx, fpy, false);
            let ceil_px = sample_tile(map, tex, fpx, fpy, true);
            let ghost fb0 = fb@;
            let ghost fi: int = ((y as int) * SCREEN_WIDTH + x as int) * 4;
            let ghost ci: int = ((SCREEN_HEIGHT - y) as int * SCREEN_WIDTH + x as int) * 4;
            if let Some(b) = floor_px {
                let idx = ((y * SCREEN_WIDTH + x) * 4) as usize;
                assert(idx == fi);
                write4(&mut fb, idx, b);
                proof {
                    assert(fb@[fi + 0] == b.0 && fb@[fi + 1] == b.1 && fb@[fi + 2] == b.2 && fb@[fi
                        + 3] == b.3);
                    assert(forall|j: int|
                        0 <= j < fb0.len() && !(fi <= j < fi + 4) ==> fb@[j] == fb0[j]);
                }
            }
            let ghost fb1 = fb@;
            if let Some(b) = ceil_px {
                let idx = (((SCREEN_HEIGHT - y) * SCREEN_WIDTH + x) * 4) as usize;
                assert(idx == ci);
                write4(&mut fb, idx, b);
                proof {
                    assert(fb@[ci + 0] == b.0 && fb@[ci + 1] == b.1 && fb@[ci + 2] == b.2 && fb@[ci
                        + 3] == b.3);
                    assert(forall|j: int|
                        0 <= j < fb1.len() && !(ci <= j < ci + 4) ==> fb@[j] == fb1[j]);
                }
            }
            proof {
                assert forall|row: int, col: int, k: int|
                    0 <= row < SCREEN_HEIGHT && 0 <= col < SCREEN_WIDTH && 0 <= k
                        < 4 implies #[trigger] pix(fb@, col, row, k) == (if SCREEN_HEIGHT / 2 < row
                    && (row < y || (row == y && col < x + 1)) {
                    floor_byte(*map, *p, *tex, col, row, k)
                } else if 1 <= row < SCREEN_HEIGHT / 2 && (SCREEN_HEIGHT - row < y || (SCREEN_HEIGHT
                    - row == y && col < x + 1)) {
                    ceil_byte(*map, *p, *tex, col, SCREEN_HEIGHT - row, k)
                } else {
                    BACKGROUND
                }) by {
                    let j = (row * SCREEN_WIDTH + col) * 4 + k;
                    assert(0 <= j < fb0.len());
                    if row == y as int && col == x as int {
                        assert(!(ci <= j < ci + 4));
                        assert(pix(fb@, col, row, k) == fb1[j]);
                        assert(pix(fb0, col, row, k) == BACKGROUND);
                        if floor_px is Some {
                            assert(fi <= j < fi + 4 && k == j - fi);
                        } else {
                            assert(fb1[j] == fb0[j]);
                        }
                    } else if row == (SCREEN_HEIGHT - y) as int && col == x as int {
                        assert(!(fi <= j < fi + 4));
                        assert(fb1[j] == fb0[j]);
                        assert(pix(fb0, col, row, k) == BACKGROUND);
                        if ceil_px is Some {
                            assert(ci <= j < ci + 4 && k == j - ci);
                        } else {
                            assert(fb@[j] == fb1[j]);
                        }
                    } else {
                        assert(!(fi <= j < fi + 4) && !(ci <= j < ci + 4));
                        assert(fb@[j] == fb0[j]);
                        assert(pix(fb@, col, row, k) == pix(fb0, col, row, k));
                    }
                }
            }
            proof {
                assert((x + 1) * step_x == x * step_x + step_x) by (nonlinear_arith);
                assert((x + 1) * step_y == x * step_y + step_y) by (nonlinear_arith);
            }
            fpx = fpx + step_x;
            fpy = fpy + step_y;
            x = x + 1;
        }
        y = y + 1;
    }
    proof {
        assert forall|row: int, col: int, k: int|
            0 <= row < SCREEN_HEIGHT && 0 <= col < SCREEN_WIDTH && 0 <= k < 4 implies #[trigger] pix(
            fb@,
            col,
            row,
            k,
        ) == fb_expected(*map, *p, *tex, row, col, k) by {
            assert(floor_pass_partial(fb@, *map, *p, *tex, SCREEN_HEIGHT as int, 0));
        }
    }
    fb
}

} // verus!
