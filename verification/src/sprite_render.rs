//! The sprite pass: projects each entity into camera space with the
//! inverse of the camera basis, sorts farthest first (painter's
//! algorithm — nearer billboards must be drawn later so they overwrite
//! farther ones), and emits one one-pixel-wide blit per visible screen
//! column. A column is visible exactly when the sprite is in front of
//! the camera and nearer than the wall the depth buffer records there.

use vstd::prelude::*;

use crate::camera::{norm_sq, Player};
use crate::fixed::{fx_div, fx_mul, fxdiv, fxmul, tdiv, FP_ONE};
use crate::sprites::{frame_rect_spec, view_octant, view_octant_spec, Entity, FrameRect};
use crate::{DIR_BOUND, POS_BOUND, SCREEN_HEIGHT, SCREEN_WIDTH};

verus! {

/// Smallest camera-basis determinant (scale `2^32`) the pass accepts;
/// below it the basis is too close to singular to invert and nothing is
/// drawn (about 0.004 in real terms).
pub const DET_MIN: i64 = 0x100_0000;

/// Forward depths are clamped away from zero by this much (about
/// 0.0001), so the projective divisions cannot blow up for a sprite on
/// the camera's lateral axis.
pub const TY_EPS: i64 = 7;

pub open spec fn rel_x(p: Player, e: Entity) -> int {
    e.pos_x - p.pos_x
}

pub open spec fn rel_y(p: Player, e: Entity) -> int {
    e.pos_y - p.pos_y
}

/// Squared planar distance from the camera to the entity; ordering
/// needs no square root.
pub open spec fn sq_dist(p: Player, e: Entity) -> int {
    norm_sq(rel_x(p, e), rel_y(p, e))
}

/// Lateral camera-space coordinate, before dividing by the determinant.
pub open spec fn tnum_x(p: Player, e: Entity) -> int {
    p.dir_y * rel_x(p, e) - p.dir_x * rel_y(p, e)
}

/// Forward camera-space coordinate, before dividing by the determinant.
pub open spec fn tnum_y(p: Player, e: Entity) -> int {
    p.plane_x * rel_y(p, e) - p.plane_y * rel_x(p, e)
}

pub open spec fn clamp_eps(t: int) -> int {
    if -TY_EPS < t < TY_EPS {
        if t < 0 {
            -TY_EPS as int
        } else {
            TY_EPS as int
        }
    } else {
        t
    }
}

/// Lateral offset of the entity in camera space.
pub open spec fn transform_x(p: Player, e: Entity) -> int {
    fxdiv(tnum_x(p, e), p.det())
}

/// Forward depth of the entity in camera space, clamped away from zero.
pub open spec fn transform_y(p: Player, e: Entity) -> int {
    clamp_eps(fxdiv(tnum_y(p, e), p.det()))
}

/// The per-template vertical pixel offset, shrunk by depth.
pub open spec fn mov_of(p: Player, e: Entity) -> int {
    tdiv(e.sprite.v_move * FP_ONE, transform_y(p, e))
}

/// Screen column of the billboard's center.
pub open spec fn screen_x_of(p: Player, e: Entity) -> int {
    tdiv((SCREEN_WIDTH / 2) * (FP_ONE + fxdiv(transform_x(p, e), transform_y(p, e))), FP_ONE as int)
}

/// On-screen height of the billboard (always nonnegative).
pub open spec fn height_of(p: Player, e: Entity) -> int {
    let h = fxmul(fxdiv(SCREEN_HEIGHT as int, transform_y(p, e)), e.sprite.v_scale as int);
    if h < 0 {
        -h
    } else {
        h
    }
}

/// On-screen width of the billboard; negative behind the camera, which
/// empties the column span.
pub open spec fn width_of(p: Player, e: Entity) -> int {
    fxmul(fxdiv(SCREEN_HEIGHT as int, transform_y(p, e)), e.sprite.u_scale as int)
}

/// First screen column of the clipped span.
pub open spec fn ds_x(p: Player, e: Entity) -> int {
    let a = tdiv(-width_of(p, e), 2) + screen_x_of(p, e);
    if a < 0 {
        0
    } else {
        a
    }
}

/// Exclusive end of the column span, clipped to the screen: the span
/// covers `[ds_x, de_x)` within `[0, SCREEN_WIDTH)`.
pub open spec fn de_x(p: Player, e: Entity) -> int {
    let b = tdiv(width_of(p, e), 2) + screen_x_of(p, e);
    if b > SCREEN_WIDTH {
        SCREEN_WIDTH as int
    } else {
        b
    }
}

/// Bottom screen row of the clipped vertical span.
pub open spec fn de_y(p: Player, e: Entity) -> int {
    let b = tdiv(height_of(p, e), 2) + SCREEN_HEIGHT / 2 + mov_of(p, e);
    if b > SCREEN_HEIGHT - 1 {
        SCREEN_HEIGHT - 1
    } else {
        b
    }
}

/// The view-angle sector of a rotating sprite: the signed angle between
/// the entity's facing direction and the vector from the entity to the
/// camera, bucketed into 8 sectors.
pub open spec fn sector_of(p: Player, e: Entity) -> int {
    view_octant_spec(-rel_x(p, e), -rel_y(p, e), e.dir_x as int, e.dir_y as int)
}

/// The occlusion rule: a span column shows the sprite exactly when the
/// sprite is in front of the camera and nearer than the wall depth
/// recorded for that column — the first and last screen columns
/// included.
pub open spec fn visible(p: Player, zbuf: Seq<i64>, e: Entity, x: int) -> bool {
    &&& transform_y(p, e) > 0
    &&& 0 <= x < SCREEN_WIDTH
    &&& transform_y(p, e) < zbuf[x]
}

/// One one-pixel-wide sprite blit: the sheet rectangle to copy and
/// where on screen it lands.
#[derive(Clone, Copy, PartialEq, Eq, Structural, Debug)]
pub struct SpriteSlice {
    /// Index of the entity in the entity list.
    pub entity: usize,
    /// Destination screen column.
    pub x: i64,
    /// Source rectangle in the entity's sprite sheet.
    pub rect: FrameRect,
    /// Top destination row of the blit:
    /// `screenHeight - (bottom + offset)`.
    pub dest_y: i64,
    /// Destination height in pixels.
    pub dest_h: i64,
}

/// The slice drawn for entity `ei` at screen column `x`.
pub open spec fn slice_spec(p: Player, es: Seq<Entity>, ei: int, x: int) -> SpriteSlice {
    let e = es[ei];
    SpriteSlice {
        entity: ei as usize,
        x: x as i64,
        rect: frame_rect_spec(e, x, screen_x_of(p, e), width_of(p, e), sector_of(p, e)),
        dest_y: (SCREEN_HEIGHT - (de_y(p, e) + mov_of(p, e))) as i64,
        dest_h: height_of(p, e) as i64,
    }
}

/// Everything the contract of `render_sprites` promises of one emitted
/// slice: a real entity, a column in its clipped span that passes the
/// occlusion rule, and fields exactly as projected.
pub open spec fn slice_ok(p: Player, zbuf: Seq<i64>, es: Seq<Entity>, s: SpriteSlice) -> bool {
    &&& 0 <= s.entity < es.len()
    &&& ds_x(p, es[s.entity as int]) <= s.x < de_x(p, es[s.entity as int])
    &&& visible(p, zbuf, es[s.entity as int], s.x as int)
    &&& s == slice_spec(p, es, s.entity as int, s.x as int)
}

/// Magnitude bound for a truncating quotient whose divisor is bounded
/// away from zero.
proof fn lemma_tdiv_denom(a: int, b: int, bmin: int)
    requires
        1 <= bmin,
        b >= bmin || b <= -bmin,
    ensures
        -(vstd::math::abs(a) as int / bmin) <= tdiv(a, b) <= vstd::math::abs(a) as int / bmin,
{
    let aa = vstd::math::abs(a) as int;
    let bb = vstd::math::abs(b) as int;
    vstd::arithmetic::div_mod::lemma_div_is_ordered_by_denominator(aa, bmin, bb);
    vstd::arithmetic::div_mod::lemma_div_pos_is_pos(aa, bb);
}

/// Sorts (squared distance, entity index) pairs by distance, largest
/// first, returning a permutation of the input.
fn sort_by_dist(v: Vec<(i64, usize)>) -> (r: Vec<(i64, usize)>)
    ensures
        r@.len() == v@.len(),
        r@.to_multiset() == v@.to_multiset(),
        forall|j1: int, j2: int| 0 <= j1 < j2 < r@.len() ==> (#[trigger] r@[j1]).0 >= (
        #[trigger] r@[j2]).0,
{
    let mut src = v;
    let mut out: Vec<(i64, usize)> = Vec::new();
    proof {
        out@.to_multiset_ensures();
        assert(out@.to_multiset().add(src@.to_multiset()) =~= src@.to_multiset());
    }
    while src.len() > 0
        invariant
            out@.len() + src@.len() == v@.len(),
            out@.to_multiset().add(src@.to_multiset()) == v@.to_multiset(),
            forall|j1: int, j2: int| 0 <= j1 < j2 < out@.len() ==> (#[trigger] out@[j1]).0 >= (
            #[trigger] out@[j2]).0,
            forall|j: int, k: int|
                0 <= j < out@.len() && 0 <= k < src@.len() ==> (#[trigger] out@[j]).0 >= (
                #[trigger] src@[k]).0,
        decreases src@.len(),
    {
        let mut m: usize = 0;
        let mut i: usize = 1;
        while i < src.len()
            invariant
                0 < src@.len(),
                m < i <= src@.len(),
                forall|k: int| 0 <= k < i ==> (#[trigger] src@[k]).0 <= src@[m as int].0,
            decreases src@.len() - i,
        {
            if src[i].0 > src[m].0 {
                m = i;
            }
            i = i + 1;
        }
        let ghost s0 = src@;
        let ghost out0 = out@;
        let item = src.remove(m);
        out.push(item);
        proof {
            s0.to_multiset_ensures();
            out0.to_multiset_ensures();
            assert(s0.contains(item)) by {
                assert(s0[m as int] == item);
            }
            assert(out@.to_multiset().add(src@.to_multiset()) =~= out0.to_multiset().add(
                s0.to_multiset(),
            ));
        }
    }
    proof {
        src@.to_multiset_ensures();
        assert(src@.to_multiset().len() == 0);
        assert(out@.to_multiset().add(src@.to_multiset()) =~= out@.to_multiset());
    }
    out
}

/// The sprite pass. Emits, farthest entity first, one slice per screen
/// column of each entity's clipped billboard span that passes the
/// occlusion rule — and none that fails it. Slices of one entity are
/// contiguous and ordered by column. A camera basis too close to
/// singular draws nothing.
#[verifier::loop_isolation(false)]
#[verifier::rlimit(100)]
pub fn render_sprites(p: &Player, zbuf: &Vec<i64>, entities: &Vec<Entity>) -> (out: Vec<
    SpriteSlice,
>)
    requires
        p.wf(),
        zbuf@.len() == SCREEN_WIDTH,
        forall|i: int| 0 <= i < entities@.len() ==> (#[trigger] entities@[i]).wf(),
    ensures
        -DET_MIN < p.det() < DET_MIN ==> out@.len() == 0,
        forall|j: int| 0 <= j < out@.len() ==> slice_ok(*p, zbuf@, entities@, #[trigger] out@[j]),
        forall|ei: int, x: int|
            0 <= ei < entities@.len() && !(-DET_MIN < p.det() < DET_MIN) && ds_x(
                *p,
                entities@[ei],
            ) <= x < de_x(*p, entities@[ei]) && #[trigger] visible(*p, zbuf@, entities@[ei], x)
                ==> exists|j: int|
                0 <= j < out@.len() && (#[trigger] out@[j]).entity == ei && out@[j].x == x,
        forall|j1: int, j2: int|
            0 <= j1 < j2 < out@.len() ==> sq_dist(*p, entities@[(#[trigger] out@[j1]).entity as int])
                >= sq_dist(*p, entities@[(#[trigger] out@[j2]).entity as int]),
        forall|j1: int, j2: int|
            0 <= j1 < j2 < out@.len() && (#[trigger] out@[j1]).entity == (
            #[trigger] out@[j2]).entity ==> out@[j1].x < out@[j2].x,
        forall|j1: int, j2: int, j3: int|
            0 <= j1 < j2 < j3 < out@.len() && (#[trigger] out@[j1]).entity == (
            #[trigger] out@[j3]).entity ==> (#[trigger] out@[j2]).entity == out@[j1].entity,
{
    let n = entities.len();
    proof {
        assert(-0x40_0000_0000 <= p.plane_x * p.dir_y <= 0x40_0000_0000 && -0x40_0000_0000 <= p.dir_x
            * p.plane_y <= 0x40_0000_0000) by (nonlinear_arith)
            requires
                -0x4_0000 <= p.plane_x <= 0x4_0000,
                -0x4_0000 <= p.dir_y <= 0x4_0000,
                -0x4_0000 <= p.dir_x <= 0x4_0000,
                -0x4_0000 <= p.plane_y <= 0x4_0000,
        ;
    }
    let det = p.plane_x * p.dir_y - p.dir_x * p.plane_y;
    if -DET_MIN < det && det < DET_MIN {
        return Vec::new();
    }
    let mut pairs: Vec<(i64, usize)> = Vec::new();
    let mut i: usize = 0;
    while i < n
        invariant
            i <= n,
            pairs@.len() == i,
            forall|k: int|
                0 <= k < i ==> #[trigger] pairs@[k] == (
                sq_dist(*p, entities@[k]) as i64,
                k as usize,
            ),
        decreases n - i,
    {
        let e = &entities[i];
        let dx = e.pos_x - p.pos_x;
        let dy = e.pos_y - p.pos_y;
        proof {
            assert(0 <= dx * dx <= 0x100_0000_0000_0000 && 0 <= dy * dy <= 0x100_0000_0000_0000)
                by (nonlinear_arith)
                requires
                    -0x800_0000 <= dx <= 0x800_0000,
                    -0x800_0000 <= dy <= 0x800_0000,
            ;
        }
        let d = dx * dx + dy * dy;
        pairs.push((d, i));
        i = i + 1;
    }
    let sorted = sort_by_dist(pairs);
    proof {
        sorted@.to_multiset_ensures();
        pairs@.to_multiset_ensures();
        assert forall|j: int| 0 <= j < sorted@.len() implies 0 <= (#[trigger] sorted@[j]).1
            < entities@.len() && sorted@[j] == (
            sq_dist(*p, entities@[sorted@[j].1 as int]) as i64,
            sorted@[j].1,
        ) by {
            assert(sorted@.contains(sorted@[j]));
            assert(pairs@.to_multiset().count(sorted@[j]) > 0);
            assert(pairs@.contains(sorted@[j]));
            let k = choose|k: int| 0 <= k < pairs@.len() && pairs@[k] == sorted@[j];
            assert(pairs@[k] == (sq_dist(*p, entities@[k]) as i64, k as usize));
        }
        assert(pairs@.no_duplicates()) by {
            assert forall|a: int, b: int|
                0 <= a < pairs@.len() && 0 <= b < pairs@.len() && a != b implies pairs@[a]
                != pairs@[b] by {
                assert(pairs@[a].1 == a as usize && pairs@[b].1 == b as usize);
            }
        }
        pairs@.lemma_multiset_has_no_duplicates();
        sorted@.lemma_multiset_has_no_duplicates_conv();
        assert forall|s1: int, s2: int|
            0 <= s1 < s2 < sorted@.len() implies (#[trigger] sorted@[s1]).1 != (
        #[trigger] sorted@[s2]).1 by {
            if sorted@[s1].1 == sorted@[s2].1 {
                assert(sorted@[s1] == sorted@[s2]);
            }
        }
    }
    let mut out: Vec<SpriteSlice> = Vec::new();
    let mut s: usize = 0;
    while s < sorted.len()
        invariant
            s <= sorted@.len(),
            forall|j: int| 0 <= j < out@.len() ==> slice_ok(*p, zbuf@, entities@, #[trigger] out@[j]),
            forall|j: int|
                0 <= j < out@.len() ==> exists|t: int|
                    0 <= t < s && (#[trigger] out@[j]).entity == sorted@[t].1,
            forall|j: int|
                0 <= j < out@.len() && s < sorted@.len() ==> sq_dist(
                    *p,
                    entities@[(#[trigger] out@[j]).entity as int],
                ) >= sorted@[s as int].0,
            forall|j1: int, j2: int|
                0 <= j1 < j2 < out@.len() ==> sq_dist(
                    *p,
                    entities@[(#[trigger] out@[j1]).entity as int],
                ) >= sq_dist(*p, entities@[(#[trigger] out@[j2]).entity as int]),
            forall|j1: int, j2: int|
                0 <= j1 < j2 < out@.len() && (#[trigger] out@[j1]).entity == (
                #[trigger] out@[j2]).entity ==> out@[j1].x < out@[j2].x,
            forall|j1: int, j2: int, j3: int|
                0 <= j1 < j2 < j3 < out@.len() && (#[trigger] out@[j1]).entity == (
                #[trigger] out@[j3]).entity ==> (#[trigger] out@[j2]).entity == out@[j1].entity,
            forall|t: int, x: int|
                0 <= t < s && ds_x(*p, entities@[sorted@[t].1 as int]) <= x < de_x(
                    *p,
                    entities@[sorted@[t].1 as int],
                ) && #[trigger] visible(*p, zbuf@, entities@[sorted@[t].1 as int], x) ==> exists|
                    j: int,
                |
                    0 <= j < out@.len() && (#[trigger] out@[j]).entity == sorted@[t].1 && out@[j].x
                        == x,
        decreases sorted@.len() - s,
    {
        let ei = sorted[s].1;
        let mut part = project_entity(p, det, zbuf, entities, ei);
        let ghost part_s = part@;
        let ghost out_s = out@;
        out.append(&mut part);
        proof {
            let ghost dss = sq_dist(*p, entities@[ei as int]);
            assert(sorted@[s as int].0 == dss as i64);
            assert(0 <= dss <= 0x200_0000_0000_0000) by (nonlinear_arith)
                requires
                    dss == (entities@[ei as int].pos_x - p.pos_x) * (entities@[ei as int].pos_x
                        - p.pos_x) + (entities@[ei as int].pos_y - p.pos_y) * (entities@[
                        ei as int].pos_y - p.pos_y),
                    -0x800_0000 <= entities@[ei as int].pos_x - p.pos_x <= 0x800_0000,
                    -0x800_0000 <= entities@[ei as int].pos_y - p.pos_y <= 0x800_0000,
            ;
            // old slices belong to earlier, distinct entities
            assert forall|j: int| 0 <= j < out_s.len() implies (#[trigger] out_s[j]).entity
                != ei by {
                let t0 = choose|t: int| 0 <= t < s && out_s[j].entity == sorted@[t].1;
                assert(sorted@[t0].1 != sorted@[s as int].1);
            }
            assert forall|j: int| 0 <= j < out@.len() implies slice_ok(
                *p,
                zbuf@,
                entities@,
                #[trigger] out@[j],
            ) by {
                if j < out_s.len() {
                    assert(out@[j] == out_s[j]);
                } else {
                    assert(out@[j] == part_s[j - out_s.len()]);
                }
            }
            assert forall|j: int| 0 <= j < out@.len() implies exists|t: int|
                0 <= t < s + 1 && (#[trigger] out@[j]).entity == sorted@[t].1 by {
                if j < out_s.len() {
                    let t0 = choose|t: int| 0 <= t < s && out_s[j].entity == sorted@[t].1;
                    assert(0 <= t0 < s + 1 && out@[j].entity == sorted@[t0].1);
                } else {
                    assert(0 <= s < s + 1 && out@[j].entity == sorted@[s as int].1);
                }
            }
            if s + 1 < sorted@.len() {
                assert(sorted@[s as int].0 >= sorted@[s + 1].0);
                assert forall|j: int| 0 <= j < out@.len() implies sq_dist(
                    *p,
                    entities@[(#[trigger] out@[j]).entity as int],
                ) >= sorted@[s + 1].0 by {
                    if j < out_s.len() {
                        assert(out@[j] == out_s[j]);
                        assert(sq_dist(*p, entities@[out_s[j].entity as int]) >= sorted@[
                            s as int].0);
                    } else {
                        assert(out@[j].entity == ei);
                    }
                }
            }
            assert forall|j1: int, j2: int| 0 <= j1 < j2 < out@.len() implies sq_dist(
                *p,
                entities@[(#[trigger] out@[j1]).entity as int],
            ) >= sq_dist(*p, entities@[(#[trigger] out@[j2]).entity as int]) by {
                if j2 >= out_s.len() {
                    assert(out@[j2].entity == ei);
                    if j1 < out_s.len() {
                        assert(out@[j1] == out_s[j1]);
                        assert(sq_dist(*p, entities@[out_s[j1].entity as int]) >= sorted@[
                            s as int].0);
                    } else {
                        assert(out@[j1].entity == ei);
                    }
                } else {
                    assert(out@[j1] == out_s[j1] && out@[j2] == out_s[j2]);
                }
            }
            assert forall|j1: int, j2: int|
                0 <= j1 < j2 < out@.len() && (#[trigger] out@[j1]).entity == (
                #[trigger] out@[j2]).entity implies out@[j1].x < out@[j2].x by {
                if j2 >= out_s.len() && j1 < out_s.len() {
                    assert(out@[j1] == out_s[j1]);
                    assert(out@[j2].entity == ei);
                    assert(out_s[j1].entity != ei);
                } else if j2 < out_s.len() {
                    assert(out@[j1] == out_s[j1] && out@[j2] == out_s[j2]);
                } else {
                    assert(out@[j1] == part_s[j1 - out_s.len()] && out@[j2] == part_s[j2
                        - out_s.len()]);
                }
            }
            assert forall|j1: int, j2: int, j3: int|
                0 <= j1 < j2 < j3 < out@.len() && (#[trigger] out@[j1]).entity == (
                #[trigger] out@[j3]).entity implies (#[trigger] out@[j2]).entity
                == out@[j1].entity by {
                if j3 < out_s.len() {
                    assert(out@[j1] == out_s[j1] && out@[j2] == out_s[j2] && out@[j3] == out_s[j3]);
                } else if j1 < out_s.len() {
                    assert(out@[j3].entity == ei);
                    assert(out@[j1] == out_s[j1]);
                    assert(out_s[j1].entity != ei);
                } else {
                    assert(out@[j2].entity == ei && out@[j1].entity == ei);
                }
            }
            assert forall|t: int, x: int|
                0 <= t < s + 1 && ds_x(*p, entities@[sorted@[t].1 as int]) <= x < de_x(
                    *p,
                    entities@[sorted@[t].1 as int],
                ) && #[trigger] visible(*p, zbuf@, entities@[sorted@[t].1 as int], x) implies exists|
                j: int,
            |
                0 <= j < out@.len() && (#[trigger] out@[j]).entity == sorted@[t].1 && out@[j].x
                    == x by {
                if t < s {
                    let j0 = choose|j: int|
                        0 <= j < out_s.len() && (#[trigger] out_s[j]).entity == sorted@[t].1
                            && out_s[j].x == x;
                    assert(out@[j0] == out_s[j0]);
                } else {
                    assert(sorted@[t].1 == ei);
                    let j0 = choose|j: int|
                        0 <= j < part_s.len() && (#[trigger] part_s[j]).x == x;
                    assert(out@[out_s.len() + j0] == part_s[j0]);
                    assert(out@[out_s.len() + j0].entity == ei && out@[out_s.len() + j0].x == x);
                }
            }
        }
        s = s + 1;
    }
    proof {
        assert forall|ei: int, x: int|
            0 <= ei < entities@.len() && ds_x(*p, entities@[ei]) <= x < de_x(*p, entities@[ei])
                && #[trigger] visible(*p, zbuf@, entities@[ei], x) implies exists|j: int|
            0 <= j < out@.len() && (#[trigger] out@[j]).entity == ei && out@[j].x == x by {
            assert(pairs@[ei] == (sq_dist(*p, entities@[ei]) as i64, ei as usize));
            assert(pairs@.contains(pairs@[ei]));
            assert(sorted@.to_multiset().count(pairs@[ei]) > 0);
            assert(sorted@.contains(pairs@[ei]));
            let t = choose|t: int| 0 <= t < sorted@.len() && sorted@[t] == pairs@[ei];
            assert(sorted@[t].1 == ei as usize);
        }
    }
    out
}

/// Projects one entity and emits its visible column slices, ordered by
/// column: one slice for every column of the clipped span that passes
/// the occlusion rule, and none else.
#[verifier::loop_isolation(false)]
#[verifier::rlimit(100)]
fn project_entity(p: &Player, det: i64, zbuf: &Vec<i64>, entities: &Vec<Entity>, ei: usize) -> (r:
    Vec<SpriteSlice>)
    requires
        p.wf(),
        det == p.det(),
        det >= DET_MIN || det <= -DET_MIN,
        -0x80_0000_0000 <= det <= 0x80_0000_0000,
        zbuf@.len() == SCREEN_WIDTH,
        ei < entities@.len(),
        entities@[ei as int].wf(),
    ensures
        forall|j: int|
            0 <= j < r@.len() ==> slice_ok(*p, zbuf@, entities@, #[trigger] r@[j]) && r@[j].entity
                == ei,
        forall|j1: int, j2: int| 0 <= j1 < j2 < r@.len() ==> (#[trigger] r@[j1]).x < (
        #[trigger] r@[j2]).x,
        forall|x: int|
            ds_x(*p, entities@[ei as int]) <= x < de_x(*p, entities@[ei as int])
                && #[trigger] visible(*p, zbuf@, entities@[ei as int], x) ==> exists|j: int|
                0 <= j < r@.len() && (#[trigger] r@[j]).x == x,
{
    let ghost e_spec = entities@[ei as int];
    let e = &entities[ei];
    let relx = e.pos_x - p.pos_x;
    let rely = e.pos_y - p.pos_y;
    proof {
        assert(-0x2000_0000_0000 <= p.dir_y * relx <= 0x2000_0000_0000 && -0x2000_0000_0000
            <= p.dir_x * rely <= 0x2000_0000_0000 && -0x2000_0000_0000 <= p.plane_y * relx
            <= 0x2000_0000_0000 && -0x2000_0000_0000 <= p.plane_x * rely <= 0x2000_0000_0000)
            by (nonlinear_arith)
            requires
                -0x800_0000 <= relx <= 0x800_0000,
                -0x800_0000 <= rely <= 0x800_0000,
                -0x4_0000 <= p.dir_x <= 0x4_0000,
                -0x4_0000 <= p.dir_y <= 0x4_0000,
                -0x4_0000 <= p.plane_x <= 0x4_0000,
                -0x4_0000 <= p.plane_y <= 0x4_0000,
        ;
    }
    let tnx = p.dir_y * relx - p.dir_x * rely;
    let tny = p.plane_x * rely - p.plane_y * relx;
    proof {
        lemma_tdiv_denom((tnx as int) * (FP_ONE as int), det as int, DET_MIN as int);
        lemma_tdiv_denom((tny as int) * (FP_ONE as int), det as int, DET_MIN as int);
        vstd::arithmetic::div_mod::lemma_div_is_ordered(
            vstd::math::abs((tnx as int) * (FP_ONE as int)) as int,
            0x4000_0000_0000_0000,
            DET_MIN as int,
        );
        vstd::arithmetic::div_mod::lemma_div_is_ordered(
            vstd::math::abs((tny as int) * (FP_ONE as int)) as int,
            0x4000_0000_0000_0000,
            DET_MIN as int,
        );
    }
    let tx = fx_div(tnx, det);
    let ty0 = fx_div(tny, det);
    let ty = if -TY_EPS < ty0 && ty0 < TY_EPS {
        if ty0 < 0 {
            -TY_EPS
        } else {
            TY_EPS
        }
    } else {
        ty0
    };
    assert(ty == transform_y(*p, e_spec));
    assert(ty >= TY_EPS || ty <= -TY_EPS);
    proof {
        lemma_tdiv_denom((e.sprite.v_move as int) * (FP_ONE as int), ty as int, TY_EPS as int);
    }
    let mov = fx_div(e.sprite.v_move, ty);
    proof {
        lemma_tdiv_denom((tx as int) * (FP_ONE as int), ty as int, TY_EPS as int);
        vstd::arithmetic::div_mod::lemma_div_is_ordered(
            vstd::math::abs((tx as int) * (FP_ONE as int)) as int,
            0x40_0000_0000_0000,
            TY_EPS as int,
        );
    }
    let ratio = fx_div(tx, ty);
    assert(-2573485501354569 <= ratio <= 2573485501354569);
    let tt = FP_ONE + ratio;
    proof {
        assert(-1040519742409932800 <= (SCREEN_WIDTH / 2) * tt <= 1040519742409932800)
            by (nonlinear_arith)
            requires
                -2601299356024832 <= tt <= 2601299356024832,
        ;
    }
    let sxn = (SCREEN_WIDTH / 2) * tt;
    proof {
        vstd::arithmetic::div_mod::lemma_div_pos_is_pos(
            vstd::math::abs(sxn as int) as int,
            FP_ONE as int,
        );
        vstd::arithmetic::div_mod::lemma_div_is_ordered(
            vstd::math::abs(sxn as int) as int,
            1040519742409932800,
            FP_ONE as int,
        );
    }
    let sx = sxn / FP_ONE;
    assert(sx == screen_x_of(*p, e_spec));
    assert(-0x1000_0000_0000 <= sx <= 0x1000_0000_0000);
    proof {
        lemma_tdiv_denom((SCREEN_HEIGHT as int) * (FP_ONE as int), ty as int, TY_EPS as int);
    }
    let q = fx_div(SCREEN_HEIGHT, ty);
    proof {
        crate::fixed::lemma_fxmul_bound(q as int, e.sprite.v_scale as int, 0x55_e000, DIR_BOUND as int);
        crate::fixed::lemma_fxmul_bound(q as int, e.sprite.u_scale as int, 0x55_e000, DIR_BOUND as int);
    }
    let h0 = fx_mul(q, e.sprite.v_scale);
    let h = if h0 < 0 {
        -h0
    } else {
        h0
    };
    let w = fx_mul(q, e.sprite.u_scale);
    assert(h == height_of(*p, e_spec));
    assert(w == width_of(*p, e_spec));
    let a = -w / 2 + sx;
    let dsx = if a < 0 {
        0
    } else {
        a
    };
    let b = w / 2 + sx;
    let dex = if b > SCREEN_WIDTH {
        SCREEN_WIDTH
    } else {
        b
    };
    assert(dsx == ds_x(*p, e_spec));
    assert(dex == de_x(*p, e_spec));
    let by_ = h / 2 + SCREEN_HEIGHT / 2 + mov;
    let dey = if by_ > SCREEN_HEIGHT - 1 {
        SCREEN_HEIGHT - 1
    } else {
        by_
    };
    assert(dey == de_y(*p, e_spec));
    let sector = view_octant(-relx, -rely, e.dir_x, e.dir_y);
    assert(sector == sector_of(*p, e_spec));
    let dest_y = SCREEN_HEIGHT - (dey + mov);
    let mut r: Vec<SpriteSlice> = Vec::new();
    let mut x = dsx;
    while x < dex
        invariant
            dsx <= x,
            x <= if dsx < dex {
                dex
            } else {
                dsx
            },
            forall|j: int|
                0 <= j < r@.len() ==> slice_ok(*p, zbuf@, entities@, #[trigger] r@[j]) && r@[
                j].entity == ei && dsx <= r@[j].x < x,
            forall|j1: int, j2: int| 0 <= j1 < j2 < r@.len() ==> (#[trigger] r@[j1]).x < (
            #[trigger] r@[j2]).x,
            forall|xx: int|
                dsx <= xx < x && #[trigger] visible(*p, zbuf@, e_spec, xx) ==> exists|j: int|
                    0 <= j < r@.len() && (#[trigger] r@[j]).x == xx,
        decreases dex - x,
    {
        proof {
            assert(tdiv(-(w as int), 2) == -tdiv(w as int, 2));
            assert(w >= 2);
        }
        let ghost r_h = r@;
        if ty > 0 && 0 <= x && x < SCREEN_WIDTH && ty < zbuf[x as usize] {
            let rect = e.get_frame_rect(x, sx, w, sector);
            let slice = SpriteSlice { entity: ei, x, rect, dest_y, dest_h: h };
            assert(slice == slice_spec(*p, entities@, ei as int, x as int));
            r.push(slice);
        }
        proof {
            assert forall|xx: int|
                dsx <= xx < x + 1 && #[trigger] visible(*p, zbuf@, e_spec, xx) implies exists|
                j: int,
            |
                0 <= j < r@.len() && (#[trigger] r@[j]).x == xx by {
                if xx == x {
                    assert(r@[r@.len() - 1].x == x);
                } else {
                    let j0 = choose|j: int| 0 <= j < r_h.len() && (#[trigger] r_h[j]).x == xx;
                    assert(r@[j0] == r_h[j0]);
                }
            }
        }
        x = x + 1;
    }
    r
}

} // verus!
