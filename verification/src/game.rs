//! The game state: camera, world grid, and live entities, with the
//! per-frame draw pass (floor, walls, sprites — in that order, so the
//! sprite pass reads the depth buffer the wall pass wrote) and the
//! per-frame input step.

use vstd::prelude::*;

use crate::animation::{same_clip, AnimationManager};
use crate::camera::{move_player, move_player_spec, InputState, Player, MAX_FRAME_TIME};
use crate::data::WorldMap;
use crate::fixed::{fx_floor_spec, FP_ONE};
use crate::floor::{fb_expected, pix, render_floor, tex_ids_ok};
use crate::sprite_render::{
    de_x, ds_x, render_sprites, slice_ok, sq_dist, visible, SpriteSlice, DET_MIN,
};
use crate::sprites::{same_sprite, Entity, SpriteManager};
use crate::textures::TextureManager;
use crate::walls::{render_walls, wall_slice_spec, zbuf_spec, WallSlice};
use crate::{SCREEN_HEIGHT, SCREEN_WIDTH};

verus! {

/// Everything one frame draw produces: the floor/ceiling framebuffer,
/// the per-column depth buffer and wall slices, and the sprite blits in
/// painter's order.
pub struct FrameOutput {
    pub framebuffer: Vec<u8>,
    pub z_buffer: Vec<i64>,
    pub walls: Vec<Option<WallSlice>>,
    pub sprites: Vec<SpriteSlice>,
}

/// A spawn descriptor's numbers are inside the engine's bounds.
pub open spec fn spawn_ok(s: crate::data::EntitySpawn) -> bool {
    &&& -crate::POS_BOUND <= s.x <= crate::POS_BOUND
    &&& -crate::POS_BOUND <= s.y <= crate::POS_BOUND
    &&& -crate::DIR_BOUND <= s.dir_x <= crate::DIR_BOUND
    &&& -crate::DIR_BOUND <= s.dir_y <= crate::DIR_BOUND
    &&& 0 <= s.collision_radius <= crate::DIR_BOUND
}

/// The entity created for one spawn: the named sprite template, the
/// spawn's pose and collision data, alive, and the spawn's starting
/// animation clip if the manager has it.
pub open spec fn entity_matches(
    e: Entity,
    s: crate::data::EntitySpawn,
    spr: crate::sprites::Sprite,
    am: AnimationManager,
    id: int,
) -> bool {
    &&& same_sprite(e.sprite, spr)
    &&& e.id == id
    &&& e.name@ == s.name@
    &&& e.pos_x == s.x && e.pos_y == s.y
    &&& e.dir_x == s.dir_x && e.dir_y == s.dir_y
    &&& e.collidable == s.collidable
    &&& e.collision_radius == s.collision_radius
    &&& !e.dead
    &&& match am.find_spec(s.animation@) {
        None => e.animation is None,
        Some(k) => e.animation matches Some(a) && same_clip(a, am.animations@[k]),
    }
}

/// `out` holds exactly the entities of the spawns whose sprite exists
/// and whose numbers are in bounds, in spawn order, each numbered by
/// its spawn position starting at `base`.
pub open spec fn entities_match(
    spawns: Seq<crate::data::EntitySpawn>,
    sm: SpriteManager,
    am: AnimationManager,
    out: Seq<Entity>,
    base: int,
) -> bool
    decreases spawns.len(),
{
    if spawns.len() == 0 {
        out.len() == 0
    } else {
        let s = spawns[0];
        match sm.find_spec(s.name@) {
            None => entities_match(spawns.drop_first(), sm, am, out, base + 1),
            Some(i) => {
                if spawn_ok(s) {
                    out.len() > 0 && entity_matches(out[0], s, sm.sprites@[i], am, base)
                        && entities_match(spawns.drop_first(), sm, am, out.drop_first(), base + 1)
                } else {
                    entities_match(spawns.drop_first(), sm, am, out, base + 1)
                }
            },
        }
    }
}

/// The starting camera pose: position (6.5, 3.5), facing along negative
/// x, camera plane of magnitude 0.66, at rest.
pub open spec fn initial_player() -> Player {
    Player {
        pos_x: (13 * FP_ONE / 2) as i64,
        pos_y: (7 * FP_ONE / 2) as i64,
        dir_x: (-FP_ONE) as i64,
        dir_y: 0,
        plane_x: 0,
        plane_y: 43253,
        vel_x: 0,
        vel_y: 0,
    }
}

/// Every sprite template in the store is well-formed.
pub open spec fn sprites_wf(sm: SpriteManager) -> bool {
    forall|i: int| 0 <= i < sm.sprites@.len() ==> (#[trigger] sm.sprites@[i]).wf()
}

/// Every animation clip in the store is well-formed.
pub open spec fn animations_wf(am: AnimationManager) -> bool {
    forall|i: int| 0 <= i < am.animations@.len() ==> (#[trigger] am.animations@[i]).wf()
}

pub struct Game {
    pub player: Player,
    pub world_map: WorldMap,
    pub entities: Vec<Entity>,
}

impl Game {
    /// Bounds and invariants under which a frame can be drawn and the
    /// player moved.
    pub open spec fn wf(&self) -> bool {
        &&& self.world_map.wf()
        &&& self.world_map.enclosed()
        &&& self.player.wf()
        &&& forall|i: int| 0 <= i < self.entities@.len() ==> (#[trigger] self.entities@[i]).wf()
    }

    /// The camera stands strictly inside the grid's interior cells, as
    /// the wall caster needs.
    pub open spec fn player_interior(&self) -> bool {
        &&& 1 <= fx_floor_spec(self.player.pos_x as int) <= self.world_map.width - 2
        &&& 1 <= fx_floor_spec(self.player.pos_y as int) <= self.world_map.height - 2
    }

    /// Builds the starting state: the initial camera pose and one
    /// entity per usable spawn descriptor of the map (a spawn whose
    /// sprite is unknown or whose numbers are out of bounds is skipped,
    /// never given a substitute).
    #[verifier::loop_isolation(false)]
    pub fn new(map: WorldMap, sprites: &SpriteManager, animations: &AnimationManager) -> (g: Game)
        requires
            sprites_wf(*sprites),
            animations_wf(*animations),
            map.entities@.len() <= u32::MAX,
        ensures
            g.player == initial_player(),
            g.world_map == map,
            entities_match(
                g.world_map.entities@,
                *sprites,
                *animations,
                g.entities@,
                0,
            ),
            g.player.wf(),
            forall|i: int| 0 <= i < g.entities@.len() ==> (#[trigger] g.entities@[i]).wf(),
    {
        let player = Player {
            pos_x: 13 * FP_ONE / 2,
            pos_y: 7 * FP_ONE / 2,
            dir_x: -FP_ONE,
            dir_y: 0,
            plane_x: 0,
            plane_y: 43253,
            vel_x: 0,
            vel_y: 0,
        };
        let mut entities: Vec<Entity> = Vec::new();
        let n = map.entities.len();
        let mut i: usize = n;
        while i > 0
            invariant
                i <= n,
                n == map.entities@.len(),
                sprites_wf(*sprites),
                animations_wf(*animations),
                entities_match(
                    map.entities@.skip(i as int),
                    *sprites,
                    *animations,
                    entities@,
                    i as int,
                ),
                forall|k: int| 0 <= k < entities@.len() ==> (#[trigger] entities@[k]).wf(),
            decreases i,
        {
            i = i - 1;
            let s = &map.entities[i];
            let ghost pre = entities@;
            proof {
                assert(map.entities@.skip(i as int)[0] == map.entities@[i as int]);
            }
            match sprites.get_sprite(s.name.as_str()) {
                None => {},
                Some(spr) => {
                    let ok = -crate::POS_BOUND <= s.x && s.x <= crate::POS_BOUND
                        && -crate::POS_BOUND <= s.y && s.y <= crate::POS_BOUND
                        && -crate::DIR_BOUND <= s.dir_x && s.dir_x <= crate::DIR_BOUND
                        && -crate::DIR_BOUND <= s.dir_y && s.dir_y <= crate::DIR_BOUND && 0
                        <= s.collision_radius && s.collision_radius <= crate::DIR_BOUND;
                    if ok {
                        let anim = animations.get_animation(s.animation.as_str());
                        let e = Entity {
                            id: i as u32,
                            name: s.name.clone(),
                            sprite: spr.instance(),
                            pos_x: s.x,
                            pos_y: s.y,
                            dir_x: s.dir_x,
                            dir_y: s.dir_y,
                            collidable: s.collidable,
                            collision_radius: s.collision_radius,
                            animation: anim,
                            dead: false,
                        };
                        entities.insert(0, e);
                        proof {
                            assert(entities@.drop_first() =~= pre);
                            assert(entities@[0] == e);
                            crate::sprites::lemma_find_sprite_range(sprites.sprites@, s.name@);
                            let i0 = sprites.find_spec(s.name@)->Some_0;
                            assert(sprites.sprites@[i0].wf());
                            assert(e.sprite.wf());
                            crate::animation::lemma_find_by_name_range(
                                animations.animations@,
                                s.animation@,
                            );
                            if e.animation is Some {
                                let k0 = animations.find_spec(s.animation@)->Some_0;
                                assert(animations.animations@[k0].wf());
                                let a = e.animation->Some_0;
                                assert(a.wf());
                            }
                            assert(e.wf());
                        }
                    }
                },
            }
            proof {
                assert(map.entities@.skip(i as int).drop_first() =~= map.entities@.skip(
                    i as int + 1,
                ));
            }
        }
        proof {
            assert(map.entities@.skip(0) =~= map.entities@);
        }
        Game { player, world_map: map, entities }
    }

    /// Draws one frame: the floor/ceiling framebuffer, then the wall
    /// pass filling the depth buffer, then the sprite pass reading it.
    pub fn draw(&self, tex: &TextureManager) -> (out: FrameOutput)
        requires
            self.wf(),
            self.player_interior(),
            tex.wf(),
            tex_ids_ok(self.world_map, tex.raw_textures@.len() as int),
        ensures
            out.framebuffer@.len() == SCREEN_WIDTH * SCREEN_HEIGHT * 4,
            forall|row: int, col: int, k: int|
                0 <= row < SCREEN_HEIGHT && 0 <= col < SCREEN_WIDTH && 0 <= k < 4
                    ==> #[trigger] pix(out.framebuffer@, col, row, k) == fb_expected(
                    self.world_map,
                    self.player,
                    *tex,
                    row,
                    col,
                    k,
                ),
            out.z_buffer@.len() == SCREEN_WIDTH,
            out.walls@.len() == SCREEN_WIDTH,
            forall|i: int|
                0 <= i < SCREEN_WIDTH ==> out.z_buffer@[i] == zbuf_spec(
                    self.world_map,
                    self.player,
                    i,
                ),
            forall|i: int|
                0 <= i < SCREEN_WIDTH ==> out.walls@[i] == wall_slice_spec(
                    self.world_map,
                    self.player,
                    i,
                ),
            -DET_MIN < self.player.det() < DET_MIN ==> out.sprites@.len() == 0,
            forall|j: int|
                0 <= j < out.sprites@.len() ==> slice_ok(
                    self.player,
                    out.z_buffer@,
                    self.entities@,
                    #[trigger] out.sprites@[j],
                ),
            forall|ei: int, x: int|
                0 <= ei < self.entities@.len() && !(-DET_MIN < self.player.det() < DET_MIN) && ds_x(
                    self.player,
                    self.entities@[ei],
                ) <= x < de_x(self.player, self.entities@[ei]) && #[trigger] visible(
                    self.player,
                    out.z_buffer@,
                    self.entities@[ei],
                    x,
                ) ==> exists|j: int|
                    0 <= j < out.sprites@.len() && (#[trigger] out.sprites@[j]).entity == ei
                        && out.sprites@[j].x == x,
            forall|j1: int, j2: int|
                0 <= j1 < j2 < out.sprites@.len() ==> sq_dist(
                    self.player,
                    self.entities@[(#[trigger] out.sprites@[j1]).entity as int],
                ) >= sq_dist(self.player, self.entities@[(#[trigger] out.sprites@[j2]).entity as int]),
    {
        let framebuffer = render_floor(&self.world_map, &self.player, tex);
        let (z_buffer, walls) = render_walls(&self.world_map, &self.player);
        let sprites = render_sprites(&self.player, &z_buffer, &self.entities);
        let ghost zb = z_buffer@;
        let ghost sp = sprites@;
        let out = FrameOutput { framebuffer, z_buffer, walls, sprites };
        proof {
            assert(out.z_buffer@ == zb);
            assert(out.sprites@ == sp);
        }
        out
    }

    /// The per-frame input step; see `camera::move_player`.
    pub fn move_player(
        &mut self,
        input: InputState,
        frame_time: i64,
        rot_cos: i64,
        rot_sin: i64,
    )
        requires
            old(self).wf(),
            0 <= frame_time <= MAX_FRAME_TIME,
            -FP_ONE <= rot_cos <= FP_ONE,
            -FP_ONE <= rot_sin <= FP_ONE,
        ensures
            final(self).player == move_player_spec(
                old(self).player,
                input,
                frame_time as int,
                rot_cos as int,
                rot_sin as int,
                old(self).entities@,
                old(self).world_map,
            ),
            final(self).player.wf(),
            final(self).world_map == old(self).world_map,
            final(self).entities == old(self).entities,
    {
        let mut p = self.player;
        move_player(
            &mut p,
            input,
            frame_time,
            rot_cos,
            rot_sin,
            &self.entities,
            &self.world_map,
        );
        self.player = p;
    }
}

} // verus!
