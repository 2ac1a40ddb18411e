use raycaster::animation::{Animation, AnimationFrame, AnimationManager};
use raycaster::camera::{move_player, rotate_vec, InputState, Player};
use raycaster::data::WorldMap;
use raycaster::fixed::FP_ONE;
use raycaster::game::Game;
use raycaster::sprites::{
    view_octant, Entity, EntityManager, EntityTmpl, Sprite, SpriteManager,
};

fn enclosed_map(w: u32, h: u32) -> WorldMap {
    let mut wall: Vec<Vec<i32>> = Vec::new();
    let zero = vec![vec![0; w as usize]; h as usize];
    for y in 0..h {
        let mut wrow = Vec::new();
        for x in 0..w {
            let boundary = x == 0 || y == 0 || x == w - 1 || y == h - 1;
            wrow.push(if boundary { 1 } else { 0 });
        }
        wall.push(wrow);
    }
    WorldMap::from_grids(w, h, &wall, &zero, &zero, Vec::new()).unwrap()
}

fn test_sprite(name: &str) -> Sprite {
    Sprite {
        name: String::from(name),
        tex_id: String::from(name),
        width: 256,
        height: 70,
        u_scale: FP_ONE,
        v_scale: FP_ONE,
        u_move: 0,
        v_move: 0,
        rotating: true,
    }
}

fn half_second_frame(x: u32, y: u32) -> AnimationFrame {
    AnimationFrame { x_pos: x, y_pos: y, duration: FP_ONE / 2, time_remaining: FP_ONE / 2 }
}

fn looping_animation() -> Animation {
    Animation::from_frames(
        String::from("walk"),
        true,
        false,
        vec![half_second_frame(0, 0), half_second_frame(1, 0)],
    )
    .unwrap()
}

fn entity_with_animation(anim: Option<Animation>) -> Entity {
    Entity {
        id: 0,
        name: String::from("guard"),
        sprite: test_sprite("guard"),
        pos_x: 0,
        pos_y: 0,
        dir_x: FP_ONE,
        dir_y: 0,
        collidable: false,
        collision_radius: 0,
        animation: anim,
        dead: false,
    }
}

// Animation frame cycling: two half-second frames with loop on, ticked
// by 0.6 s and then 0.5 s, wrap through frame 1 back to frame 0.
#[test]
fn animation_cycles_through_loop() {
    let mut e = entity_with_animation(Some(looping_animation()));
    e.tick_animation(39322);  // 0.6 s
    assert_eq!(e.animation.as_ref().unwrap().curr_frame, 1);
    e.tick_animation(FP_ONE / 2);  // 0.5 s
    assert_eq!(e.animation.as_ref().unwrap().curr_frame, 0);
    // the expired frames got their nominal duration back
    assert_eq!(e.animation.as_ref().unwrap().frames[0].time_remaining, FP_ONE / 2);
    assert_eq!(e.animation.as_ref().unwrap().frames[1].time_remaining, FP_ONE / 2);
}

#[test]
fn animation_partial_tick_keeps_frame() {
    let mut e = entity_with_animation(Some(looping_animation()));
    e.tick_animation(FP_ONE / 4);
    let a = e.animation.as_ref().unwrap();
    assert_eq!(a.curr_frame, 0);
    assert_eq!(a.frames[0].time_remaining, FP_ONE / 4);
}

#[test]
fn one_shot_animation_clears_itself() {
    let one_shot = Animation::from_frames(
        String::from("puff"),
        false,
        false,
        vec![half_second_frame(0, 0)],
    )
    .unwrap();
    let mut e = entity_with_animation(Some(one_shot));
    e.tick_animation(FP_ONE);
    assert!(e.animation.is_none());
}

#[test]
fn permanent_animation_holds_last_frame() {
    let perm = Animation::from_frames(
        String::from("die"),
        false,
        true,
        vec![half_second_frame(0, 0), half_second_frame(1, 0)],
    )
    .unwrap();
    let mut e = entity_with_animation(Some(perm));
    e.tick_animation(FP_ONE);
    e.tick_animation(FP_ONE);
    e.tick_animation(FP_ONE);
    assert_eq!(e.animation.as_ref().unwrap().curr_frame, 1);
}

#[test]
fn kill_and_revive() {
    let mut am = AnimationManager::new();
    am.add(
        Animation::from_frames(
            String::from("die"),
            false,
            true,
            vec![half_second_frame(2, 3)],
        )
        .unwrap(),
    );
    let mut e = entity_with_animation(None);
    e.collidable = true;
    e.kill(&am);
    assert!(e.dead);
    assert!(!e.collidable);
    assert_eq!(e.animation.as_ref().unwrap().name, "die");
    e.revive();
    assert!(!e.dead);
    assert!(e.animation.is_none());
}

// Rotation preserves orthogonality: after a sequence of left/right
// rotations by the exact matrix, direction and camera plane stay
// perpendicular up to fixed-point rounding, and the plane's magnitude
// is unchanged within the same tolerance.
#[test]
fn rotation_keeps_direction_and_plane_perpendicular() {
    let mut dir = (FP_ONE, 0i64);
    let mut plane = (0i64, 43253i64);
    let angle = 0.37f64;
    let c = (angle.cos() * 65536.0) as i64;
    let s = (angle.sin() * 65536.0) as i64;
    let mag0 = plane.0 * plane.0 + plane.1 * plane.1;
    for turn in 0..24 {
        let (cc, ss) = if turn % 3 == 0 { (c, -s) } else { (c, s) };
        dir = rotate_vec(dir.0, dir.1, cc, ss);
        plane = rotate_vec(plane.0, plane.1, cc, ss);
        let dot = dir.0 * plane.0 + dir.1 * plane.1;
        // at scale 2^32, a real-value tolerance of ~0.004 is ~1.6e7
        assert!(dot.abs() < 16_000_000, "dot drifted to {dot}");
        let mag = plane.0 * plane.0 + plane.1 * plane.1;
        assert!((mag - mag0).abs() < mag0 / 100, "magnitude drifted to {mag}");
    }
}

#[test]
fn forward_acceleration_drag_and_walk() {
    let m = enclosed_map(4, 4);
    let mut p = Player {
        pos_x: 98304,
        pos_y: 98304,
        dir_x: -FP_ONE,
        dir_y: 0,
        plane_x: 0,
        plane_y: 43253,
        vel_x: 0,
        vel_y: 0,
    };
    let input = InputState { up: true, down: false, left: false, right: false };
    let ents: Vec<Entity> = Vec::new();
    move_player(&mut p, input, 1049, 65536, 0, &ents, &m);
    // acceleration 0.1 * 0.016 s along the unit -x direction gives
    // velocity -104, drag takes back its 0.048 share (floored), and
    // the walk applies the result
    assert_eq!(p.vel_x, -99);
    assert_eq!(p.vel_y, 0);
    assert_eq!(p.pos_x, 98304 - 99);
    assert_eq!(p.pos_y, 98304);
}

#[test]
fn wall_slide_zeroes_blocked_axis() {
    let m = enclosed_map(4, 4);
    let mut p = Player {
        pos_x: 72090,  // x = 1.1: the probe 0.2 ahead crosses into the x = 0 wall
        pos_y: 98304,
        dir_x: -FP_ONE,
        dir_y: 0,
        plane_x: 0,
        plane_y: 43253,
        vel_x: -30000,
        vel_y: 0,
    };
    let input = InputState { up: false, down: false, left: false, right: false };
    let ents: Vec<Entity> = Vec::new();
    move_player(&mut p, input, 1049, 65536, 0, &ents, &m);
    // the x cell under the probe changed, so the x velocity is zeroed
    // and the player stays put instead of entering the wall
    assert_eq!(p.vel_x, 0);
    assert_eq!(p.pos_x, 72090);
}

#[test]
fn entity_collision_reflects_velocity() {
    let m = enclosed_map(4, 4);
    let mut p = Player {
        pos_x: 98304,
        pos_y: 98304,
        dir_x: -FP_ONE,
        dir_y: 0,
        plane_x: 0,
        plane_y: 43253,
        vel_x: 2000,
        vel_y: 0,
    };
    let mut e = entity_with_animation(None);
    e.pos_x = 98304 + 10000;
    e.pos_y = 98304;
    e.collidable = true;
    e.collision_radius = 20000;
    let ents = vec![e];
    let input = InputState { up: false, down: false, left: false, right: false };
    move_player(&mut p, input, 0, 65536, 0, &ents, &m);
    // frame time 0 applies no drag; the overlapped entity reflects
    // the velocity, and the probe one radius ahead stays in open cells
    assert_eq!(p.vel_x, -2000);
    assert_eq!(p.pos_x, 98304 - 2000);
}

#[test]
fn view_octants_partition_directions() {
    // the signed angle between the facing direction and the given
    // vector: facing +x subtracts nothing, so the sector is the octant
    // of the vector itself
    let e1 = (FP_ONE, 0);
    assert_eq!(view_octant(FP_ONE, 0, e1.0, e1.1), 4);
    assert_eq!(view_octant(0, FP_ONE, e1.0, e1.1), 6);
    assert_eq!(view_octant(-FP_ONE, 0, e1.0, e1.1), 0);
    assert_eq!(view_octant(0, -FP_ONE, e1.0, e1.1), 2);
    assert_eq!(view_octant(FP_ONE, FP_ONE, e1.0, e1.1), 5);
    // facing +y measures every angle a quarter turn back
    let e2 = (0, FP_ONE);
    assert_eq!(view_octant(FP_ONE, 0, e2.0, e2.1), 2);
    assert_eq!(view_octant(0, FP_ONE, e2.0, e2.1), 4);
}

#[test]
fn frame_rect_selects_sector_and_animation_cell() {
    let mut e = entity_with_animation(Some(looping_animation()));
    e.tick_animation(39322);  // now on frame 1 (cell x = 1)
    // rotating 256x70 sheet: angle width 256/8 = 32, row height 70/7 = 10
    let r = e.get_frame_rect(100, 100, 64, 3);
    // sector 3 offsets 3 * 32; animation cell x = 1 offsets one angle
    // width; the slice at the span's center samples the strip middle
    assert_eq!(r.height, 10);
    assert_eq!(r.y, 0);
    assert_eq!(r.x, 3 * 32 + 32 + (100 - (100 - 32)) * 32 / 64);
    // a dead entity always shows the first angle
    e.dead = true;
    let r2 = e.get_frame_rect(100, 100, 64, 3);
    assert_eq!(r2.x, 32 + 16);
}

#[test]
fn managers_look_up_by_name() {
    let mut sm = SpriteManager::new();
    sm.add(test_sprite("guard"));
    sm.add(test_sprite("barrel"));
    assert!(sm.get_sprite("guard").is_some());
    assert_eq!(sm.get_sprite("barrel").unwrap().name, "barrel");
    assert!(sm.get_sprite("ghost").is_none());

    let mut am = AnimationManager::new();
    am.add(looping_animation());
    assert_eq!(am.get_animation("walk").unwrap().name, "walk");
    assert!(am.get_animation("run").is_none());

    let mut em = EntityManager::new();
    em.add(EntityTmpl {
        name: String::from("guard"),
        sprite_name: String::from("guard"),
        collidable: true,
        collision_radius: 13107,
    });
    let e = em.create_entity("guard", &sm).unwrap();
    assert_eq!(e.id, 0);
    assert_eq!(e.name, "guard");
    assert!(e.collidable);
    assert_eq!(e.collision_radius, 13107);
    assert!(!e.dead);
    let e2 = em.create_entity("guard", &sm).unwrap();
    assert_eq!(e2.id, 1);
    assert!(em.create_entity("dragon", &sm).is_none());
}

#[test]
fn game_builds_entities_from_spawns() {
    let mut wall: Vec<Vec<i32>> = Vec::new();
    let zero = vec![vec![0; 4]; 4];
    for y in 0..4u32 {
        let mut row = Vec::new();
        for x in 0..4u32 {
            let boundary = x == 0 || y == 0 || x == 3 || y == 3;
            row.push(if boundary { 1 } else { 0 });
        }
        wall.push(row);
    }
    let spawns = vec![
        raycaster::data::EntitySpawn {
            name: String::from("guard"),
            x: 98304,
            y: 98304,
            dir_x: FP_ONE,
            dir_y: 0,
            animation: String::from("walk"),
            collidable: true,
            collision_radius: 13107,
        },
        raycaster::data::EntitySpawn {
            name: String::from("unknown"),
            x: 98304,
            y: 98304,
            dir_x: 0,
            dir_y: 0,
            animation: String::new(),
            collidable: false,
            collision_radius: 0,
        },
    ];
    let map = WorldMap::from_grids(4, 4, &wall, &zero, &zero, spawns).unwrap();
    let mut sm = SpriteManager::new();
    sm.add(test_sprite("guard"));
    let mut am = AnimationManager::new();
    am.add(looping_animation());
    let g = Game::new(map, &sm, &am);
    // the unknown spawn is skipped, never substituted
    assert_eq!(g.entities.len(), 1);
    let e = &g.entities[0];
    assert_eq!(e.name, "guard");
    assert_eq!(e.pos_x, 98304);
    assert!(e.collidable);
    assert_eq!(e.animation.as_ref().unwrap().name, "walk");
    assert_eq!(g.player.pos_x, 425984);
    assert_eq!(g.player.dir_x, -FP_ONE);
    assert_eq!(g.player.plane_y, 43253);
}
