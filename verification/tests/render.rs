use raycaster::camera::Player;
use raycaster::data::WorldMap;
use raycaster::fixed::FP_ONE;
use raycaster::floor::render_floor;
use raycaster::sprite_render::render_sprites;
use raycaster::sprites::{Entity, Sprite};
use raycaster::textures::TextureManager;
use raycaster::{SCREEN_HEIGHT, SCREEN_WIDTH};

fn enclosed_map(w: u32, h: u32, floor_id: i32, ceil_id: i32) -> WorldMap {
    let mut wall: Vec<Vec<i32>> = Vec::new();
    let mut floor: Vec<Vec<i32>> = Vec::new();
    let mut ceil: Vec<Vec<i32>> = Vec::new();
    for y in 0..h {
        let mut wrow = Vec::new();
        for x in 0..w {
            let boundary = x == 0 || y == 0 || x == w - 1 || y == h - 1;
            wrow.push(if boundary { 1 } else { 0 });
        }
        wall.push(wrow);
        floor.push(vec![floor_id; w as usize]);
        ceil.push(vec![ceil_id; w as usize]);
    }
    WorldMap::from_grids(w, h, &wall, &floor, &ceil, Vec::new()).unwrap()
}

fn player_at(x: i64, y: i64, dir_x: i64, dir_y: i64, plane_x: i64, plane_y: i64) -> Player {
    Player { pos_x: x, pos_y: y, dir_x, dir_y, plane_x, plane_y, vel_x: 0, vel_y: 0 }
}

fn uniform_textures(byte: u8) -> TextureManager {
    let mut tm = TextureManager::new();
    assert!(tm.add_texture(vec![byte; 16384]));
    tm
}

fn test_sprite(u_scale: i64, v_scale: i64) -> Sprite {
    Sprite {
        name: String::from("crate_prop"),
        tex_id: String::from("crate_prop"),
        width: 64,
        height: 64,
        u_scale,
        v_scale,
        u_move: 0,
        v_move: 0,
        rotating: false,
    }
}

fn entity_at(x: i64, y: i64) -> Entity {
    Entity {
        id: 0,
        name: String::from("crate_prop"),
        sprite: test_sprite(FP_ONE, FP_ONE),
        pos_x: x,
        pos_y: y,
        dir_x: FP_ONE,
        dir_y: 0,
        collidable: false,
        collision_radius: 0,
        animation: None,
        dead: false,
    }
}

#[test]
fn floor_pass_fills_rows_below_horizon() {
    let m = enclosed_map(4, 4, 1, 0);
    let p = player_at(98304, 98304, FP_ONE, 0, 0, 43253);
    let tm = uniform_textures(7);
    let fb = render_floor(&m, &p, &tm);
    assert_eq!(fb.len(), (SCREEN_WIDTH * SCREEN_HEIGHT * 4) as usize);
    let sw = SCREEN_WIDTH as usize;
    // every floor cell names texture 1 (all bytes 7), so every pixel
    // below the horizon row shows it
    for (x, y) in [(0usize, 301usize), (399, 450), (799, 599)] {
        for k in 0..4 {
            assert_eq!(fb[(y * sw + x) * 4 + k], 7);
        }
    }
    // the ceiling id 0 draws nothing: rows above the horizon keep the
    // background, as do row 0 and the horizon row itself
    for (x, y) in [(0usize, 0usize), (12, 1), (399, 299), (399, 300), (799, 150)] {
        for k in 0..4 {
            assert_eq!(fb[(y * sw + x) * 4 + k], 128);
        }
    }
}

#[test]
fn ceiling_mirrors_floor_rows() {
    let m = enclosed_map(4, 4, 0, 1);
    let p = player_at(98304, 98304, FP_ONE, 0, 0, 43253);
    let tm = uniform_textures(9);
    let fb = render_floor(&m, &p, &tm);
    let sw = SCREEN_WIDTH as usize;
    for (x, y) in [(0usize, 1usize), (399, 299), (700, 42)] {
        for k in 0..4 {
            assert_eq!(fb[(y * sw + x) * 4 + k], 9);
        }
    }
    for (x, y) in [(0usize, 0usize), (399, 300), (399, 599)] {
        for k in 0..4 {
            assert_eq!(fb[(y * sw + x) * 4 + k], 128);
        }
    }
}

// Depth buffer / occlusion: a sprite two units ahead of the camera is
// drawn in no column when the walls there are nearer, and in its whole
// span when they are farther.
#[test]
fn sprite_occlusion_against_depth_buffer() {
    // camera at (3.5, 1.5) facing -x with the standard 0.66 plane;
    // entity at (1.5, 1.5): directly ahead, forward depth exactly 2
    let p = player_at(229376, 98304, -FP_ONE, 0, 0, 43253);
    let ents = vec![entity_at(98304, 98304)];

    // walls nearer than the sprite in every column: occluded
    let near_walls = vec![FP_ONE; SCREEN_WIDTH as usize];
    let out = render_sprites(&p, &near_walls, &ents);
    assert!(out.is_empty());

    // walls farther than the sprite: its whole span is drawn
    let far_walls = vec![4 * FP_ONE; SCREEN_WIDTH as usize];
    let out = render_sprites(&p, &far_walls, &ents);
    assert!(!out.is_empty());
    // depth 2: screen height 600/2 = 300 pixels tall and wide,
    // centered on column 400: columns 250..550
    assert_eq!(out.len(), 300);
    assert_eq!(out[0].x, 250);
    assert_eq!(out[299].x, 549);
    for (i, s) in out.iter().enumerate() {
        assert_eq!(s.entity, 0);
        assert_eq!(s.x, 250 + i as i64);
        assert_eq!(s.dest_h, 300);
        assert_eq!(s.rect.height, 64);
    }
}

#[test]
fn sprite_span_includes_first_and_last_columns() {
    // a billboard four screens wide covers the whole clipped span
    // [0, screenWidth): the edge columns 0 and 799 are drawn too
    let p = player_at(229376, 98304, -FP_ONE, 0, 0, 43253);
    let mut e = entity_at(98304, 98304);
    e.sprite.u_scale = 4 * FP_ONE;
    let ents = vec![e];
    let far_walls = vec![4 * FP_ONE; SCREEN_WIDTH as usize];
    let out = render_sprites(&p, &far_walls, &ents);
    assert_eq!(out.len(), SCREEN_WIDTH as usize);
    assert_eq!(out[0].x, 0);
    assert_eq!(out[SCREEN_WIDTH as usize - 1].x, SCREEN_WIDTH - 1);
}

#[test]
fn sprites_draw_farthest_first() {
    let p = player_at(229376, 98304, -FP_ONE, 0, 0, 43253);
    let near = entity_at(98304 + FP_ONE, 98304);
    let far = entity_at(98304, 98304 + FP_ONE / 4);
    let ents = vec![near, far];
    let walls = vec![8 * FP_ONE; SCREEN_WIDTH as usize];
    let out = render_sprites(&p, &walls, &ents);
    assert!(!out.is_empty());
    // entity 1 is farther, so all its slices come before entity 0's
    let first_near = out.iter().position(|s| s.entity == 0).unwrap();
    let last_far = out.iter().rposition(|s| s.entity == 1).unwrap();
    assert!(last_far < first_near);
}

#[test]
fn sprite_behind_camera_not_drawn() {
    let p = player_at(229376, 98304, -FP_ONE, 0, 0, 43253);
    // entity behind the camera (+x of it while it faces -x)
    let ents = vec![entity_at(229376 + 2 * FP_ONE, 98304)];
    let walls = vec![8 * FP_ONE; SCREEN_WIDTH as usize];
    let out = render_sprites(&p, &walls, &ents);
    assert!(out.is_empty());
}

#[test]
fn degenerate_camera_basis_draws_no_sprites() {
    // a zero camera plane cannot be inverted
    let p = player_at(229376, 98304, -FP_ONE, 0, 0, 0);
    let ents = vec![entity_at(98304, 98304)];
    let walls = vec![8 * FP_ONE; SCREEN_WIDTH as usize];
    let out = render_sprites(&p, &walls, &ents);
    assert!(out.is_empty());
}
