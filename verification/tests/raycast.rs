use raycaster::camera::Player;
use raycaster::data::WorldMap;
use raycaster::fixed::FP_ONE;
use raycaster::walls::{cast_ray, render_walls, WallSide, MIN_WALL_DIST};
use raycaster::{SCREEN_HEIGHT, SCREEN_WIDTH};

/// A w-by-h map whose boundary ring is wall texture 1 and whose
/// interior is open, with floor/ceiling id 1 everywhere.
fn enclosed_map(w: u32, h: u32) -> WorldMap {
    let mut wall: Vec<Vec<i32>> = Vec::new();
    let mut floor: Vec<Vec<i32>> = Vec::new();
    let mut ceil: Vec<Vec<i32>> = Vec::new();
    for y in 0..h {
        let mut wrow = Vec::new();
        let mut frow = Vec::new();
        let mut crow = Vec::new();
        for x in 0..w {
            let boundary = x == 0 || y == 0 || x == w - 1 || y == h - 1;
            wrow.push(if boundary { 1 } else { 0 });
            frow.push(1);
            crow.push(1);
        }
        wall.push(wrow);
        floor.push(frow);
        ceil.push(crow);
    }
    WorldMap::from_grids(w, h, &wall, &floor, &ceil, Vec::new()).unwrap()
}

fn player_at(x: i64, y: i64, dir_x: i64, dir_y: i64, plane_x: i64, plane_y: i64) -> Player {
    Player { pos_x: x, pos_y: y, dir_x, dir_y, plane_x, plane_y, vel_x: 0, vel_y: 0 }
}

#[test]
fn map_builder_validates_dimensions() {
    let wall = vec![vec![1, 1, 1], vec![1, 0, 1], vec![1, 1, 1]];
    let floor = wall.clone();
    let ceil = wall.clone();
    assert!(WorldMap::from_grids(3, 3, &wall, &floor, &ceil, Vec::new()).is_none());
    let short = vec![vec![1, 1, 1, 1]];
    assert!(WorldMap::from_grids(4, 4, &short, &short, &short, Vec::new()).is_none());
}

#[test]
fn map_builder_reverses_rows() {
    let wall = vec![
        vec![11, 12, 13, 14],
        vec![21, 0, 0, 24],
        vec![31, 0, 0, 34],
        vec![41, 42, 43, 44],
    ];
    let zero = vec![vec![0; 4]; 4];
    let m = WorldMap::from_grids(4, 4, &wall, &zero, &zero, Vec::new()).unwrap();
    // cell (x, y) takes column (width - 1 - x) of row y
    assert_eq!(m.get_cell(0, 0).wall_tex, 14);
    assert_eq!(m.get_cell(3, 0).wall_tex, 11);
    assert_eq!(m.get_cell(0, 3).wall_tex, 44);
    assert_eq!(m.get_cell(1, 1).wall_tex, 0);
}

#[test]
fn enclosure_check() {
    let m = enclosed_map(4, 4);
    assert!(m.check_enclosed());
    let mut wall = vec![
        vec![1, 1, 1, 1],
        vec![0, 0, 0, 1],
        vec![1, 0, 0, 1],
        vec![1, 1, 1, 1],
    ];
    let zero = vec![vec![0; 4]; 4];
    let open = WorldMap::from_grids(4, 4, &wall, &zero, &zero, Vec::new()).unwrap();
    assert!(!open.check_enclosed());
    wall[1][0] = 1;
    let closed = WorldMap::from_grids(4, 4, &wall, &zero, &zero, Vec::new()).unwrap();
    assert!(closed.check_enclosed());
}

// Perpendicular distance invariant: a ray cast straight down a
// grid-aligned corridor reports exactly the Euclidean distance to the
// wall it hits — no fisheye error.
#[test]
fn perpendicular_distance_straight_corridor() {
    let m = enclosed_map(8, 4);
    // camera at (1.0, 1.5), unit ray straight along +x: the first wall
    // is the boundary column x = 7, entered at x = 7.0, so the
    // Euclidean distance is exactly 6.0.
    let hit = cast_ray(&m, FP_ONE, 98304, FP_ONE, 0);
    assert_eq!(hit.side, WallSide::X);
    assert_eq!(hit.cell_x, 7);
    assert_eq!(hit.cell_y, 1);
    assert_eq!(hit.dist, 6 * FP_ONE);
    // and straight along -x from (6.5, 1.5): the wall face is x = 1.0
    let hit2 = cast_ray(&m, 425984, 98304, -FP_ONE, 0);
    assert_eq!(hit2.side, WallSide::X);
    assert_eq!(hit2.cell_x, 0);
    assert_eq!(hit2.dist, 425984 - FP_ONE);
}

// DDA termination: on a closed grid the walk stops within
// width + height steps, whatever the ray direction.
#[test]
fn dda_step_bound() {
    let m = enclosed_map(8, 8);
    let dirs = [
        (FP_ONE, 0),
        (-FP_ONE, 0),
        (0, FP_ONE),
        (0, -FP_ONE),
        (FP_ONE, FP_ONE),
        (-46341, 46341),
        (12345, -65000),
        (1, 1),
        (1, -65536),
    ];
    for (rx, ry) in dirs {
        let hit = cast_ray(&m, 4 * FP_ONE + 777, 4 * FP_ONE + 12345, rx, ry);
        assert!(hit.steps <= 16);
        assert!(m.get_cell(hit.cell_x as u32, hit.cell_y as u32).wall_tex > 0);
        assert!(hit.dist >= MIN_WALL_DIST);
    }
}

#[test]
fn diagonal_ray_hits_nearest_wall() {
    let m = enclosed_map(4, 4);
    // from the center of the map toward +x/+y equally: x and y side
    // distances tie, the y side is stepped first, and the walk leaves
    // through the far corner region within the step bound.
    let hit = cast_ray(&m, 2 * FP_ONE, 2 * FP_ONE, FP_ONE, FP_ONE);
    assert!(m.get_cell(hit.cell_x as u32, hit.cell_y as u32).wall_tex > 0);
    assert!(hit.steps <= 8);
}

// End-to-end scenario: a 4x4 enclosed grid, camera two units from the
// facing wall with a zero-width camera plane; every column's wall
// occupies scale * screenHeight / 2 pixels of line height, centered.
#[test]
fn full_screen_wall_line_height() {
    let m = enclosed_map(4, 4);
    // camera at (1.0, 1.5) facing +x: wall face at x = 3.0, 2.0 away
    let p = player_at(FP_ONE, 98304, FP_ONE, 0, 0, 0);
    let (zbuf, slices) = render_walls(&m, &p);
    assert_eq!(zbuf.len(), SCREEN_WIDTH as usize);
    assert_eq!(slices.len(), SCREEN_WIDTH as usize);
    for i in 0..SCREEN_WIDTH as usize {
        assert_eq!(zbuf[i], 2 * FP_ONE);
        let s = slices[i].expect("every column hits the wall");
        assert_eq!(s.dist, 2 * FP_ONE);
        // line height = scale * screenHeight / dist = 600 / 2 = 300
        assert_eq!(s.draw_end - s.draw_start, SCREEN_HEIGHT / 2);
        assert_eq!(s.draw_start, 150);
        assert_eq!(s.draw_end, 450);
        assert_eq!(s.tex, 0);
        assert!(!s.dark);
        // hit at y = 1.5: fractional position 0.5 of the wall edge,
        // mirrored for an x-side hit with a positive ray
        assert_eq!(s.tex_x, 31);
        assert_eq!(s.tex_y_start, 0);
        assert_eq!(s.tex_height, 64);
    }
}

#[test]
fn near_wall_trims_texture_source() {
    let m = enclosed_map(4, 4);
    // camera 0.5 units from the wall face: line height 1200 overflows
    // the 600-pixel screen, so the source strip is trimmed to its
    // visible middle: 600*64/1200 = 32 rows starting at row 16.
    let p = player_at(163840, 98304, FP_ONE, 0, 0, 0);
    let (_, slices) = render_walls(&m, &p);
    let s = slices[0].unwrap();
    assert_eq!(s.dist, FP_ONE / 2);
    assert_eq!(s.draw_start, 0);
    assert_eq!(s.draw_end, SCREEN_HEIGHT - 1);
    assert_eq!(s.tex_y_start, 16);
    assert_eq!(s.tex_height, 32);
}

#[test]
fn y_side_walls_are_darkened() {
    let m = enclosed_map(4, 4);
    // facing +y: the hit is a horizontal face
    let p = player_at(2 * FP_ONE, 2 * FP_ONE, 0, FP_ONE, 0, 0);
    let (zbuf, slices) = render_walls(&m, &p);
    let s = slices[400].unwrap();
    assert!(s.dark);
    assert_eq!(zbuf[400], FP_ONE);
}
