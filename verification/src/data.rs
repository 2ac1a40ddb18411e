//! The world grid: one cell per map square, holding a wall, floor and
//! ceiling texture id. Ids are 1-indexed; 0 (or a negative id) means
//! "no tile".
//!
//! Grid dimensions must be powers of two: cell coordinates wrap into the
//! grid by masking with `width - 1` / `height - 1`, and the mask is a true
//! modulus only for power-of-two sizes. The constructor validates this
//! instead of silently wrapping wrongly.

use vstd::prelude::*;

verus! {

/// One grid square. Texture ids are 1-indexed; `wall_tex == 0` is an open
/// cell, and a `floor_tex`/`ceil_tex` of 0 or less draws nothing.
pub struct MapCell {
    pub wall_tex: i32,
    pub floor_tex: i32,
    pub ceil_tex: i32,
}

/// A spawn descriptor for one entity placed by the map: template name,
/// fixed-point pose, starting animation clip name, and collision data.
pub struct EntitySpawn {
    pub name: String,
    pub x: i64,
    pub y: i64,
    pub dir_x: i64,
    pub dir_y: i64,
    pub animation: String,
    pub collidable: bool,
    pub collision_radius: i64,
}

/// `m` is a positive power of two, phrased the way the wrap itself uses
/// it: the mask `m - 1` has no bit in common with `m`.
pub open spec fn pow2_mask(m: u32) -> bool {
    m > 0 && m & ((m - 1) as u32) == 0
}

/// The immutable per-run tile grid, row-major: the cell at `(x, y)` is
/// `grid[y * width + x]`.
pub struct WorldMap {
    pub width: u32,
    pub height: u32,
    pub grid: Vec<MapCell>,
    pub entities: Vec<EntitySpawn>,
}

impl WorldMap {
    /// The cells, as the mathematical sequence behind the vector.
    pub open spec fn cells(&self) -> Seq<MapCell> {
        self.grid@
    }

    /// The cell at grid coordinates `(x, y)`.
    pub open spec fn cell_at(&self, x: int, y: int) -> MapCell {
        self.cells()[y * self.width + x]
    }

    pub open spec fn in_bounds(&self, x: int, y: int) -> bool {
        0 <= x < self.width && 0 <= y < self.height
    }

    /// Well-formed: power-of-two dimensions in a range where every
    /// fixed-point coordinate computation of the renderer stays in `i64`,
    /// and a cell for every coordinate.
    pub open spec fn wf(&self) -> bool {
        &&& pow2_mask(self.width)
        &&& pow2_mask(self.height)
        &&& 2 <= self.width <= 1024
        &&& 2 <= self.height <= 1024
        &&& self.cells().len() == self.width * self.height
    }

    /// Every boundary cell is solid, so a ray walked cell by cell can
    /// never leave the grid without first meeting a wall.
    pub open spec fn enclosed(&self) -> bool {
        forall|x: int, y: int|
            self.in_bounds(x, y) && (x == 0 || y == 0 || x == self.width - 1 || y == self.height
                - 1) ==> (#[trigger] self.cell_at(x, y)).wall_tex > 0
    }

    pub fn get_cell(&self, x: u32, y: u32) -> (c: &MapCell)
        requires
            self.wf(),
            x < self.width,
            y < self.height,
        ensures
            *c == self.cell_at(x as int, y as int),
    {
        proof {
            assert(y * self.width + x < self.width * self.height && self.width * self.height
                <= 0x100000) by (nonlinear_arith)
                requires
                    x < self.width,
                    y < self.height,
                    self.width <= 1024,
                    self.height <= 1024,
            ;
        }
        &self.grid[(y * self.width + x) as usize]
    }

    /// Builds the grid from the three per-layer id matrices, `height`
    /// rows of `width` columns each, using the loader's convention that
    /// row `y` of the matrices is stored reversed: the cell at `(x, y)`
    /// takes its ids from column `width - 1 - x` of row `y`.
    ///
    /// Returns `None` exactly when a dimension is not a power of two in
    /// `[2, 1024]` or some matrix does not have `height` rows of `width`
    /// entries.
    pub fn from_grids(
        width: u32,
        height: u32,
        wall_grid: &Vec<Vec<i32>>,
        floor_grid: &Vec<Vec<i32>>,
        ceil_grid: &Vec<Vec<i32>>,
        entities: Vec<EntitySpawn>,
    ) -> (r: Option<WorldMap>)
        ensures
            r is Some <==> dims_valid(width, height) && grid_valid(wall_grid@, width, height)
                && grid_valid(floor_grid@, width, height) && grid_valid(ceil_grid@, width, height),
            r matches Some(m) ==> {
                &&& m.wf()
                &&& m.width == width
                &&& m.height == height
                &&& m.entities == entities
                &&& forall|x: int, y: int|
                    m.in_bounds(x, y) ==> #[trigger] m.cell_at(x, y) == (MapCell {
                        wall_tex: wall_grid@[y]@[width - 1 - x],
                        floor_tex: floor_grid@[y]@[width - 1 - x],
                        ceil_tex: ceil_grid@[y]@[width - 1 - x],
                    })
            },
    {
        if !(is_pow2_in_range(width) && is_pow2_in_range(height)) {
            return None;
        }
        if !(grid_has_shape(wall_grid, width, height) && grid_has_shape(floor_grid, width, height)
            && grid_has_shape(ceil_grid, width, height)) {
            return None;
        }
        let ghost wg = wall_grid@;
        let ghost fg = floor_grid@;
        let ghost cg = ceil_grid@;
        let mut grid: Vec<MapCell> = Vec::new();
        let mut y: usize = 0;
        while y < height as usize
            invariant
                y <= height,
                dims_valid(width, height),
                grid_valid(wg, width, height),
                grid_valid(fg, width, height),
                grid_valid(cg, width, height),
                wg == wall_grid@ && fg == floor_grid@ && cg == ceil_grid@,
                grid@.len() == y * width,
                grid@ == built_prefix(wg, fg, cg, width as int, (y * width) as int),
            decreases height - y,
        {
            let mut j: usize = 0;
            while j < width as usize
                invariant
                    y < height,
                    j <= width,
                    dims_valid(width, height),
                    grid_valid(wg, width, height),
                    grid_valid(fg, width, height),
                    grid_valid(cg, width, height),
                    wg == wall_grid@ && fg == floor_grid@ && cg == ceil_grid@,
                    grid@.len() == y * width + j,
                    grid@ == built_prefix(wg, fg, cg, width as int, (y * width + j) as int),
                decreases width - j,
            {
                let src = width as usize - 1 - j;
                let cell = MapCell {
                    wall_tex: wall_grid[y][src],
                    floor_tex: floor_grid[y][src],
                    ceil_tex: ceil_grid[y][src],
                };
                grid.push(cell);
                proof {
                    let idx = y * width + j;
                    vstd::arithmetic::div_mod::lemma_fundamental_div_mod_converse(
                        idx as int,
                        width as int,
                        y as int,
                        j as int,
                    );
                    assert(cell == built_cell(wg, fg, cg, width as int, idx as int));
                    assert(built_prefix(wg, fg, cg, width as int, idx + 1) =~= built_prefix(
                        wg,
                        fg,
                        cg,
                        width as int,
                        idx as int,
                    ).push(built_cell(wg, fg, cg, width as int, idx as int)));
                }
                j = j + 1;
            }
            y = y + 1;
            proof {
                assert(y * width == (y - 1) * width + width) by (nonlinear_arith);
            }
        }
        proof {
            assert(height * width == width * height) by (nonlinear_arith);
        }
        let m = WorldMap { width, height, grid, entities };
        proof {
            assert forall|x: int, yy: int| m.in_bounds(x, yy) implies #[trigger] m.cell_at(x, yy)
                == (MapCell {
                wall_tex: wall_grid@[yy]@[width - 1 - x],
                floor_tex: floor_grid@[yy]@[width - 1 - x],
                ceil_tex: ceil_grid@[yy]@[width - 1 - x],
            }) by {
                assert(0 <= yy * width + x < width * height) by (nonlinear_arith)
                    requires
                        0 <= x < width,
                        0 <= yy < height,
                ;
                vstd::arithmetic::div_mod::lemma_fundamental_div_mod_converse(
                    yy * width + x,
                    width as int,
                    yy,
                    x,
                );
            }
        }
        Some(m)
    }

    /// Checks the documented map precondition that the boundary is a
    /// closed ring of walls.
    pub fn check_enclosed(&self) -> (b: bool)
        requires
            self.wf(),
        ensures
            b == self.enclosed(),
    {
        let mut y: u32 = 0;
        while y < self.height
            invariant
                self.wf(),
                y <= self.height,
                forall|xx: int, yy: int|
                    self.in_bounds(xx, yy) && yy < y && (xx == 0 || yy == 0 || xx == self.width - 1
                        || yy == self.height - 1) ==> (#[trigger] self.cell_at(xx, yy)).wall_tex
                        > 0,
            decreases self.height - y,
        {
            let mut x: u32 = 0;
            while x < self.width
                invariant
                    self.wf(),
                    y < self.height,
                    x <= self.width,
                    forall|xx: int, yy: int|
                        self.in_bounds(xx, yy) && yy < y && (xx == 0 || yy == 0 || xx == self.width
                            - 1 || yy == self.height - 1) ==> (#[trigger] self.cell_at(
                            xx,
                            yy,
                        )).wall_tex > 0,
                    forall|xx: int|
                        0 <= xx < x && (xx == 0 || y == 0 || xx == self.width - 1 || y
                            == self.height - 1) ==> (#[trigger] self.cell_at(
                            xx,
                            y as int,
                        )).wall_tex > 0,
                decreases self.width - x,
            {
                let boundary = x == 0 || y == 0 || x == self.width - 1 || y == self.height - 1;
                if boundary && self.get_cell(x, y).wall_tex <= 0 {
                    return false;
                }
                x = x + 1;
            }
            y = y + 1;
        }
        true
    }
}

/// The cell that position `idx` of the build order receives: row
/// `idx / width` of the matrices, column `width - 1 - idx % width`.
pub open spec fn built_cell(
    wg: Seq<Vec<i32>>,
    fg: Seq<Vec<i32>>,
    cg: Seq<Vec<i32>>,
    width: int,
    idx: int,
) -> MapCell {
    let y = idx / width;
    let j = idx % width;
    MapCell {
        wall_tex: wg[y]@[width - 1 - j],
        floor_tex: fg[y]@[width - 1 - j],
        ceil_tex: cg[y]@[width - 1 - j],
    }
}

/// The first `n` cells of the build order.
pub open spec fn built_prefix(
    wg: Seq<Vec<i32>>,
    fg: Seq<Vec<i32>>,
    cg: Seq<Vec<i32>>,
    width: int,
    n: int,
) -> Seq<MapCell> {
    Seq::new(n as nat, |idx: int| built_cell(wg, fg, cg, width, idx))
}

/// Dimension bounds accepted by `WorldMap::from_grids`.
pub open spec fn dims_valid(width: u32, height: u32) -> bool {
    &&& pow2_mask(width)
    &&& pow2_mask(height)
    &&& 2 <= width <= 1024
    &&& 2 <= height <= 1024
}

/// The matrix has `height` rows of `width` entries.
pub open spec fn grid_valid(g: Seq<Vec<i32>>, width: u32, height: u32) -> bool {
    g.len() == height && forall|i: int| 0 <= i < g.len() ==> (#[trigger] g[i])@.len() == width
}

fn grid_has_shape(g: &Vec<Vec<i32>>, width: u32, height: u32) -> (b: bool)
    ensures
        b == grid_valid(g@, width, height),
{
    if g.len() != height as usize {
        return false;
    }
    let mut i: usize = 0;
    while i < g.len()
        invariant
            i <= g@.len(),
            g@.len() == height,
            forall|k: int| 0 <= k < i ==> (#[trigger] g@[k])@.len() == width,
        decreases g@.len() - i,
    {
        if g[i].len() != width as usize {
            return false;
        }
        i = i + 1;
    }
    true
}

/// Power-of-two test in the dimension range the renderer supports.
pub fn is_pow2_in_range(m: u32) -> (b: bool)
    ensures
        b == (pow2_mask(m) && 2 <= m <= 1024),
{
    if m < 2 || m > 1024 {
        return false;
    }
    let mask = m - 1;
    m & mask == 0
}

/// Wraps a (possibly negative) cell coordinate into `[0, m)` with the
/// power-of-two mask `m - 1`; the result is exactly the coordinate taken
/// modulo `m`.
pub fn wrap_coord(c: i64, m: u32) -> (r: u32)
    requires
        pow2_mask(m),
    ensures
        r == (c as int) % (m as int),
        r < m,
{
    let mm = m as i64;
    let t = c % mm;
    let e: i64 = if t < 0 {
        t + mm
    } else {
        t
    };
    proof {
        if c < 0 {
            lemma_mod_of_negative(-(c as int), m as int);
        }
    }
    let eu: u32 = e as u32;
    let mask = m - 1;
    proof {
        assert(eu & mask == eu) by (bit_vector)
            requires
                m > 0 && m & ((m - 1) as u32) == 0,
                mask == (m - 1) as u32,
                eu < m,
        ;
    }
    eu & mask
}

/// For nonnegative `x` and positive `m`, the Euclidean remainder of `-x`
/// is `0` when `m` divides `x` and `m - x % m` otherwise.
proof fn lemma_mod_of_negative(x: int, m: int)
    requires
        x >= 0,
        m > 0,
    ensures
        (-x) % m == if x % m == 0 {
            0int
        } else {
            m - (x % m)
        },
{
    vstd::arithmetic::div_mod::lemma_fundamental_div_mod(x, m);
    let q = x / m;
    let r = x % m;
    vstd::arithmetic::div_mod::lemma_mod_pos_bound(x, m);
    if r == 0 {
        assert(-x == (-q) * m + 0) by (nonlinear_arith)
            requires
                x == m * q + r,
                r == 0,
        ;
        vstd::arithmetic::div_mod::lemma_fundamental_div_mod_converse_mod(-x, m, -q, 0);
    } else {
        assert(-x == (-q - 1) * m + (m - r)) by (nonlinear_arith)
            requires
                x == m * q + r,
        ;
        vstd::arithmetic::div_mod::lemma_fundamental_div_mod_converse_mod(-x, m, -q - 1, m - r);
    }
}

/// The wrap has period `m`: moving a coordinate by exactly the grid size
/// lands on the same wrapped cell, and so on the same texture column.
pub proof fn lemma_wrap_period(c: int, m: int)
    requires
        m > 0,
    ensures
        (c + m) % m == c % m,
{
    vstd::arithmetic::div_mod::lemma_mod_add_multiples_vanish(c, m);
}

} // verus!
