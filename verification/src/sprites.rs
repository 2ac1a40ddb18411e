//! Sprites and entities: shared read-only sprite templates, per-instance
//! entity state (pose, collision, animation playback, alive flag), and
//! the sprite-sheet geometry of the billboard pass.
//!
//! A "rotating" sprite sheet holds 8 precomputed view angles side by
//! side and up to 7 animation rows; both counts are fixed asset
//! conventions, not inferred from the sheet.

use vstd::prelude::*;

use crate::animation::{same_clip, Animation, AnimationFrame, AnimationManager, TIME_BOUND};
use crate::{DIR_BOUND, POS_BOUND};

verus! {

/// Number of view angles in a rotating sprite sheet.
pub const SPRITE_ANGLES: u32 = 8;

/// Number of animation rows in a rotating sprite sheet.
pub const SPRITE_ROWS: u32 = 7;

/// Bound on sprite sheet dimensions in pixels.
pub const SHEET_BOUND: u32 = 4096;

/// Bound on the per-template screen-space pixel offsets.
pub const MOVE_BOUND: i64 = 4096;

/// A shared, read-only sprite template: sheet size, billboard scaling
/// and offsets, and whether the sheet holds 8 view angles.
#[derive(Debug)]
pub struct Sprite {
    pub name: String,
    pub tex_id: String,
    /// Sheet width in pixels (taken from the decoded image).
    pub width: u32,
    /// Sheet height in pixels (taken from the decoded image).
    pub height: u32,
    /// Horizontal billboard scale, fixed point.
    pub u_scale: i64,
    /// Vertical billboard scale, fixed point.
    pub v_scale: i64,
    /// Horizontal screen offset in pixels.
    pub u_move: i64,
    /// Vertical screen offset in pixels.
    pub v_move: i64,
    /// The sheet holds 8 precomputed view angles.
    pub rotating: bool,
}

/// `a` and `b` are the same template (field by field, over views).
pub open spec fn same_sprite(a: Sprite, b: Sprite) -> bool {
    &&& a.name@ == b.name@
    &&& a.tex_id@ == b.tex_id@
    &&& a.width == b.width
    &&& a.height == b.height
    &&& a.u_scale == b.u_scale
    &&& a.v_scale == b.v_scale
    &&& a.u_move == b.u_move
    &&& a.v_move == b.v_move
    &&& a.rotating == b.rotating
}

impl Sprite {
    pub open spec fn wf(&self) -> bool {
        &&& 1 <= self.width <= SHEET_BOUND
        &&& 1 <= self.height <= SHEET_BOUND
        &&& 0 <= self.u_scale <= DIR_BOUND
        &&& 0 <= self.v_scale <= DIR_BOUND
        &&& -MOVE_BOUND <= self.u_move <= MOVE_BOUND
        &&& -MOVE_BOUND <= self.v_move <= MOVE_BOUND
    }

    /// A fresh copy of the template.
    pub fn instance(&self) -> (r: Sprite)
        ensures
            same_sprite(r, *self),
    {
        Sprite {
            name: self.name.clone(),
            tex_id: self.tex_id.clone(),
            width: self.width,
            height: self.height,
            u_scale: self.u_scale,
            v_scale: self.v_scale,
            u_move: self.u_move,
            v_move: self.v_move,
            rotating: self.rotating,
        }
    }
}

/// One live (or dead) world object, drawn as a billboard.
#[derive(Debug)]
pub struct Entity {
    pub id: u32,
    pub name: String,
    pub sprite: Sprite,
    pub pos_x: i64,
    pub pos_y: i64,
    pub dir_x: i64,
    pub dir_y: i64,
    pub collidable: bool,
    pub collision_radius: i64,
    pub animation: Option<Animation>,
    pub dead: bool,
}

impl Entity {
    pub open spec fn wf(&self) -> bool {
        &&& self.sprite.wf()
        &&& -POS_BOUND <= self.pos_x <= POS_BOUND
        &&& -POS_BOUND <= self.pos_y <= POS_BOUND
        &&& -DIR_BOUND <= self.dir_x <= DIR_BOUND
        &&& -DIR_BOUND <= self.dir_y <= DIR_BOUND
        &&& 0 <= self.collision_radius <= DIR_BOUND
        &&& match self.animation {
            Some(a) => a.wf(),
            None => true,
        }
    }

    /// Advances the animation by one frame tick: the current frame's
    /// remaining time drops by the elapsed time; on expiry it is reset
    /// to the nominal duration and playback moves to the next frame,
    /// which past the end either loops to frame 0, holds the last frame
    /// (a permanent clip), or clears the animation (a finished one-shot
    /// effect). Entities without an animation are untouched.
    pub fn tick_animation(&mut self, frame_time: i64)
        requires
            0 <= frame_time <= TIME_BOUND,
            old(self).animation matches Some(a) ==> a.wf(),
        ensures
            final(self).id == old(self).id,
            final(self).name == old(self).name,
            final(self).sprite == old(self).sprite,
            final(self).pos_x == old(self).pos_x,
            final(self).pos_y == old(self).pos_y,
            final(self).dir_x == old(self).dir_x,
            final(self).dir_y == old(self).dir_y,
            final(self).collidable == old(self).collidable,
            final(self).collision_radius == old(self).collision_radius,
            final(self).dead == old(self).dead,
            old(self).animation is None ==> final(self).animation is None,
            old(self).animation matches Some(a) ==> anim_ticked(
                a,
                final(self).animation,
                frame_time as int,
            ),
            final(self).animation matches Some(n) ==> n.wf(),
    {
        let mut cleared = false;
        match &mut self.animation {
            None => {},
            Some(a) => {
                assert(a.curr_frame < a.frames@.len());
                let n = a.frames.len();
                let i = a.curr_frame;
                let mut f = a.frames[i];
                f.time_remaining = f.time_remaining - frame_time;
                if f.time_remaining <= 0 {
                    f.time_remaining = f.duration;
                    a.frames[i] = f;
                    if i + 1 >= n {
                        if a.do_loop {
                            a.curr_frame = 0;
                        } else if !a.perm {
                            cleared = true;
                        } else {
                            a.curr_frame = n - 1;
                        }
                    } else {
                        a.curr_frame = i + 1;
                    }
                } else {
                    a.frames[i] = f;
                }
            },
        }
        if cleared {
            self.animation = None;
        }
    }

    /// Marks the entity dead: it stops colliding and plays the "die"
    /// clip if the manager has one.
    pub fn kill(&mut self, manager: &AnimationManager)
        ensures
            final(self).dead,
            !final(self).collidable,
            final(self).id == old(self).id,
            final(self).name == old(self).name,
            final(self).sprite == old(self).sprite,
            final(self).pos_x == old(self).pos_x,
            final(self).pos_y == old(self).pos_y,
            final(self).dir_x == old(self).dir_x,
            final(self).dir_y == old(self).dir_y,
            final(self).collision_radius == old(self).collision_radius,
            match manager.find_spec("die"@) {
                None => final(self).animation is None,
                Some(i) => final(self).animation matches Some(a) && same_clip(
                    a,
                    manager.animations@[i],
                ),
            },
    {
        self.dead = true;
        self.collidable = false;
        self.animation = manager.get_animation("die");
    }

    /// Brings the entity back: alive again, with no animation.
    pub fn revive(&mut self)
        ensures
            !final(self).dead,
            final(self).animation is None,
            final(self).id == old(self).id,
            final(self).name == old(self).name,
            final(self).sprite == old(self).sprite,
            final(self).pos_x == old(self).pos_x,
            final(self).pos_y == old(self).pos_y,
            final(self).dir_x == old(self).dir_x,
            final(self).dir_y == old(self).dir_y,
            final(self).collidable == old(self).collidable,
            final(self).collision_radius == old(self).collision_radius,
    {
        self.dead = false;
        self.animation = None;
    }
}

/// The sector of the direction `(x, y)`: the index `k` in `[0, 8)` with
/// the vector's angle in `[-pi + k*pi/4, -pi + (k+1)*pi/4)`. Sector
/// membership needs no trigonometry: the boundaries are the axes and
/// diagonals, so signs and a comparison of magnitudes decide it. The
/// zero vector, and the direction exactly opposite the x axis, fall in
/// sector 0.
pub open spec fn octant_spec(x: int, y: int) -> int {
    if x < 0 && y <= 0 && y > x {
        0
    } else if x < 0 && y < 0 {
        1
    } else if x >= 0 && y < 0 && x < -y {
        2
    } else if x > 0 && y < 0 {
        3
    } else if x > 0 && y >= 0 && y < x {
        4
    } else if x > 0 && y > 0 {
        5
    } else if x <= 0 && y > 0 && -x < y {
        6
    } else if x < 0 && y > 0 {
        7
    } else {
        0
    }
}

/// The view-angle sector: the signed angle between the facing direction
/// `dir` and the vector `diff`, bucketed into 8 sectors. That angle is
/// the angle of `diff` measured in `dir`'s frame — the angle of the
/// complex product of `diff` with the conjugate of `dir` — so the
/// bucket is computed exactly from that product vector, with no
/// trigonometry.
pub open spec fn view_octant_spec(diff_x: int, diff_y: int, dir_x: int, dir_y: int) -> int {
    octant_spec(diff_x * dir_x + diff_y * dir_y, diff_y * dir_x - diff_x * dir_y)
}

/// Computes the sector of a direction vector by sign and magnitude
/// comparisons.
pub fn octant(x: i64, y: i64) -> (k: u32)
    requires
        i64::MIN < x,
        i64::MIN < y,
    ensures
        k == octant_spec(x as int, y as int),
        k < SPRITE_ANGLES,
{
    if x < 0 && y <= 0 && y > x {
        0
    } else if x < 0 && y < 0 {
        1
    } else if x >= 0 && y < 0 && x < -y {
        2
    } else if x > 0 && y < 0 {
        3
    } else if x > 0 && y >= 0 && y < x {
        4
    } else if x > 0 && y > 0 {
        5
    } else if x <= 0 && y > 0 && -x < y {
        6
    } else if x < 0 && y > 0 {
        7
    } else {
        0
    }
}

/// The view-angle sector for a rotating sprite: the signed angle
/// between the facing direction `dir` and the vector `diff` (entity to
/// camera), bucketed into 8 sectors.
pub fn view_octant(diff_x: i64, diff_y: i64, dir_x: i64, dir_y: i64) -> (k: u32)
    requires
        -2 * POS_BOUND <= diff_x <= 2 * POS_BOUND,
        -2 * POS_BOUND <= diff_y <= 2 * POS_BOUND,
        -DIR_BOUND <= dir_x <= DIR_BOUND,
        -DIR_BOUND <= dir_y <= DIR_BOUND,
    ensures
        k == view_octant_spec(diff_x as int, diff_y as int, dir_x as int, dir_y as int),
        k < SPRITE_ANGLES,
{
    proof {
        assert(-0x2000_0000_0000 <= diff_x * dir_x <= 0x2000_0000_0000 && -0x2000_0000_0000
            <= diff_y * dir_y <= 0x2000_0000_0000 && -0x2000_0000_0000 <= diff_x * dir_y
            <= 0x2000_0000_0000 && -0x2000_0000_0000 <= diff_y * dir_x <= 0x2000_0000_0000)
            by (nonlinear_arith)
            requires
                -0x800_0000 <= diff_x <= 0x800_0000,
                -0x800_0000 <= diff_y <= 0x800_0000,
                -0x4_0000 <= dir_x <= 0x4_0000,
                -0x4_0000 <= dir_y <= 0x4_0000,
        ;
    }
    let px = diff_x * dir_x + diff_y * dir_y;
    let py = diff_y * dir_x - diff_x * dir_y;
    octant(px, py)
}

/// A one-pixel-wide source rectangle in a sprite sheet.
#[derive(Clone, Copy, PartialEq, Eq, Structural, Debug)]
pub struct FrameRect {
    /// Source column in the sheet.
    pub x: i64,
    /// First source row in the sheet.
    pub y: i64,
    /// Number of source rows.
    pub height: i64,
}

/// The sheet rectangle `get_frame_rect` returns. See there.
pub open spec fn frame_rect_spec(e: Entity, x_slice: int, screen_x: int, screen_w: int, sector: int) -> FrameRect {
    let width = if e.sprite.rotating {
        (e.sprite.width / SPRITE_ANGLES) as int
    } else {
        e.sprite.width as int
    };
    let height = if e.sprite.rotating {
        (e.sprite.height / SPRITE_ROWS) as int
    } else {
        e.sprite.height as int
    };
    let x0 = if e.sprite.rotating && !e.dead {
        (e.sprite.width / SPRITE_ANGLES) * sector
    } else {
        0
    };
    let y = match e.animation {
        None => 0,
        Some(a) => height * a.frames@[a.curr_frame as int].y_pos,
    };
    let x1 = match e.animation {
        None => x0,
        Some(a) => x0 + width * a.frames@[a.curr_frame as int].x_pos,
    };
    let x = x1 + crate::fixed::tdiv((x_slice - (-(screen_w / 2) + screen_x)) * width, screen_w);
    FrameRect { x: x as i64, y: y as i64, height: height as i64 }
}

impl Entity {
    /// The sheet rectangle to draw for screen column `x_slice` of this
    /// entity's billboard: a one-pixel-wide strip. For a rotating sheet
    /// the strip is offset into the eighth given by `sector` (unless the
    /// entity is dead, which always shows the first angle), and an
    /// active animation offsets the strip to its frame's cell.
    /// `screen_x` is the billboard's center column, `screen_w` its width
    /// on screen.
    pub fn get_frame_rect(&self, x_slice: i64, screen_x: i64, screen_w: i64, sector: u32) -> (r:
        FrameRect)
        requires
            self.wf(),
            self.animation matches Some(a) ==> a.wf(),
            sector < SPRITE_ANGLES,
            0 < screen_w <= 0x1000_0000_0000,
            -0x1000_0000_0000 <= x_slice <= 0x1000_0000_0000,
            -0x1000_0000_0000 <= screen_x <= 0x1000_0000_0000,
        ensures
            r == frame_rect_spec(
                *self,
                x_slice as int,
                screen_x as int,
                screen_w as int,
                sector as int,
            ),
    {
        let width: i64 = if self.sprite.rotating {
            (self.sprite.width / SPRITE_ANGLES) as i64
        } else {
            self.sprite.width as i64
        };
        let height: i64 = if self.sprite.rotating {
            (self.sprite.height / SPRITE_ROWS) as i64
        } else {
            self.sprite.height as i64
        };
        proof {
            assert(0 <= (self.sprite.width / SPRITE_ANGLES) * (sector as int) <= 0x8000)
                by (nonlinear_arith)
                requires
                    0 <= self.sprite.width / SPRITE_ANGLES <= 4096,
                    0 <= sector < 8,
            ;
        }
        let x0: i64 = if self.sprite.rotating && !self.dead {
            (self.sprite.width / SPRITE_ANGLES) as i64 * sector as i64
        } else {
            0
        };
        proof {
            if self.animation is Some {
                let f = self.animation->Some_0.frames@[self.animation->Some_0.curr_frame as int];
                assert(0 <= height * (f.y_pos as int) <= 0x2_0000 && 0 <= width * (f.x_pos as int)
                    <= 0x2_0000) by (nonlinear_arith)
                    requires
                        0 <= height <= 4097,
                        0 <= width <= 4096,
                        0 <= f.y_pos < 16,
                        0 <= f.x_pos < 16,
                ;
            }
        }
        let y: i64 = match &self.animation {
            None => 0,
            Some(a) => height * a.get_current_frame_immut().y_pos as i64,
        };
        let x1: i64 = match &self.animation {
            None => x0,
            Some(a) => x0 + width * a.get_current_frame_immut().x_pos as i64,
        };
        let d: i64 = x_slice - (-(screen_w / 2) + screen_x);
        proof {
            assert(-0x3000_0000_0000 * 4096 <= d * width <= 0x3000_0000_0000 * 4096)
                by (nonlinear_arith)
                requires
                    -0x3000_0000_0000 <= d <= 0x3000_0000_0000,
                    0 <= width <= 4096,
            ;
        }
        let num: i64 = d * width;
        proof {
            vstd::arithmetic::div_mod::lemma_div_pos_is_pos(
                vstd::math::abs(num as int) as int,
                screen_w as int,
            );
            vstd::arithmetic::div_mod::lemma_div_nonincreasing(
                vstd::math::abs(num as int) as int,
                screen_w as int,
            );
        }
        let x = x1 + num / screen_w;
        FrameRect { x, y, height }
    }
}

/// Relates an animation before a tick to the optional animation after
/// it. See `Entity::tick_animation`.
pub open spec fn anim_ticked(a: Animation, r: Option<Animation>, ft: int) -> bool {
    let curr = a.curr_frame as int;
    let f = a.frames@[curr];
    if f.time_remaining - ft > 0 {
        r matches Some(n) && ticked_into(a, n, curr, f.time_remaining - ft, a.curr_frame as int)
    } else if curr + 1 < a.frames@.len() {
        r matches Some(n) && ticked_into(a, n, curr, f.duration as int, curr + 1)
    } else if a.do_loop {
        r matches Some(n) && ticked_into(a, n, curr, f.duration as int, 0)
    } else if !a.perm {
        r is None
    } else {
        r matches Some(n) && ticked_into(a, n, curr, f.duration as int, a.frames@.len() - 1)
    }
}

/// `n` is `a` with the frame at `curr` given remaining time `tr` and
/// playback moved to `next`.
pub open spec fn ticked_into(a: Animation, n: Animation, curr: int, tr: int, next: int) -> bool {
    &&& n.name@ == a.name@
    &&& n.do_loop == a.do_loop
    &&& n.perm == a.perm
    &&& n.curr_frame == next
    &&& n.frames@ == a.frames@.update(
        curr,
        AnimationFrame { time_remaining: tr as i64, ..a.frames@[curr] },
    )
}

/// The loaded sprite templates, looked up by name.
pub struct SpriteManager {
    pub sprites: Vec<Sprite>,
}

/// Index of the first sprite in `s` named `name`.
pub open spec fn find_sprite(s: Seq<Sprite>, name: Seq<char>) -> Option<int>
    decreases s.len(),
{
    if s.len() == 0 {
        None
    } else if s[0].name@ == name {
        Some(0)
    } else {
        match find_sprite(s.drop_first(), name) {
            None => None,
            Some(i) => Some(i + 1),
        }
    }
}

proof fn lemma_find_sprite_hit(s: Seq<Sprite>, name: Seq<char>, i: int)
    requires
        0 <= i < s.len(),
        s[i].name@ == name,
        forall|k: int| 0 <= k < i ==> (#[trigger] s[k]).name@ != name,
    ensures
        find_sprite(s, name) == Some(i),
    decreases s.len(),
{
    if i > 0 {
        lemma_find_sprite_hit(s.drop_first(), name, i - 1);
    }
}

/// A successful find names an in-range sprite with the looked-up name.
pub proof fn lemma_find_sprite_range(s: Seq<Sprite>, name: Seq<char>)
    ensures
        find_sprite(s, name) matches Some(i) ==> 0 <= i < s.len() && s[i].name@ == name,
    decreases s.len(),
{
    if s.len() > 0 && s[0].name@ != name {
        lemma_find_sprite_range(s.drop_first(), name);
    }
}

proof fn lemma_find_sprite_miss(s: Seq<Sprite>, name: Seq<char>)
    requires
        forall|k: int| 0 <= k < s.len() ==> (#[trigger] s[k]).name@ != name,
    ensures
        find_sprite(s, name) is None,
    decreases s.len(),
{
    if s.len() > 0 {
        lemma_find_sprite_miss(s.drop_first(), name);
    }
}

impl SpriteManager {
    pub open spec fn find_spec(&self, name: Seq<char>) -> Option<int> {
        find_sprite(self.sprites@, name)
    }

    pub fn new() -> (r: SpriteManager)
        ensures
            r.sprites@.len() == 0,
    {
        SpriteManager { sprites: Vec::new() }
    }

    /// Registers one loaded template.
    pub fn add(&mut self, s: Sprite)
        ensures
            final(self).sprites@ == old(self).sprites@.push(s),
    {
        self.sprites.push(s);
    }

    /// The named template, or `None` exactly when no loaded template
    /// has the name.
    pub fn get_sprite(&self, id: &str) -> (r: Option<&Sprite>)
        ensures
            match r {
                None => self.find_spec(id@) is None,
                Some(s) => {
                    &&& self.find_spec(id@) matches Some(i)
                    &&& *s == self.sprites@[i]
                },
            },
    {
        let key: String = id.to_owned();
        let mut i: usize = 0;
        while i < self.sprites.len()
            invariant
                i <= self.sprites@.len(),
                key@ == id@,
                forall|k: int| 0 <= k < i ==> (#[trigger] self.sprites@[k]).name@ != id@,
            decreases self.sprites@.len() - i,
        {
            if self.sprites[i].name == key {
                proof {
                    lemma_find_sprite_hit(self.sprites@, id@, i as int);
                }
                return Some(&self.sprites[i]);
            }
            i = i + 1;
        }
        proof {
            lemma_find_sprite_miss(self.sprites@, id@);
        }
        None
    }
}

/// A template for instantiating entities: which sprite to show and how
/// the instance collides.
#[derive(Debug)]
pub struct EntityTmpl {
    pub name: String,
    pub sprite_name: String,
    pub collidable: bool,
    pub collision_radius: i64,
}

impl EntityTmpl {
    pub open spec fn wf(&self) -> bool {
        0 <= self.collision_radius <= DIR_BOUND
    }
}

/// Index of the first template in `s` named `name`.
pub open spec fn find_tmpl(s: Seq<EntityTmpl>, name: Seq<char>) -> Option<int>
    decreases s.len(),
{
    if s.len() == 0 {
        None
    } else if s[0].name@ == name {
        Some(0)
    } else {
        match find_tmpl(s.drop_first(), name) {
            None => None,
            Some(i) => Some(i + 1),
        }
    }
}

proof fn lemma_find_tmpl_hit(s: Seq<EntityTmpl>, name: Seq<char>, i: int)
    requires
        0 <= i < s.len(),
        s[i].name@ == name,
        forall|k: int| 0 <= k < i ==> (#[trigger] s[k]).name@ != name,
    ensures
        find_tmpl(s, name) == Some(i),
    decreases s.len(),
{
    if i > 0 {
        lemma_find_tmpl_hit(s.drop_first(), name, i - 1);
    }
}

proof fn lemma_find_tmpl_miss(s: Seq<EntityTmpl>, name: Seq<char>)
    requires
        forall|k: int| 0 <= k < s.len() ==> (#[trigger] s[k]).name@ != name,
    ensures
        find_tmpl(s, name) is None,
    decreases s.len(),
{
    if s.len() > 0 {
        lemma_find_tmpl_miss(s.drop_first(), name);
    }
}

/// Creates entities from loaded templates, handing out unique ids.
pub struct EntityManager {
    pub entity_tmpls: Vec<EntityTmpl>,
    pub id_counter: u32,
}

impl EntityManager {
    pub open spec fn find_spec(&self, name: Seq<char>) -> Option<int> {
        find_tmpl(self.entity_tmpls@, name)
    }

    pub fn new() -> (r: EntityManager)
        ensures
            r.entity_tmpls@.len() == 0,
            r.id_counter == 0,
    {
        EntityManager { entity_tmpls: Vec::new(), id_counter: 0 }
    }

    /// Registers one loaded template.
    pub fn add(&mut self, t: EntityTmpl)
        ensures
            final(self).entity_tmpls@ == old(self).entity_tmpls@.push(t),
            final(self).id_counter == old(self).id_counter,
    {
        self.entity_tmpls.push(t);
    }

    /// Instantiates the named template at the origin, with the next
    /// fresh id and no animation. `None` exactly when the template name
    /// is unknown or its sprite is not loaded: such a spawn is skipped,
    /// never given a substitute look.
    #[verifier::loop_isolation(false)]
    pub fn create_entity(&mut self, name: &str, sprites: &SpriteManager) -> (r: Option<Entity>)
        requires
            old(self).id_counter < u32::MAX,
        ensures
            final(self).entity_tmpls@ == old(self).entity_tmpls@,
            match r {
                None => {
                    final(self).id_counter == old(self).id_counter && (old(self).find_spec(name@)
                        is None || (old(self).find_spec(name@) matches Some(t)
                        && sprites.find_spec(
                        old(self).entity_tmpls@[t].sprite_name@,
                    ) is None))
                },
                Some(e) => {
                    &&& final(self).id_counter == old(self).id_counter + 1
                    &&& old(self).find_spec(name@) matches Some(t)
                    &&& sprites.find_spec(old(self).entity_tmpls@[t].sprite_name@) matches Some(s)
                    &&& same_sprite(e.sprite, sprites.sprites@[s])
                    &&& e.id == old(self).id_counter
                    &&& e.name@ == name@
                    &&& e.pos_x == 0 && e.pos_y == 0 && e.dir_x == 0 && e.dir_y == 0
                    &&& e.collidable == old(self).entity_tmpls@[t].collidable
                    &&& e.collision_radius == old(self).entity_tmpls@[t].collision_radius
                    &&& e.animation is None
                    &&& !e.dead
                },
            },
    {
        let key: String = name.to_owned();
        let mut i: usize = 0;
        let n = self.entity_tmpls.len();
        while i < n
            invariant
                self.entity_tmpls@ == old(self).entity_tmpls@,
                self.id_counter == old(self).id_counter,
                n == self.entity_tmpls@.len(),
                i <= n,
                key@ == name@,
                forall|k: int| 0 <= k < i ==> (#[trigger] self.entity_tmpls@[k]).name@ != name@,
            decreases n - i,
        {
            if self.entity_tmpls[i].name == key {
                proof {
                    lemma_find_tmpl_hit(self.entity_tmpls@, name@, i as int);
                }
                let tmpl = &self.entity_tmpls[i];
                let sprite = match sprites.get_sprite(tmpl.sprite_name.as_str()) {
                    None => {
                        return None;
                    },
                    Some(s) => s,
                };
                let ent = Entity {
                    id: self.id_counter,
                    name: key,
                    sprite: sprite.instance(),
                    pos_x: 0,
                    pos_y: 0,
                    dir_x: 0,
                    dir_y: 0,
                    collidable: tmpl.collidable,
                    collision_radius: tmpl.collision_radius,
                    animation: None,
                    dead: false,
                };
                self.id_counter = self.id_counter + 1;
                return Some(ent);
            }
            i = i + 1;
        }
        proof {
            lemma_find_tmpl_miss(self.entity_tmpls@, name@);
        }
        None
    }
}

} // verus!
