//! Animation clips: a named, ordered sequence of sprite-sheet cells,
//! each with a nominal duration and a running remaining-time counter.
//! Durations are fixed-point seconds. Every entity owns its own
//! `Animation` value, so playback state is never shared.

use vstd::prelude::*;

verus! {

/// Bound on frame durations and remaining times, in fixed-point seconds.
pub const TIME_BOUND: i64 = 0x4000_0000;

/// Bound on sprite-sheet cell coordinates of a frame.
pub const CELL_BOUND: u32 = 16;

/// One animation frame: a sheet cell and its timing.
#[derive(Clone, Copy, PartialEq, Eq, Structural, Debug)]
pub struct AnimationFrame {
    /// Column of the frame's cell in the sprite sheet.
    pub x_pos: u32,
    /// Row of the frame's cell in the sprite sheet.
    pub y_pos: u32,
    /// Nominal duration in fixed-point seconds.
    pub duration: i64,
    /// Time left in this frame, counted down each tick.
    pub time_remaining: i64,
}

/// A clip with its mutable playback position.
#[derive(Debug)]
pub struct Animation {
    pub name: String,
    /// Restart at frame 0 when the sequence ends.
    pub do_loop: bool,
    /// If not looping: hold the last frame instead of clearing.
    pub perm: bool,
    pub curr_frame: usize,
    pub frames: Vec<AnimationFrame>,
}

impl AnimationFrame {
    pub open spec fn wf(&self) -> bool {
        &&& 0 <= self.duration <= TIME_BOUND
        &&& -TIME_BOUND <= self.time_remaining <= TIME_BOUND
        &&& self.x_pos < CELL_BOUND
        &&& self.y_pos < CELL_BOUND
    }
}

/// `a` and `b` are the same clip in the same playback state. (Two
/// values agreeing field by field; stated over views because `String`
/// and `Vec` values are compared through them.)
pub open spec fn same_clip(a: Animation, b: Animation) -> bool {
    &&& a.name@ == b.name@
    &&& a.do_loop == b.do_loop
    &&& a.perm == b.perm
    &&& a.curr_frame == b.curr_frame
    &&& a.frames@ == b.frames@
}

impl Animation {
    /// At least one frame, a current index in range, and every frame's
    /// numbers in the range the renderer arithmetic supports.
    pub open spec fn wf(&self) -> bool {
        &&& 0 < self.frames@.len()
        &&& self.curr_frame < self.frames@.len()
        &&& forall|i: int| 0 <= i < self.frames@.len() ==> (#[trigger] self.frames@[i]).wf()
    }

    /// The frame the playback currently shows.
    pub fn get_current_frame_immut(&self) -> (f: &AnimationFrame)
        requires
            self.curr_frame < self.frames@.len(),
        ensures
            *f == self.frames@[self.curr_frame as int],
    {
        &self.frames[self.curr_frame]
    }

    pub fn get_num_frames(&self) -> (n: usize)
        ensures
            n == self.frames@.len(),
    {
        self.frames.len()
    }

    /// A fresh, independently owned copy for one entity instance.
    pub fn instance(&self) -> (r: Animation)
        ensures
            same_clip(r, *self),
    {
        let mut frames: Vec<AnimationFrame> = Vec::new();
        let mut i: usize = 0;
        while i < self.frames.len()
            invariant
                i <= self.frames@.len(),
                frames@ =~= self.frames@.take(i as int),
            decreases self.frames@.len() - i,
        {
            frames.push(self.frames[i]);
            i = i + 1;
        }
        proof {
            assert(frames@ =~= self.frames@);
        }
        Animation {
            name: self.name.clone(),
            do_loop: self.do_loop,
            perm: self.perm,
            curr_frame: self.curr_frame,
            frames,
        }
    }

    /// Builds a clip with every counter at its frame's nominal duration
    /// and playback at frame 0. `None` exactly when the frame list is
    /// empty or some frame's numbers are out of range.
    pub fn from_frames(name: String, do_loop: bool, perm: bool, frames: Vec<AnimationFrame>) -> (r:
        Option<Animation>)
        ensures
            r is Some <==> 0 < frames@.len() && (forall|i: int|
                0 <= i < frames@.len() ==> 0 <= (#[trigger] frames@[i]).duration <= TIME_BOUND
                    && frames@[i].x_pos < CELL_BOUND && frames@[i].y_pos < CELL_BOUND),
            r matches Some(a) ==> {
                &&& a.wf()
                &&& a.name == name
                &&& a.do_loop == do_loop
                &&& a.perm == perm
                &&& a.curr_frame == 0
                &&& a.frames@.len() == frames@.len()
                &&& forall|i: int|
                    0 <= i < frames@.len() ==> #[trigger] a.frames@[i] == (AnimationFrame {
                        time_remaining: frames@[i].duration,
                        ..frames@[i]
                    })
            },
    {
        if frames.len() == 0 {
            return None;
        }
        let mut out: Vec<AnimationFrame> = Vec::new();
        let mut i: usize = 0;
        while i < frames.len()
            invariant
                i <= frames@.len(),
                out@.len() == i,
                forall|k: int|
                    0 <= k < i ==> 0 <= (#[trigger] frames@[k]).duration <= TIME_BOUND
                        && frames@[k].x_pos < CELL_BOUND && frames@[k].y_pos < CELL_BOUND,
                forall|k: int|
                    0 <= k < i ==> #[trigger] out@[k] == (AnimationFrame {
                        time_remaining: frames@[k].duration,
                        ..frames@[k]
                    }),
            decreases frames@.len() - i,
        {
            let f = frames[i];
            if !(0 <= f.duration && f.duration <= TIME_BOUND && f.x_pos < CELL_BOUND && f.y_pos
                < CELL_BOUND) {
                return None;
            }
            out.push(
                AnimationFrame {
                    x_pos: f.x_pos,
                    y_pos: f.y_pos,
                    duration: f.duration,
                    time_remaining: f.duration,
                },
            );
            i = i + 1;
        }
        Some(Animation { name, do_loop, perm, curr_frame: 0, frames: out })
    }
}

/// The set of loaded clips, looked up by name at entity creation.
pub struct AnimationManager {
    pub animations: Vec<Animation>,
}

impl AnimationManager {
    /// Index of the first clip with this name.
    pub open spec fn find_spec(&self, name: Seq<char>) -> Option<int> {
        find_by_name(self.animations@, name)
    }

    pub fn new() -> (r: AnimationManager)
        ensures
            r.animations@.len() == 0,
    {
        AnimationManager { animations: Vec::new() }
    }

    /// Registers one loaded clip.
    pub fn add(&mut self, a: Animation)
        ensures
            final(self).animations@ == old(self).animations@.push(a),
    {
        self.animations.push(a);
    }

    /// A fresh copy of the named clip, or `None` exactly when no loaded
    /// clip has the name.
    pub fn get_animation(&self, name: &str) -> (r: Option<Animation>)
        ensures
            match r {
                None => self.find_spec(name@) is None,
                Some(a) => {
                    &&& self.find_spec(name@) matches Some(i)
                    &&& same_clip(a, self.animations@[i])
                },
            },
    {
        let key: String = name.to_owned();
        let mut i: usize = 0;
        while i < self.animations.len()
            invariant
                i <= self.animations@.len(),
                key@ == name@,
                forall|k: int| 0 <= k < i ==> (#[trigger] self.animations@[k]).name@ != name@,
            decreases self.animations@.len() - i,
        {
            if self.animations[i].name == key {
                let r = self.animations[i].instance();
                proof {
                    lemma_find_by_name_hit(self.animations@, name@, i as int);
                }
                return Some(r);
            }
            i = i + 1;
        }
        proof {
            lemma_find_by_name_miss(self.animations@, name@);
        }
        None
    }
}

/// Index of the first animation in `s` named `name`.
pub open spec fn find_by_name(s: Seq<Animation>, name: Seq<char>) -> Option<int>
    decreases s.len(),
{
    if s.len() == 0 {
        None
    } else if s[0].name@ == name {
        Some(0)
    } else {
        match find_by_name(s.drop_first(), name) {
            None => None,
            Some(i) => Some(i + 1),
        }
    }
}

/// If everything before `i` misses and `i` matches, the find returns `i`.
proof fn lemma_find_by_name_hit(s: Seq<Animation>, name: Seq<char>, i: int)
    requires
        0 <= i < s.len(),
        s[i].name@ == name,
        forall|k: int| 0 <= k < i ==> (#[trigger] s[k]).name@ != name,
    ensures
        find_by_name(s, name) == Some(i),
    decreases s.len(),
{
    if i == 0 {
    } else {
        assert(s[0].name@ != name);
        lemma_find_by_name_hit(s.drop_first(), name, i - 1);
    }
}

/// A successful find names an in-range clip with the looked-up name.
pub proof fn lemma_find_by_name_range(s: Seq<Animation>, name: Seq<char>)
    ensures
        find_by_name(s, name) matches Some(i) ==> 0 <= i < s.len() && s[i].name@ == name,
    decreases s.len(),
{
    if s.len() > 0 && s[0].name@ != name {
        lemma_find_by_name_range(s.drop_first(), name);
    }
}

/// If every entry misses, the find returns `None`.
proof fn lemma_find_by_name_miss(s: Seq<Animation>, name: Seq<char>)
    requires
        forall|k: int| 0 <= k < s.len() ==> (#[trigger] s[k]).name@ != name,
    ensures
        find_by_name(s, name) is None,
    decreases s.len(),
{
    if s.len() > 0 {
        lemma_find_by_name_miss(s.drop_first(), name);
    }
}

} // verus!
