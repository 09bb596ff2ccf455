use vstd::prelude::*;
use crate::geometry::Region;

verus! {

/// The four ways an entity can face. The set is closed, and nothing orders it:
/// a direction only picks a row of the sprite atlas and a walk cycle.
#[derive(Clone, Copy, Debug, PartialEq, Eq, Structural)]
pub enum Direction {
    Up,
    Down,
    Left,
    Right,
}

/// How fast an entity moves and where it faces. A speed of zero means that
/// the entity stands still, whatever its direction.
#[derive(Clone, Copy, Debug, PartialEq, Eq, Structural)]
pub struct Velocity {
    pub speed: i32,
    pub direction: Direction,
}

impl Velocity {
    /// The speed is not negative.
    pub open spec fn wf(self) -> bool {
        self.speed >= 0
    }

    /// The entity moves: its speed is above zero.
    pub open spec fn is_moving(self) -> bool {
        self.speed > 0
    }
}

/// The frame that an entity shows: an atlas, by its index in the fixed array
/// of atlases, and a rectangle within it.
#[derive(Clone, Copy, Debug, PartialEq, Eq, Structural)]
pub struct Sprite {
    pub spritesheet: usize,
    pub region: Region,
}

/// Marks the entity whose velocity the player's input drives.
#[derive(Clone, Copy, Debug, PartialEq, Eq, Structural)]
pub struct KeyboardControlled;

/// The one movement intent of a tick.
#[derive(Clone, Copy, Debug, PartialEq, Eq, Structural)]
pub enum MovementCommand {
    Stop,
    Move(Direction),
}

/// Why four walk cycles make no `MovementAnimation`.
#[derive(Clone, Copy, Debug, PartialEq, Eq, Structural)]
pub enum AnimationError {
    /// At least one of the four cycles has no frame.
    NoFrames,
    /// Every cycle has a frame, but the cycles differ in length.
    UnequalFrames,
}

/// What a `MovementAnimation` holds, as mathematical values.
pub struct MovementAnimationView {
    pub current_frame: nat,
    pub elapsed: nat,
    pub up_frames: Seq<Sprite>,
    pub down_frames: Seq<Sprite>,
    pub left_frames: Seq<Sprite>,
    pub right_frames: Seq<Sprite>,
}

impl MovementAnimationView {
    /// The number of frames of each walk cycle.
    pub open spec fn frame_count(self) -> nat {
        self.up_frames.len()
    }

    /// The walk cycle of a direction.
    pub open spec fn frames(self, direction: Direction) -> Seq<Sprite> {
        match direction {
            Direction::Up => self.up_frames,
            Direction::Down => self.down_frames,
            Direction::Left => self.left_frames,
            Direction::Right => self.right_frames,
        }
    }

    /// The four cycles have one length, which is not zero; the current frame
    /// is an index into them; the tick counter leaves room for one more tick.
    pub open spec fn wf(self) -> bool {
        &&& self.up_frames.len() > 0
        &&& self.down_frames.len() == self.up_frames.len()
        &&& self.left_frames.len() == self.up_frames.len()
        &&& self.right_frames.len() == self.up_frames.len()
        &&& self.current_frame < self.up_frames.len()
        &&& self.elapsed < u32::MAX
    }

    /// The frame to show when facing `direction`.
    pub open spec fn current_sprite(self, direction: Direction) -> Sprite {
        self.frames(direction)[self.current_frame as int]
    }

    /// The animation one tick of movement later, at one step every `cadence`
    /// ticks: the tick is counted, and when the count reaches `cadence` the
    /// next frame is taken, the one after the last being the first, and the
    /// count starts again.
    pub open spec fn advanced(self, cadence: nat) -> MovementAnimationView {
        if self.elapsed + 1 >= cadence {
            MovementAnimationView {
                current_frame: ((self.current_frame + 1) % self.frame_count()) as nat,
                elapsed: 0,
                ..self
            }
        } else {
            MovementAnimationView { elapsed: self.elapsed + 1, ..self }
        }
    }

    /// The animation after `ticks` ticks of movement.
    pub open spec fn advanced_by(self, cadence: nat, ticks: nat) -> MovementAnimationView
        decreases ticks,
    {
        if ticks == 0 {
            self
        } else {
            self.advanced_by(cadence, (ticks - 1) as nat).advanced(cadence)
        }
    }
}

/// Whether four walk cycles can make a `MovementAnimation`, and if not, why.
pub open spec fn frames_verdict(up: nat, down: nat, left: nat, right: nat) -> Option<
    AnimationError,
> {
    if up == 0 || down == 0 || left == 0 || right == 0 {
        Some(AnimationError::NoFrames)
    } else if down != up || left != up || right != up {
        Some(AnimationError::UnequalFrames)
    } else {
        None
    }
}

/// The walk cycles of an entity, one per direction and all of one length,
/// with the index of the frame now shown and the number of ticks spent on it.
#[derive(Debug)]
pub struct MovementAnimation {
    current_frame: usize,
    elapsed: u32,
    up_frames: Vec<Sprite>,
    down_frames: Vec<Sprite>,
    left_frames: Vec<Sprite>,
    right_frames: Vec<Sprite>,
}

impl View for MovementAnimation {
    type V = MovementAnimationView;

    closed spec fn view(&self) -> MovementAnimationView {
        MovementAnimationView {
            current_frame: self.current_frame as nat,
            elapsed: self.elapsed as nat,
            up_frames: self.up_frames@,
            down_frames: self.down_frames@,
            left_frames: self.left_frames@,
            right_frames: self.right_frames@,
        }
    }
}

/// A new vector with the frames of `frames`, in their order.
fn copy_frames(frames: &Vec<Sprite>) -> (copy: Vec<Sprite>)
    ensures
        copy@ == frames@,
{
    let mut copy: Vec<Sprite> = Vec::new();
    let mut i: usize = 0;
    while i < frames.len()
        invariant
            i <= frames.len(),
            copy@ == frames@.take(i as int),
        decreases frames.len() - i,
    {
        copy.push(frames[i]);
        i = i + 1;
        assert(copy@ == frames@.take(i as int));
    }
    assert(frames@.take(frames.len() as int) == frames@);
    copy
}

impl Clone for MovementAnimation {
    fn clone(&self) -> (copy: Self)
        ensures
            copy@ == self@,
    {
        proof {
            use_type_invariant(self);
        }
        MovementAnimation {
            current_frame: self.current_frame,
            elapsed: self.elapsed,
            up_frames: copy_frames(&self.up_frames),
            down_frames: copy_frames(&self.down_frames),
            left_frames: copy_frames(&self.left_frames),
            right_frames: copy_frames(&self.right_frames),
        }
    }
}

impl MovementAnimation {
    #[verifier::type_invariant]
    spec fn inv(self) -> bool {
        self@.wf()
    }

    /// Assembles an animation that starts at frame 0 with no tick spent on
    /// it. Cycles of unequal length, or without a frame, are refused here, so
    /// that no later frame selection can meet them.
    pub fn new(
        up_frames: Vec<Sprite>,
        down_frames: Vec<Sprite>,
        left_frames: Vec<Sprite>,
        right_frames: Vec<Sprite>,
    ) -> (r: Result<MovementAnimation, AnimationError>)
        ensures
            match frames_verdict(
                up_frames@.len(),
                down_frames@.len(),
                left_frames@.len(),
                right_frames@.len(),
            ) {
                Some(e) => r == Err::<MovementAnimation, AnimationError>(e),
                None => r is Ok && r->Ok_0@ == (MovementAnimationView {
                    current_frame: 0,
                    elapsed: 0,
                    up_frames: up_frames@,
                    down_frames: down_frames@,
                    left_frames: left_frames@,
                    right_frames: right_frames@,
                }) && r->Ok_0@.wf(),
            },
    {
        let n: usize = up_frames.len();
        if n == 0 || down_frames.len() == 0 || left_frames.len() == 0 || right_frames.len() == 0 {
            return Err(AnimationError::NoFrames);
        }
        if down_frames.len() != n || left_frames.len() != n || right_frames.len() != n {
            return Err(AnimationError::UnequalFrames);
        }
        Ok(MovementAnimation {
            current_frame: 0,
            elapsed: 0,
            up_frames,
            down_frames,
            left_frames,
            right_frames,
        })
    }

    /// The index of the frame now shown.
    pub fn current_frame(&self) -> (i: usize)
        ensures
            i == self@.current_frame,
            i < self@.frame_count(),
    {
        proof {
            use_type_invariant(self);
        }
        self.current_frame
    }

    /// The number of ticks already spent on the current frame.
    pub fn elapsed(&self) -> (t: u32)
        ensures
            t == self@.elapsed,
    {
        self.elapsed
    }

    /// The number of frames of each walk cycle.
    pub fn frame_count(&self) -> (n: usize)
        ensures
            n == self@.frame_count(),
            n > 0,
    {
        proof {
            use_type_invariant(self);
        }
        self.up_frames.len()
    }

    /// The walk cycle of a direction.
    pub fn frames(&self, direction: Direction) -> (frames: &Vec<Sprite>)
        ensures
            frames@ == self@.frames(direction),
            frames@.len() == self@.frame_count(),
    {
        proof {
            use_type_invariant(self);
        }
        match direction {
            Direction::Up => &self.up_frames,
            Direction::Down => &self.down_frames,
            Direction::Left => &self.left_frames,
            Direction::Right => &self.right_frames,
        }
    }

    /// Counts one tick of movement and, every `cadence` ticks, takes the next
    /// frame of the cycle. A cadence of 0 steps on every tick, as 1 does.
    pub fn advance(&mut self, cadence: u32)
        ensures
            final(self)@ == old(self)@.advanced(cadence as nat),
            final(self)@.wf(),
    {
        proof {
            use_type_invariant(&*self);
        }
        if self.elapsed + 1 >= cadence {
            let count: usize = self.up_frames.len();
            let next: usize = (self.current_frame + 1) % count;
            self.current_frame = next;
            self.elapsed = 0;
        } else {
            self.elapsed = self.elapsed + 1;
        }
    }

    /// The frame to show when facing `direction`.
    pub fn current_sprite(&self, direction: Direction) -> (sprite: Sprite)
        ensures
            sprite == self@.current_sprite(direction),
    {
        proof {
            use_type_invariant(self);
        }
        let frames = self.frames(direction);
        frames[self.current_frame]
    }
}

} // verus!
