use vstd::prelude::*;
use vstd::arithmetic::div_mod::{
    lemma_basic_div,
    lemma_fundamental_div_mod,
    lemma_fundamental_div_mod_converse_div,
    lemma_fundamental_div_mod_converse_mod,
    lemma_mod_pos_bound,
    lemma_small_mod,
};
use crate::components::{Direction, MovementAnimation, MovementAnimationView, Sprite};
use crate::geometry::{clamp_coordinate, clamp_position, Region};
use crate::stage::{joins_animated, Slots, Stage};

verus! {

/// The number of frames of each walk cycle of a character sheet.
pub const FRAMES_PER_DIRECTION: usize = 3;

/// The number of ticks that a moving entity shows one frame.
pub const ANIMATION_CADENCE: u32 = 3;

/// The row of the character sheet that holds the walk cycle of a direction.
/// The layout of the sheet is this table and nothing else.
pub open spec fn row_of(direction: Direction) -> int {
    match direction {
        Direction::Up => 3,
        Direction::Down => 0,
        Direction::Left => 1,
        Direction::Right => 2,
    }
}

/// Looks the row of a direction up in the table `row_of`.
pub fn get_spritesheet_row_from_direction(direction: Direction) -> (row: i32)
    ensures
        row == row_of(direction),
        0 <= row <= 3,
{
    match direction {
        Direction::Up => 3,
        Direction::Down => 0,
        Direction::Left => 1,
        Direction::Right => 2,
    }
}

/// Each direction has a row of its own.
pub proof fn lemma_rows_are_distinct(a: Direction, b: Direction)
    ensures
        row_of(a) == row_of(b) <==> a == b,
{
}

/// Frame `index` of the walk cycle of `direction` on a character sheet whose
/// first frame is `initial_frame`: the frames of a cycle lie side by side in
/// the row of the direction, each of the size of the first. A corner beyond
/// the coordinate bounds is clamped to them.
pub open spec fn walk_frame(
    spritesheet: usize,
    initial_frame: Region,
    direction: Direction,
    index: int,
) -> Sprite {
    Sprite {
        spritesheet,
        region: Region::clamped(
            initial_frame.x + initial_frame.width * index,
            initial_frame.y + initial_frame.height * row_of(direction),
            initial_frame.width as int,
            initial_frame.height as int,
        ),
    }
}

/// The walk cycle of `direction`, cut from atlas `spritesheet`.
pub open spec fn walk_cycle(spritesheet: usize, initial_frame: Region, direction: Direction) -> Seq<
    Sprite,
> {
    Seq::new(
        FRAMES_PER_DIRECTION as nat,
        |index: int| walk_frame(spritesheet, initial_frame, direction, index),
    )
}

/// Cuts the walk cycle of `direction` from a character sheet.
pub fn create_character_animation_frames(
    spritesheet: usize,
    initial_frame: Region,
    direction: Direction,
) -> (frames: Vec<Sprite>)
    ensures
        frames@ == walk_cycle(spritesheet, initial_frame, direction),
        frames@.len() == FRAMES_PER_DIRECTION,
{
    let frame_width: u32 = initial_frame.width;
    let frame_height: u32 = initial_frame.height;
    let row: i32 = get_spritesheet_row_from_direction(direction);
    assert(frame_height * row <= 3 * 0xffff_ffff) by (nonlinear_arith)
        requires
            0 <= row <= 3,
            0 <= frame_height <= 0xffff_ffff,
    ;
    assert(frame_height * row >= 0) by (nonlinear_arith)
        requires
            0 <= row <= 3,
            0 <= frame_height <= 0xffff_ffff,
    ;
    let y_offset: i32 = clamp_coordinate(
        initial_frame.y as i64 + frame_height as i64 * row as i64,
    );

    let mut frames: Vec<Sprite> = Vec::new();
    let mut index: usize = 0;
    while index < FRAMES_PER_DIRECTION
        invariant
            index <= FRAMES_PER_DIRECTION,
            frame_width == initial_frame.width,
            frame_height == initial_frame.height,
            y_offset == clamp_position(
                initial_frame.y + initial_frame.height * row_of(direction),
            ),
            frames@.len() == index,
            forall|i: int|
                0 <= i < index ==> frames@[i] == walk_frame(
                    spritesheet,
                    initial_frame,
                    direction,
                    i,
                ),
        decreases FRAMES_PER_DIRECTION - index,
    {
        assert(frame_width * index <= 2 * 0xffff_ffff) by (nonlinear_arith)
            requires
                0 <= index <= 2,
                0 <= frame_width <= 0xffff_ffff,
        ;
        assert(frame_width * index >= 0) by (nonlinear_arith)
            requires
                0 <= index <= 2,
                0 <= frame_width <= 0xffff_ffff,
        ;
        let x_offset: i32 = clamp_coordinate(
            initial_frame.x as i64 + frame_width as i64 * index as i64,
        );
        frames.push(
            Sprite {
                spritesheet,
                region: Region::new(x_offset, y_offset, frame_width, frame_height),
            },
        );
        index = index + 1;
    }
    assert(frames@ =~= walk_cycle(spritesheet, initial_frame, direction));
    frames
}

/// The animation of a character, cut from atlas `spritesheet`: the four
/// walk cycles, starting at frame 0.
pub open spec fn character_animation(spritesheet: usize, initial_frame: Region) -> MovementAnimationView {
    MovementAnimationView {
        current_frame: 0,
        elapsed: 0,
        up_frames: walk_cycle(spritesheet, initial_frame, Direction::Up),
        down_frames: walk_cycle(spritesheet, initial_frame, Direction::Down),
        left_frames: walk_cycle(spritesheet, initial_frame, Direction::Left),
        right_frames: walk_cycle(spritesheet, initial_frame, Direction::Right),
    }
}

/// Cuts the four walk cycles of a character from its sheet and assembles
/// them.
pub fn create_character_animation(spritesheet: usize, initial_frame: Region) -> (animation:
    MovementAnimation)
    ensures
        animation@ == character_animation(spritesheet, initial_frame),
        animation@.wf(),
{
    let up_frames = create_character_animation_frames(spritesheet, initial_frame, Direction::Up);
    let down_frames = create_character_animation_frames(
        spritesheet,
        initial_frame,
        Direction::Down,
    );
    let left_frames = create_character_animation_frames(
        spritesheet,
        initial_frame,
        Direction::Left,
    );
    let right_frames = create_character_animation_frames(
        spritesheet,
        initial_frame,
        Direction::Right,
    );
    match MovementAnimation::new(up_frames, down_frames, left_frames, right_frames) {
        Ok(animation) => animation,
        Err(_) => {
            proof {
                assert(false);
            }
            unreached()
        },
    }
}

/// One more tick moves the quotient and the remainder of a tick count as a
/// counter with carry does.
proof fn lemma_next_tick(k: int, c: int)
    requires
        k >= 0,
        c >= 1,
    ensures
        0 <= k % c < c,
        k % c + 1 < c ==> (k + 1) / c == k / c && (k + 1) % c == k % c + 1,
        k % c + 1 >= c ==> (k + 1) / c == k / c + 1 && (k + 1) % c == 0,
{
    lemma_fundamental_div_mod(k, c);
    lemma_mod_pos_bound(k, c);
    let q = k / c;
    let r = k % c;
    if r + 1 < c {
        assert(k + 1 == q * c + (r + 1)) by (nonlinear_arith)
            requires
                k == c * q + r,
        ;
        lemma_fundamental_div_mod_converse_div(k + 1, c, q, r + 1);
        lemma_fundamental_div_mod_converse_mod(k + 1, c, q, r + 1);
    } else {
        assert(k + 1 == (q + 1) * c + 0) by (nonlinear_arith)
            requires
                k == c * q + r,
                r + 1 == c,
        ;
        lemma_fundamental_div_mod_converse_div(k + 1, c, q + 1, 0);
        lemma_fundamental_div_mod_converse_mod(k + 1, c, q + 1, 0);
    }
}

/// The successor of a frame index, taken around the cycle, is the successor
/// of the count that the index stands for.
proof fn lemma_next_frame(x: int, m: int)
    requires
        x >= 0,
        m >= 1,
    ensures
        (x % m + 1) % m == (x + 1) % m,
{
    lemma_next_tick(x, m);
    if x % m + 1 < m {
        lemma_small_mod((x % m + 1) as nat, m as nat);
    } else {
        lemma_fundamental_div_mod_converse_mod(m, m, 1, 0);
    }
}

/// Frames wrap around. An animation that has spent `elapsed` ticks on its
/// frame and then moves for `ticks` ticks, at one step every `cadence` ticks,
/// has taken `(elapsed + ticks) / cadence` steps around its cycle: it shows
/// frame `(initial + (elapsed + ticks) / cadence) mod count`, which is always
/// an index into the cycle. Counted from a fresh frame that is
/// `(initial + ticks / cadence) mod count`. The walk cycles themselves never
/// change.
pub proof fn lemma_frame_after_ticks(animation: MovementAnimationView, cadence: nat, ticks: nat)
    requires
        animation.wf(),
        1 <= cadence <= u32::MAX,
        animation.elapsed < cadence,
    ensures
        ({
            let later = animation.advanced_by(cadence, ticks);
            let count = animation.frame_count() as int;
            let initial = animation.current_frame as int;
            let spent = animation.elapsed as int;
            let n = ticks as int;
            let c = cadence as int;
            &&& later.wf()
            &&& later.up_frames == animation.up_frames
            &&& later.down_frames == animation.down_frames
            &&& later.left_frames == animation.left_frames
            &&& later.right_frames == animation.right_frames
            &&& later.current_frame < animation.frame_count()
            &&& later.elapsed == (spent + n) % c
            &&& later.current_frame == (initial + (spent + n) / c) % count
            &&& spent == 0 ==> later.current_frame == (initial + n / c) % count
            &&& spent == 0 && count == 3 ==> later.current_frame == (initial + n / c) % 3
        }),
    decreases ticks,
{
    let count = animation.frame_count() as int;
    let c = cadence as int;
    if ticks == 0 {
        lemma_small_mod(animation.elapsed, cadence);
        lemma_basic_div(animation.elapsed as int, c);
        lemma_small_mod(animation.current_frame, animation.frame_count());
        assert(animation.advanced_by(cadence, 0) == animation);
    } else {
        let before = animation.advanced_by(cadence, (ticks - 1) as nat);
        lemma_frame_after_ticks(animation, cadence, (ticks - 1) as nat);
        let k = animation.elapsed + ticks - 1;
        lemma_next_tick(k, c);
        let steps = animation.current_frame + k / c;
        assert(steps >= 0) by {
            lemma_fundamental_div_mod(k, c);
            assert(k / c >= 0) by (nonlinear_arith)
                requires
                    k >= 0,
                    c >= 1,
                    k == c * (k / c) + k % c,
                    0 <= k % c < c,
            ;
        }
        lemma_next_frame(steps, count);
        lemma_mod_pos_bound(steps + 1, count);
        lemma_mod_pos_bound(steps, count);
    }
}

/// The components of an entity after the animation step of a tick. An
/// entity that has an animation, a sprite and a velocity, and moves, counts
/// the tick and shows the current frame of the cycle of its direction. An
/// entity that stands still is frozen: it keeps its frame, its count and its
/// sprite. Nothing else is touched.
pub open spec fn animated_slots(slots: Slots, cadence: nat) -> Slots {
    if slots.animation is Some && slots.sprite is Some && slots.velocity is Some
        && slots.velocity->0.is_moving() {
        let next = slots.animation->0.advanced(cadence);
        Slots {
            animation: Some(next),
            sprite: Some(next.current_sprite(slots.velocity->0.direction)),
            ..slots
        }
    } else {
        slots
    }
}

/// The entities after the animation step of a tick.
pub open spec fn animated_entities(entities: Map<u32, Slots>, cadence: nat) -> Map<u32, Slots> {
    Map::new(
        |id: u32| entities.dom().contains(id),
        |id: u32| animated_slots(entities[id], cadence),
    )
}

/// The system that lets moving entities walk through their cycles, at one
/// step every `cadence` ticks.
pub struct Animator {
    cadence: u32,
}

impl Animator {
    #[verifier::type_invariant]
    spec fn inv(self) -> bool {
        self.cadence >= 1
    }

    /// The number of ticks that a frame is shown.
    pub closed spec fn spec_cadence(self) -> nat {
        self.cadence as nat
    }

    /// An animator of the given cadence; none for a cadence of zero.
    pub fn new(cadence: u32) -> (animator: Option<Animator>)
        ensures
            animator is None <==> cadence == 0,
            animator is Some ==> animator->0.spec_cadence() == cadence,
    {
        if cadence == 0 {
            None
        } else {
            Some(Animator { cadence })
        }
    }

    /// The number of ticks that a frame is shown.
    pub fn cadence(&self) -> (cadence: u32)
        ensures
            cadence == self.spec_cadence(),
            cadence >= 1,
    {
        proof {
            use_type_invariant(self);
        }
        self.cadence
    }

    /// Advances the animation of every moving entity that has an animation,
    /// a sprite and a velocity, each once, and replaces its sprite as a
    /// whole by the frame that it now shows.
    pub fn run(&mut self, stage: &mut Stage)
        ensures
            final(stage)@ == animated_entities(old(stage)@, old(self).spec_cadence()),
            final(self).spec_cadence() == old(self).spec_cadence(),
    {
        let ghost before = stage@;
        let cadence: u32 = self.cadence;
        let ghost pace = cadence as nat;
        let mut items = stage.animated();
        let ghost all = items@;
        while items.len() > 0
            invariant
                pace == cadence,
                items@.len() <= all.len(),
                items@ == all.take(items@.len() as int),
                joins_animated(all, before),
                stage@.dom() == before.dom(),
                forall|i: int|
                    items@.len() <= i < all.len() ==> stage@[(#[trigger] all[i]).0]
                        == animated_slots(before[all[i].0], pace),
                forall|id: u32|
                    #![trigger stage@[id]]
                    before.dom().contains(id) && (forall|i: int|
                        items@.len() <= i < all.len() ==> (#[trigger] all[i]).0 != id)
                        ==> stage@[id] == before[id],
            decreases items.len(),
        {
            let ghost rest = items@.len() - 1;
            let item = items.pop();
            let ghost current = stage@;
            match item {
                Some((id, animation, velocity)) => {
                    assert(all[rest] == (id, animation, velocity));
                    assert(current[id] == before[id]);
                    if velocity.speed > 0 {
                        let mut animation = animation;
                        animation.advance(cadence);
                        let sprite = animation.current_sprite(velocity.direction);
                        let shown = stage.set_sprite(id, sprite);
                        let kept = stage.set_animation(id, animation);
                        assert(shown && kept);
                    }
                    proof {
                        assert(stage@.dom() =~= before.dom());
                        assert(stage@[id] == animated_slots(before[id], pace));
                        assert(items@ =~= all.take(rest));
                        assert forall|i: int| rest <= i < all.len() implies stage@[(
                        #[trigger] all[i]).0] == animated_slots(before[all[i].0], pace) by {
                            if i > rest {
                                assert(all[rest].0 != all[i].0);
                            }
                        }
                    }
                },
                None => {},
            }
        }
        proof {
            assert forall|id: u32| before.dom().contains(id) implies #[trigger] stage@[id]
                == animated_slots(before[id], pace) by {
                if before[id].animation is Some && before[id].sprite is Some
                    && before[id].velocity is Some {
                    let i = choose|i: int| 0 <= i < all.len() && (#[trigger] all[i]).0 == id;
                    assert(stage@[all[i].0] == animated_slots(before[all[i].0], pace));
                } else {
                    assert forall|i: int| 0 <= i < all.len() implies (#[trigger] all[i]).0
                        != id by {}
                }
            }
            assert(stage@ =~= animated_entities(before, pace));
        }
    }
}

/// The animation step of a tick writes animations and sprites and nothing
/// else, and makes and removes no entity.
pub proof fn lemma_animator_writes_frames_only(entities: Map<u32, Slots>, cadence: nat, id: u32)
    requires
        entities.dom().contains(id),
    ensures
        animated_entities(entities, cadence).dom() == entities.dom(),
        animated_entities(entities, cadence)[id].controlled == entities[id].controlled,
        animated_entities(entities, cadence)[id].position == entities[id].position,
        animated_entities(entities, cadence)[id].velocity == entities[id].velocity,
        animated_entities(entities, cadence)[id].sprite is Some <==> entities[id].sprite is Some,
        animated_entities(entities, cadence)[id].animation is Some <==> entities[id].animation
            is Some,
{
    assert(animated_entities(entities, cadence).dom() =~= entities.dom());
}

/// The components of an entity after the animation steps of `ticks` ticks,
/// with nothing else done to it in between.
pub open spec fn animated_slots_by(slots: Slots, cadence: nat, ticks: nat) -> Slots
    decreases ticks,
{
    if ticks == 0 {
        slots
    } else {
        animated_slots(animated_slots_by(slots, cadence, (ticks - 1) as nat), cadence)
    }
}

/// A moving entity walks: after `ticks` ticks its animation has advanced by
/// as many, and from the first tick on its sprite is the frame that the
/// animation shows for its direction. Its velocity and its other components
/// are as they were.
pub proof fn lemma_moving_entities_walk(slots: Slots, cadence: nat, ticks: nat)
    requires
        slots.animation is Some,
        slots.sprite is Some,
        slots.velocity is Some,
        slots.velocity->0.is_moving(),
    ensures
        ({
            let later = animated_slots_by(slots, cadence, ticks);
            let animation = slots.animation->0.advanced_by(cadence, ticks);
            &&& later.animation == Some(animation)
            &&& later.velocity == slots.velocity
            &&& later.position == slots.position
            &&& later.controlled == slots.controlled
            &&& ticks > 0 ==> later.sprite == Some(
                animation.current_sprite(slots.velocity->0.direction),
            )
            &&& ticks == 0 ==> later.sprite == slots.sprite
        }),
    decreases ticks,
{
    if ticks > 0 {
        lemma_moving_entities_walk(slots, cadence, (ticks - 1) as nat);
    }
}

/// An entity that stands still is frozen: however many ticks pass, it keeps
/// its frame, its tick count and its sprite.
pub proof fn lemma_standing_entities_freeze(slots: Slots, cadence: nat, ticks: nat)
    requires
        slots.velocity is Some ==> !slots.velocity->0.is_moving(),
    ensures
        animated_slots_by(slots, cadence, ticks) == slots,
    decreases ticks,
{
    if ticks > 0 {
        lemma_standing_entities_freeze(slots, cadence, (ticks - 1) as nat);
    }
}

} // verus!
