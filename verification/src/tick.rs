use vstd::prelude::*;
use crate::animator::{animated_entities, Animator};
use crate::input::{map_events, tick_command, InputEvent};
use crate::keyboard::{resolved_entities, Keyboard};
use crate::physics::{displaced_entities, Physics};
use crate::stage::{Slots, Stage};

verus! {

/// The entities after one tick with the given events: the command of the
/// tick is resolved first, then the entities move, then their animations
/// advance. Each step reads what the step before it wrote.
pub open spec fn updated_entities(
    entities: Map<u32, Slots>,
    events: Seq<InputEvent>,
    cadence: nat,
) -> Map<u32, Slots> {
    animated_entities(
        displaced_entities(resolved_entities(entities, tick_command(events))),
        cadence,
    )
}

/// Runs the systems of one tick, one after another and each to its end: the
/// events are mapped to the command of the tick, which is handed to the
/// keyboard system and then dropped; then the entities move; then their
/// animations advance.
pub fn update(stage: &mut Stage, animator: &mut Animator, events: &Vec<InputEvent>)
    ensures
        final(stage)@ == updated_entities(old(stage)@, events@, old(animator).spec_cadence()),
        final(animator).spec_cadence() == old(animator).spec_cadence(),
{
    let command = map_events(events);
    let mut keyboard = Keyboard;
    keyboard.run(stage, command);
    let mut physics = Physics;
    physics.run(stage);
    animator.run(stage);
}

} // verus!
