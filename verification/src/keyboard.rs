use vstd::prelude::*;
use crate::components::{Direction, MovementCommand, Velocity};
use crate::stage::{joins_controlled, Slots, Stage};

verus! {

/// The speed of an entity that the player moves.
pub const PLAYER_MOVEMENT_SPEED: i32 = 5;

/// The velocity that a command leaves: `Move` sets the player's speed and
/// the direction; `Stop` sets the speed to zero and keeps the direction, so
/// that the entity goes on facing where it went; no command changes nothing.
pub open spec fn resolved(velocity: Velocity, command: Option<MovementCommand>) -> Velocity {
    match command {
        Some(MovementCommand::Move(direction)) => Velocity {
            speed: PLAYER_MOVEMENT_SPEED,
            direction,
        },
        Some(MovementCommand::Stop) => Velocity { speed: 0, direction: velocity.direction },
        None => velocity,
    }
}

/// The components of an entity after the command of a tick: the velocity of
/// a controlled entity is resolved, and nothing else is touched.
pub open spec fn resolved_slots(slots: Slots, command: Option<MovementCommand>) -> Slots {
    if slots.controlled && slots.velocity is Some {
        Slots { velocity: Some(resolved(slots.velocity->0, command)), ..slots }
    } else {
        slots
    }
}

/// The entities after the command of a tick.
pub open spec fn resolved_entities(
    entities: Map<u32, Slots>,
    command: Option<MovementCommand>,
) -> Map<u32, Slots> {
    Map::new(
        |id: u32| entities.dom().contains(id),
        |id: u32| resolved_slots(entities[id], command),
    )
}

/// The entities after a run of ticks, each with its command or none.
pub open spec fn resolved_through(
    entities: Map<u32, Slots>,
    commands: Seq<Option<MovementCommand>>,
) -> Map<u32, Slots>
    decreases commands.len(),
{
    if commands.len() == 0 {
        entities
    } else {
        resolved_entities(resolved_through(entities, commands.drop_last()), commands.last())
    }
}

/// Computes `resolved`.
pub fn resolve_velocity(velocity: Velocity, command: Option<MovementCommand>) -> (next: Velocity)
    ensures
        next == resolved(velocity, command),
{
    match command {
        Some(MovementCommand::Move(direction)) => Velocity {
            speed: PLAYER_MOVEMENT_SPEED,
            direction,
        },
        Some(MovementCommand::Stop) => Velocity { speed: 0, direction: velocity.direction },
        None => velocity,
    }
}

/// The system that turns the command of a tick into the velocity of the
/// controlled entities.
pub struct Keyboard;

impl Keyboard {
    /// Resolves the velocity of every entity that is marked as controlled and
    /// has a velocity, each once, and touches no other entity and no other
    /// component.
    pub fn run(&mut self, stage: &mut Stage, command: Option<MovementCommand>)
        ensures
            final(stage)@ == resolved_entities(old(stage)@, command),
    {
        let ghost before = stage@;
        if command.is_none() {
            assert(stage@ =~= resolved_entities(before, command));
            return;
        }
        let items = stage.controlled_velocities();
        let mut index: usize = 0;
        while index < items.len()
            invariant
                index <= items.len(),
                joins_controlled(items@, before),
                stage@.dom() == before.dom(),
                forall|i: int|
                    0 <= i < index ==> stage@[(#[trigger] items@[i]).0] == resolved_slots(
                        before[items@[i].0],
                        command,
                    ),
                forall|id: u32|
                    #![trigger stage@[id]]
                    before.dom().contains(id) && (forall|i: int|
                        0 <= i < index ==> (#[trigger] items@[i]).0 != id) ==> stage@[id]
                        == before[id],
            decreases items.len() - index,
        {
            let (id, velocity) = items[index];
            let ghost current = stage@;
            let next = resolve_velocity(velocity, command);
            let done = stage.set_velocity(id, next);
            proof {
                assert(done);
                assert(current[id] == before[id]);
                assert(stage@.dom() =~= before.dom());
                assert forall|i: int| 0 <= i < index + 1 implies stage@[(#[trigger] items@[i]).0]
                    == resolved_slots(before[items@[i].0], command) by {
                    if i < index {
                        assert(items@[i].0 != items@[index as int].0);
                    }
                }
            }
            index = index + 1;
        }
        proof {
            assert forall|id: u32| before.dom().contains(id) implies #[trigger] stage@[id]
                == resolved_slots(before[id], command) by {
                if before[id].controlled && before[id].velocity is Some {
                    let i = choose|i: int| 0 <= i < items@.len() && (#[trigger] items@[i]).0 == id;
                    assert(stage@[items@[i].0] == resolved_slots(before[items@[i].0], command));
                } else {
                    assert forall|i: int| 0 <= i < index implies (#[trigger] items@[i]).0
                        != id by {}
                }
            }
            assert(stage@ =~= resolved_entities(before, command));
        }
    }
}

/// After `Move(direction)` a controlled entity has the player's speed and
/// that direction. After `Stop` its speed is zero and its direction is the
/// one it had.
pub proof fn lemma_command_sets_velocity(velocity: Velocity, direction: Direction)
    ensures
        resolved(velocity, Some(MovementCommand::Move(direction))) == (Velocity {
            speed: PLAYER_MOVEMENT_SPEED,
            direction,
        }),
        resolved(velocity, Some(MovementCommand::Stop)).speed == 0,
        resolved(velocity, Some(MovementCommand::Stop)).direction == velocity.direction,
{
}

/// No command makes a speed negative: a command sets a speed that is not
/// negative, and without a command the speed stays.
pub proof fn lemma_speed_stays_valid(velocity: Velocity, command: Option<MovementCommand>)
    ensures
        command is Some ==> resolved(velocity, command).wf(),
        velocity.wf() ==> resolved(velocity, command).wf(),
{
}

/// The same of every entity of a stage: after a command each controlled
/// entity that has a velocity has the resolved one, and every other
/// component, and every entity that is not controlled, is as it was.
pub proof fn lemma_command_reaches_controlled(
    entities: Map<u32, Slots>,
    command: MovementCommand,
    id: u32,
)
    requires
        entities.dom().contains(id),
    ensures
        resolved_entities(entities, Some(command)).dom() == entities.dom(),
        entities[id].controlled && entities[id].velocity is Some ==> resolved_entities(
            entities,
            Some(command),
        )[id].velocity == Some(resolved(entities[id].velocity->0, Some(command))),
        !entities[id].controlled ==> resolved_entities(entities, Some(command))[id] == entities[id],
        resolved_entities(entities, Some(command))[id].controlled == entities[id].controlled,
        resolved_entities(entities, Some(command))[id].position == entities[id].position,
        resolved_entities(entities, Some(command))[id].sprite == entities[id].sprite,
        resolved_entities(entities, Some(command))[id].animation == entities[id].animation,
{
    assert(resolved_entities(entities, Some(command)).dom() =~= entities.dom());
}

/// Ticks without a command change nothing, however many there are.
pub proof fn lemma_idle_ticks_change_nothing(
    entities: Map<u32, Slots>,
    commands: Seq<Option<MovementCommand>>,
)
    requires
        forall|i: int| 0 <= i < commands.len() ==> commands[i] is None,
    ensures
        resolved_through(entities, commands) == entities,
    decreases commands.len(),
{
    if commands.len() > 0 {
        lemma_idle_ticks_change_nothing(entities, commands.drop_last());
        assert(resolved_entities(entities, None) =~= entities);
    }
}

} // verus!
