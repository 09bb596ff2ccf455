use vstd::prelude::*;
use crate::components::{Direction, Velocity};
use crate::geometry::{clamp_coordinate, Position};
use crate::stage::{joins_movable, Slots, Stage};

verus! {

/// Where a tick takes an entity: `speed` pixels the way it faces, on a
/// screen whose `y` grows downwards. An entity of speed zero stays where it
/// is, whatever its direction.
pub open spec fn displaced(position: Position, velocity: Velocity) -> Position {
    if velocity.speed == 0 {
        position
    } else {
        match velocity.direction {
            Direction::Left => position.shifted(-(velocity.speed as int), 0),
            Direction::Right => position.shifted(velocity.speed as int, 0),
            Direction::Up => position.shifted(0, -(velocity.speed as int)),
            Direction::Down => position.shifted(0, velocity.speed as int),
        }
    }
}

/// The components of an entity after the movement of a tick.
pub open spec fn displaced_slots(slots: Slots) -> Slots {
    if slots.position is Some && slots.velocity is Some {
        Slots { position: Some(displaced(slots.position->0, slots.velocity->0)), ..slots }
    } else {
        slots
    }
}

/// The entities after the movement of a tick.
pub open spec fn displaced_entities(entities: Map<u32, Slots>) -> Map<u32, Slots> {
    Map::new(|id: u32| entities.dom().contains(id), |id: u32| displaced_slots(entities[id]))
}

/// Computes `displaced`.
pub fn displace(position: Position, velocity: Velocity) -> (next: Position)
    ensures
        next == displaced(position, velocity),
{
    if velocity.speed == 0 {
        return position;
    }
    let x: i64 = position.x as i64;
    let y: i64 = position.y as i64;
    let speed: i64 = velocity.speed as i64;
    match velocity.direction {
        Direction::Left => Position { x: clamp_coordinate(x - speed), y: clamp_coordinate(y) },
        Direction::Right => Position { x: clamp_coordinate(x + speed), y: clamp_coordinate(y) },
        Direction::Up => Position { x: clamp_coordinate(x), y: clamp_coordinate(y - speed) },
        Direction::Down => Position { x: clamp_coordinate(x), y: clamp_coordinate(y + speed) },
    }
}

/// The system that moves the entities by their velocities.
pub struct Physics;

impl Physics {
    /// Moves every entity that has a position and a velocity, each once, and
    /// touches no other entity and no other component.
    pub fn run(&mut self, stage: &mut Stage)
        ensures
            final(stage)@ == displaced_entities(old(stage)@),
    {
        let ghost before = stage@;
        let items = stage.movable();
        let mut index: usize = 0;
        while index < items.len()
            invariant
                index <= items.len(),
                joins_movable(items@, before),
                stage@.dom() == before.dom(),
                forall|i: int|
                    0 <= i < index ==> stage@[(#[trigger] items@[i]).0] == displaced_slots(
                        before[items@[i].0],
                    ),
                forall|id: u32|
                    #![trigger stage@[id]]
                    before.dom().contains(id) && (forall|i: int|
                        0 <= i < index ==> (#[trigger] items@[i]).0 != id) ==> stage@[id]
                        == before[id],
            decreases items.len() - index,
        {
            let (id, position, velocity) = items[index];
            let ghost current = stage@;
            let next = displace(position, velocity);
            let done = stage.set_position(id, next);
            proof {
                assert(done);
                assert(current[id] == before[id]);
                assert(stage@.dom() =~= before.dom());
                assert forall|i: int| 0 <= i < index + 1 implies stage@[(#[trigger] items@[i]).0]
                    == displaced_slots(before[items@[i].0]) by {
                    if i < index {
                        assert(items@[i].0 != items@[index as int].0);
                    }
                }
            }
            index = index + 1;
        }
        proof {
            assert forall|id: u32| before.dom().contains(id) implies #[trigger] stage@[id]
                == displaced_slots(before[id]) by {
                if before[id].position is Some && before[id].velocity is Some {
                    let i = choose|i: int| 0 <= i < items@.len() && (#[trigger] items@[i]).0 == id;
                    assert(stage@[items@[i].0] == displaced_slots(before[items@[i].0]));
                } else {
                    assert forall|i: int| 0 <= i < index implies (#[trigger] items@[i]).0
                        != id by {}
                }
            }
            assert(stage@ =~= displaced_entities(before));
        }
    }
}

/// The movement of a tick writes positions and nothing else, and makes and
/// removes no entity.
pub proof fn lemma_physics_writes_positions_only(entities: Map<u32, Slots>, id: u32)
    requires
        entities.dom().contains(id),
    ensures
        displaced_entities(entities).dom() == entities.dom(),
        displaced_entities(entities)[id].controlled == entities[id].controlled,
        displaced_entities(entities)[id].velocity == entities[id].velocity,
        displaced_entities(entities)[id].sprite == entities[id].sprite,
        displaced_entities(entities)[id].animation == entities[id].animation,
        displaced_entities(entities)[id].position is Some <==> entities[id].position is Some,
{
    assert(displaced_entities(entities).dom() =~= entities.dom());
}

/// An entity of speed zero does not move, whatever its direction.
pub proof fn lemma_standing_entities_stay(position: Position, direction: Direction)
    ensures
        displaced(position, (Velocity { speed: 0, direction })) == position,
{
}

} // verus!
