use vstd::prelude::*;
use crate::components::{Direction, MovementCommand};

verus! {

/// A key of the keyboard, as far as the game tells keys apart.
#[derive(Clone, Copy, Debug, PartialEq, Eq, Structural)]
pub enum Key {
    Up,
    Down,
    Left,
    Right,
    Escape,
    Other,
}

/// One event of the input stream. `repeat` is set on the events that a key
/// held down keeps sending.
#[derive(Clone, Copy, Debug, PartialEq, Eq, Structural)]
pub enum InputEvent {
    Quit,
    KeyDown { key: Key, repeat: bool },
    KeyUp { key: Key, repeat: bool },
    Other,
}

/// The direction that a key stands for, if it is one of the four arrows.
pub open spec fn key_direction(key: Key) -> Option<Direction> {
    match key {
        Key::Up => Some(Direction::Up),
        Key::Down => Some(Direction::Down),
        Key::Left => Some(Direction::Left),
        Key::Right => Some(Direction::Right),
        _ => None,
    }
}

/// The command that one event gives: an arrow going down asks to move its
/// way, an arrow going up asks to stop. Repeats, other keys and other events
/// give none.
pub open spec fn event_command(event: InputEvent) -> Option<MovementCommand> {
    match event {
        InputEvent::KeyDown { key, repeat } => match key_direction(key) {
            Some(direction) if !repeat => Some(MovementCommand::Move(direction)),
            _ => None,
        },
        InputEvent::KeyUp { key, repeat } => match key_direction(key) {
            Some(_) if !repeat => Some(MovementCommand::Stop),
            _ => None,
        },
        _ => None,
    }
}

/// The command of a tick: that of the last event that gives one. With two
/// arrows held, the later transition wins; nothing is blended.
pub open spec fn tick_command(events: Seq<InputEvent>) -> Option<MovementCommand>
    decreases events.len(),
{
    if events.len() == 0 {
        None
    } else {
        match event_command(events.last()) {
            Some(command) => Some(command),
            None => tick_command(events.drop_last()),
        }
    }
}

/// An event that ends the run: the window closing, or Escape going down.
pub open spec fn event_quits(event: InputEvent) -> bool {
    match event {
        InputEvent::Quit => true,
        InputEvent::KeyDown { key, .. } => key == Key::Escape,
        _ => false,
    }
}

/// Computes `key_direction`.
pub fn direction_of_key(key: Key) -> (direction: Option<Direction>)
    ensures
        direction == key_direction(key),
{
    match key {
        Key::Up => Some(Direction::Up),
        Key::Down => Some(Direction::Down),
        Key::Left => Some(Direction::Left),
        Key::Right => Some(Direction::Right),
        _ => None,
    }
}

/// Computes `event_command`.
pub fn command_for_event(event: InputEvent) -> (command: Option<MovementCommand>)
    ensures
        command == event_command(event),
{
    match event {
        InputEvent::KeyDown { key, repeat } => {
            if repeat {
                return None;
            }
            match direction_of_key(key) {
                Some(direction) => Some(MovementCommand::Move(direction)),
                None => None,
            }
        },
        InputEvent::KeyUp { key, repeat } => {
            if repeat {
                return None;
            }
            match direction_of_key(key) {
                Some(_) => Some(MovementCommand::Stop),
                None => None,
            }
        },
        _ => None,
    }
}

/// Computes `event_quits`.
pub fn quits(event: InputEvent) -> (quit: bool)
    ensures
        quit == event_quits(event),
{
    match event {
        InputEvent::Quit => true,
        InputEvent::KeyDown { key, .. } => match key {
            Key::Escape => true,
            _ => false,
        },
        _ => false,
    }
}

/// Maps the events of one tick to its command, if they give one.
pub fn map_events(events: &Vec<InputEvent>) -> (command: Option<MovementCommand>)
    ensures
        command == tick_command(events@),
{
    let mut command: Option<MovementCommand> = None;
    let mut index: usize = 0;
    while index < events.len()
        invariant
            index <= events.len(),
            command == tick_command(events@.take(index as int)),
        decreases events.len() - index,
    {
        let ghost seen = events@.take(index as int + 1);
        assert(seen.last() == events@[index as int]);
        assert(seen.drop_last() =~= events@.take(index as int));
        match command_for_event(events[index]) {
            Some(next) => {
                command = Some(next);
            },
            None => {},
        }
        index = index + 1;
    }
    assert(events@.take(events.len() as int) =~= events@);
    command
}

/// An event that gives a command decides the tick, whatever came before it
/// and as long as no later event gives one.
pub proof fn lemma_last_transition_wins(
    earlier: Seq<InputEvent>,
    event: InputEvent,
    later: Seq<InputEvent>,
)
    requires
        event_command(event) is Some,
        forall|i: int| 0 <= i < later.len() ==> event_command(later[i]) is None,
    ensures
        tick_command(earlier.push(event) + later) == event_command(event),
    decreases later.len(),
{
    if later.len() == 0 {
        assert(earlier.push(event) + later =~= earlier.push(event));
        assert(earlier.push(event).last() == event);
    } else {
        let all = earlier.push(event) + later;
        assert(all.last() == later.last());
        assert(all.drop_last() =~= earlier.push(event) + later.drop_last());
        lemma_last_transition_wins(earlier, event, later.drop_last());
    }
}

} // verus!
