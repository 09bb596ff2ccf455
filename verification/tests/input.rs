use sprite_stage::components::{Direction, MovementCommand};
use sprite_stage::input::{command_for_event, direction_of_key, map_events, quits, InputEvent, Key};

fn down(key: Key) -> InputEvent {
    InputEvent::KeyDown { key, repeat: false }
}

fn up(key: Key) -> InputEvent {
    InputEvent::KeyUp { key, repeat: false }
}

#[test]
fn arrows_have_directions() {
    assert_eq!(direction_of_key(Key::Up), Some(Direction::Up));
    assert_eq!(direction_of_key(Key::Down), Some(Direction::Down));
    assert_eq!(direction_of_key(Key::Left), Some(Direction::Left));
    assert_eq!(direction_of_key(Key::Right), Some(Direction::Right));
    assert_eq!(direction_of_key(Key::Escape), None);
    assert_eq!(direction_of_key(Key::Other), None);
}

#[test]
fn key_down_asks_to_move() {
    assert_eq!(command_for_event(down(Key::Left)), Some(MovementCommand::Move(Direction::Left)));
    assert_eq!(command_for_event(down(Key::Up)), Some(MovementCommand::Move(Direction::Up)));
}

#[test]
fn key_up_asks_to_stop() {
    assert_eq!(command_for_event(up(Key::Right)), Some(MovementCommand::Stop));
    assert_eq!(command_for_event(up(Key::Down)), Some(MovementCommand::Stop));
}

#[test]
fn repeats_give_no_command() {
    assert_eq!(command_for_event(InputEvent::KeyDown { key: Key::Right, repeat: true }), None);
    assert_eq!(command_for_event(InputEvent::KeyUp { key: Key::Right, repeat: true }), None);
}

#[test]
fn other_events_give_no_command() {
    assert_eq!(command_for_event(InputEvent::Quit), None);
    assert_eq!(command_for_event(InputEvent::Other), None);
    assert_eq!(command_for_event(down(Key::Escape)), None);
    assert_eq!(command_for_event(up(Key::Other)), None);
}

#[test]
fn a_tick_without_events_has_no_command() {
    assert_eq!(map_events(&vec![]), None);
    assert_eq!(map_events(&vec![InputEvent::Other, down(Key::Other)]), None);
}

#[test]
fn the_last_transition_wins() {
    let events = vec![down(Key::Left), down(Key::Up)];
    assert_eq!(map_events(&events), Some(MovementCommand::Move(Direction::Up)));
    let events = vec![down(Key::Left), up(Key::Left), InputEvent::Other];
    assert_eq!(map_events(&events), Some(MovementCommand::Stop));
    let events = vec![up(Key::Left), down(Key::Right), InputEvent::KeyUp { key: Key::Up, repeat: true }];
    assert_eq!(map_events(&events), Some(MovementCommand::Move(Direction::Right)));
}

#[test]
fn quit_and_escape_end_the_run() {
    assert!(quits(InputEvent::Quit));
    assert!(quits(down(Key::Escape)));
    assert!(quits(InputEvent::KeyDown { key: Key::Escape, repeat: true }));
    assert!(!quits(up(Key::Escape)));
    assert!(!quits(down(Key::Left)));
    assert!(!quits(InputEvent::Other));
}
