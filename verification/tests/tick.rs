use sprite_stage::animator::{create_character_animation, Animator, ANIMATION_CADENCE};
use sprite_stage::components::{Direction, Sprite, Velocity};
use sprite_stage::geometry::{Position, Region};
use sprite_stage::input::{InputEvent, Key};
use sprite_stage::stage::{Components, Stage};
use sprite_stage::tick::update;

fn hero(stage: &mut Stage) -> u32 {
    let animation = create_character_animation(0, Region::new(0, 0, 26, 36));
    let sprite = animation.frames(Direction::Right)[0];
    stage
        .spawn(Components {
            controlled: true,
            position: Some(Position::new(0, 0)),
            velocity: Some(Velocity { speed: 0, direction: Direction::Right }),
            sprite: Some(sprite),
            animation: Some(animation),
        })
        .unwrap()
}

#[test]
fn a_tick_resolves_moves_and_animates_in_that_order() {
    let mut stage = Stage::new();
    let player = hero(&mut stage);
    let mut animator = Animator::new(1).unwrap();
    let events = vec![InputEvent::KeyDown { key: Key::Left, repeat: false }];
    update(&mut stage, &mut animator, &events);
    let now = stage.components(player);
    assert_eq!(now.velocity, Some(Velocity { speed: 5, direction: Direction::Left }));
    assert_eq!(now.position, Some(Position::new(-5, 0)));
    assert_eq!(now.animation.unwrap().current_frame(), 1);
    assert_eq!(
        now.sprite,
        Some(Sprite { spritesheet: 0, region: Region { x: 26, y: 36, width: 26, height: 36 } })
    );
}

#[test]
fn a_tick_without_events_keeps_the_velocity() {
    let mut stage = Stage::new();
    let player = hero(&mut stage);
    let mut animator = Animator::new(ANIMATION_CADENCE).unwrap();
    update(&mut stage, &mut animator, &vec![InputEvent::KeyDown { key: Key::Down, repeat: false }]);
    for tick in 2..=6 {
        update(&mut stage, &mut animator, &vec![]);
        let now = stage.components(player);
        assert_eq!(now.velocity, Some(Velocity { speed: 5, direction: Direction::Down }));
        assert_eq!(now.position, Some(Position::new(0, 5 * tick)));
        assert_eq!(now.animation.unwrap().current_frame(), (tick as usize / 3) % 3);
    }
}

#[test]
fn a_key_released_stops_the_entity_where_it_is() {
    let mut stage = Stage::new();
    let player = hero(&mut stage);
    let mut animator = Animator::new(1).unwrap();
    update(&mut stage, &mut animator, &vec![InputEvent::KeyDown { key: Key::Up, repeat: false }]);
    let walking = stage.components(player);
    update(&mut stage, &mut animator, &vec![InputEvent::KeyUp { key: Key::Up, repeat: false }]);
    for _ in 0..5 {
        update(&mut stage, &mut animator, &vec![InputEvent::Other]);
        let now = stage.components(player);
        assert_eq!(now.velocity, Some(Velocity { speed: 0, direction: Direction::Up }));
        assert_eq!(now.position, Some(Position::new(0, -5)));
        assert_eq!(now.sprite, walking.sprite);
        assert_eq!(now.animation.unwrap().current_frame(), 1);
    }
}
