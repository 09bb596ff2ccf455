use sprite_stage::animator::create_character_animation;
use sprite_stage::components::{Direction, Sprite, Velocity};
use sprite_stage::geometry::{Position, Region};
use sprite_stage::stage::{Components, Stage, MAX_ENTITIES};

fn bare() -> Components {
    Components { controlled: false, position: None, velocity: None, sprite: None, animation: None }
}

#[test]
fn a_new_stage_is_empty() {
    let stage = Stage::new();
    assert_eq!(stage.population(), 0);
    assert!(!stage.contains(0));
    assert!(stage.controlled_velocities().is_empty());
    assert!(stage.movable().is_empty());
    assert!(stage.animated().is_empty());
    assert!(stage.drawables().is_empty());
}

#[test]
fn entities_are_numbered_from_zero() {
    let mut stage = Stage::new();
    for expected in 0..10u32 {
        assert_eq!(stage.spawn(bare()), Some(expected));
        assert_eq!(stage.population(), expected + 1);
        assert!(stage.contains(expected));
        assert!(!stage.contains(expected + 1));
    }
}

#[test]
fn the_entity_limit_is_two_to_the_twentieth() {
    assert_eq!(MAX_ENTITIES, 1 << 20);
}

#[test]
fn spawn_stores_each_component() {
    let mut stage = Stage::new();
    let sprite = Sprite { spritesheet: 2, region: Region::new(26, 36, 26, 36) };
    let velocity = Velocity { speed: 3, direction: Direction::Down };
    let id = stage
        .spawn(Components {
            controlled: true,
            position: Some(Position::new(-7, 9)),
            velocity: Some(velocity),
            sprite: Some(sprite),
            animation: Some(create_character_animation(2, Region::new(0, 0, 26, 36))),
        })
        .unwrap();
    let read = stage.components(id);
    assert!(read.controlled);
    assert_eq!(read.position, Some(Position { x: -7, y: 9 }));
    assert_eq!(read.velocity, Some(velocity));
    assert_eq!(read.sprite, Some(sprite));
    let animation = read.animation.unwrap();
    assert_eq!(animation.current_frame(), 0);
    assert_eq!(animation.frame_count(), 3);
}

#[test]
fn spawn_leaves_other_entities_alone() {
    let mut stage = Stage::new();
    let first = stage
        .spawn(Components { position: Some(Position::new(1, 1)), ..bare() })
        .unwrap();
    let second = stage
        .spawn(Components { velocity: Some(Velocity { speed: 0, direction: Direction::Up }), ..bare() })
        .unwrap();
    assert_ne!(first, second);
    assert_eq!(stage.components(first).position, Some(Position::new(1, 1)));
    assert_eq!(stage.components(first).velocity, None);
    assert_eq!(stage.components(second).position, None);
}

#[test]
fn an_index_without_entity_has_no_components() {
    let mut stage = Stage::new();
    stage.spawn(Components { controlled: true, position: Some(Position::new(1, 1)), ..bare() });
    for id in [1u32, 2, 1000, MAX_ENTITIES, u32::MAX] {
        let read = stage.components(id);
        assert!(!read.controlled);
        assert_eq!(read.position, None);
        assert_eq!(read.velocity, None);
        assert_eq!(read.sprite, None);
        assert!(read.animation.is_none());
    }
}

#[test]
fn setters_replace_one_component() {
    let mut stage = Stage::new();
    let id = stage
        .spawn(Components {
            position: Some(Position::new(1, 1)),
            velocity: Some(Velocity { speed: 0, direction: Direction::Up }),
            ..bare()
        })
        .unwrap();
    assert!(stage.set_position(id, Position::new(5, 6)));
    assert_eq!(stage.components(id).position, Some(Position::new(5, 6)));
    assert_eq!(
        stage.components(id).velocity,
        Some(Velocity { speed: 0, direction: Direction::Up })
    );
    assert!(stage.set_velocity(id, Velocity { speed: 2, direction: Direction::Left }));
    assert_eq!(
        stage.components(id).velocity,
        Some(Velocity { speed: 2, direction: Direction::Left })
    );
    assert_eq!(stage.components(id).position, Some(Position::new(5, 6)));
}

#[test]
fn setters_give_a_missing_component() {
    let mut stage = Stage::new();
    let id = stage.spawn(bare()).unwrap();
    let sprite = Sprite { spritesheet: 0, region: Region::new(0, 0, 4, 4) };
    assert!(stage.set_sprite(id, sprite));
    assert_eq!(stage.components(id).sprite, Some(sprite));
    let mut animation = create_character_animation(0, Region::new(0, 0, 26, 36));
    animation.advance(1);
    assert!(stage.set_animation(id, animation));
    assert_eq!(stage.components(id).animation.unwrap().current_frame(), 1);
    assert_eq!(stage.components(id).position, None);
}

#[test]
fn setters_refuse_an_index_without_entity() {
    let mut stage = Stage::new();
    let id = stage.spawn(bare()).unwrap();
    let sprite = Sprite { spritesheet: 0, region: Region::new(0, 0, 4, 4) };
    assert!(!stage.set_position(id + 1, Position::new(5, 6)));
    assert!(!stage.set_velocity(id + 1, Velocity { speed: 2, direction: Direction::Left }));
    assert!(!stage.set_sprite(u32::MAX, sprite));
    assert!(!stage.set_animation(7, create_character_animation(0, Region::new(0, 0, 26, 36))));
    assert_eq!(stage.population(), 1);
    assert_eq!(stage.components(id + 1).position, None);
    assert!(stage.drawables().is_empty());
    assert!(stage.movable().is_empty());
}

#[test]
fn listings_name_each_matching_entity_once() {
    let mut stage = Stage::new();
    let sprite = Sprite { spritesheet: 0, region: Region::new(0, 0, 4, 4) };
    let velocity = Velocity { speed: 1, direction: Direction::Right };
    let a = stage
        .spawn(Components {
            controlled: true,
            position: Some(Position::new(1, 0)),
            velocity: Some(velocity),
            sprite: Some(sprite),
            ..bare()
        })
        .unwrap();
    let b = stage
        .spawn(Components { position: Some(Position::new(2, 0)), sprite: Some(sprite), ..bare() })
        .unwrap();
    let c = stage
        .spawn(Components {
            velocity: Some(velocity),
            sprite: Some(sprite),
            animation: Some(create_character_animation(0, Region::new(0, 0, 26, 36))),
            ..bare()
        })
        .unwrap();
    stage.spawn(bare()).unwrap();

    assert_eq!(stage.controlled_velocities(), vec![(a, velocity)]);
    assert_eq!(stage.movable(), vec![(a, Position::new(1, 0), velocity)]);
    let mut drawn = stage.drawables();
    drawn.sort_by_key(|item| item.0);
    assert_eq!(drawn, vec![(a, Position::new(1, 0), sprite), (b, Position::new(2, 0), sprite)]);
    let animated = stage.animated();
    assert_eq!(animated.len(), 1);
    assert_eq!(animated[0].0, c);
    assert_eq!(animated[0].2, velocity);
    assert_eq!(animated[0].1.frame_count(), 3);
}

#[test]
fn a_full_stage_takes_no_more_entities() {
    let mut stage = Stage::new();
    for expected in 0..MAX_ENTITIES {
        assert_eq!(stage.spawn(bare()), Some(expected));
    }
    assert_eq!(stage.population(), MAX_ENTITIES);
    assert!(stage.contains(MAX_ENTITIES - 1));
    assert_eq!(stage.spawn(bare()), None);
    assert_eq!(stage.spawn(Components { controlled: true, ..bare() }), None);
    assert_eq!(stage.population(), MAX_ENTITIES);
    assert!(!stage.contains(MAX_ENTITIES));
    assert!(!stage.components(MAX_ENTITIES).controlled);
}
