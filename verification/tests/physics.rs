use sprite_stage::components::{Direction, Velocity};
use sprite_stage::geometry::{Position, MAX_EXTENT, MIN_COORDINATE};
use sprite_stage::physics::{displace, Physics};
use sprite_stage::stage::{Components, Stage};

#[test]
fn displace_moves_along_the_direction() {
    let p = Position::new(10, 20);
    let go = |direction| displace(p, Velocity { speed: 5, direction });
    assert_eq!(go(Direction::Left), Position::new(5, 20));
    assert_eq!(go(Direction::Right), Position::new(15, 20));
    assert_eq!(go(Direction::Up), Position::new(10, 15));
    assert_eq!(go(Direction::Down), Position::new(10, 25));
}

#[test]
fn displace_keeps_a_standing_entity_in_place() {
    for direction in [Direction::Up, Direction::Down, Direction::Left, Direction::Right] {
        let p = Position::new(i32::MAX, i32::MIN);
        assert_eq!(displace(p, Velocity { speed: 0, direction }), p);
    }
}

#[test]
fn displace_saturates_at_the_bounds() {
    let p = Position::new(MAX_EXTENT - 2, MIN_COORDINATE + 2);
    assert_eq!(
        displace(p, Velocity { speed: 5, direction: Direction::Right }),
        Position::new(MAX_EXTENT, MIN_COORDINATE + 2)
    );
    assert_eq!(
        displace(p, Velocity { speed: 5, direction: Direction::Up }),
        Position::new(MAX_EXTENT - 2, MIN_COORDINATE)
    );
    assert_eq!(
        displace(Position::new(0, 0), Velocity { speed: i32::MIN, direction: Direction::Left }),
        Position::new(MAX_EXTENT, 0)
    );
}

#[test]
fn physics_moves_entities_that_have_position_and_velocity() {
    let mut stage = Stage::new();
    let walker = stage
        .spawn(Components {
            controlled: false,
            position: Some(Position::new(0, 0)),
            velocity: Some(Velocity { speed: 5, direction: Direction::Down }),
            sprite: None,
            animation: None,
        })
        .unwrap();
    let rock = stage
        .spawn(Components {
            controlled: false,
            position: Some(Position::new(3, 3)),
            velocity: None,
            sprite: None,
            animation: None,
        })
        .unwrap();
    let sleeper = stage
        .spawn(Components {
            controlled: false,
            position: Some(Position::new(8, 8)),
            velocity: Some(Velocity { speed: 0, direction: Direction::Left }),
            sprite: None,
            animation: None,
        })
        .unwrap();
    Physics.run(&mut stage);
    Physics.run(&mut stage);
    assert_eq!(stage.components(walker).position, Some(Position::new(0, 10)));
    assert_eq!(stage.components(rock).position, Some(Position::new(3, 3)));
    assert_eq!(stage.components(sleeper).position, Some(Position::new(8, 8)));
    assert_eq!(
        stage.components(walker).velocity,
        Some(Velocity { speed: 5, direction: Direction::Down })
    );
}
