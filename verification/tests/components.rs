use snake_game::components::{Direction, Key, Pos};

const ALL: [Direction; 4] = [Direction::Up, Direction::Down, Direction::Left, Direction::Right];

#[test]
fn opposite_swaps_up_with_down_and_left_with_right() {
    assert_eq!(Direction::Up.opposite(), Direction::Down);
    assert_eq!(Direction::Down.opposite(), Direction::Up);
    assert_eq!(Direction::Left.opposite(), Direction::Right);
    assert_eq!(Direction::Right.opposite(), Direction::Left);
}

#[test]
fn opposite_of_opposite_is_the_direction_itself() {
    for d in ALL {
        assert_eq!(d.opposite().opposite(), d);
        assert_ne!(d.opposite(), d);
    }
}

#[test]
fn arrow_keys_and_wasd_steer() {
    assert_eq!(Key::Up.direction(), Some(Direction::Up));
    assert_eq!(Key::W.direction(), Some(Direction::Up));
    assert_eq!(Key::Down.direction(), Some(Direction::Down));
    assert_eq!(Key::S.direction(), Some(Direction::Down));
    assert_eq!(Key::Left.direction(), Some(Direction::Left));
    assert_eq!(Key::A.direction(), Some(Direction::Left));
    assert_eq!(Key::Right.direction(), Some(Direction::Right));
    assert_eq!(Key::D.direction(), Some(Direction::Right));
    assert_eq!(Key::Other.direction(), None);
}

#[test]
fn step_moves_one_tile_along_the_direction() {
    let p = Pos { x: 5, y: 5 };
    assert_eq!(p.step(Direction::Up), Some(Pos { x: 5, y: 6 }));
    assert_eq!(p.step(Direction::Down), Some(Pos { x: 5, y: 4 }));
    assert_eq!(p.step(Direction::Left), Some(Pos { x: 4, y: 5 }));
    assert_eq!(p.step(Direction::Right), Some(Pos { x: 6, y: 5 }));
}

#[test]
fn step_does_not_wrap_around() {
    let low = Pos { x: 0, y: 0 };
    assert_eq!(low.step(Direction::Left), None);
    assert_eq!(low.step(Direction::Down), None);
    assert_eq!(low.step(Direction::Right), Some(Pos { x: 1, y: 0 }));
    let high = Pos { x: u32::MAX, y: u32::MAX };
    assert_eq!(high.step(Direction::Right), None);
    assert_eq!(high.step(Direction::Up), None);
    assert_eq!(high.step(Direction::Left), Some(Pos { x: u32::MAX - 1, y: u32::MAX }));
}
