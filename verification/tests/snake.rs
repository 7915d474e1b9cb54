use snake_game::components::{Age, Direction, Pos, SnakeBody, SnakeMeta};
use snake_game::snake::{Snake, INITIAL_LENGTH};

fn snake() -> Snake {
    Snake::new(1, Pos { x: 5, y: 5 })
}

#[test]
fn new_snake_is_four_long_and_heads_right() {
    let s = snake();
    assert_eq!(INITIAL_LENGTH, 4);
    assert_eq!(s.id, 1);
    assert_eq!(s.pos, Pos { x: 5, y: 5 });
    assert_eq!(
        s.meta,
        SnakeMeta { len: 4, dir: Direction::Right, prev_dir: Direction::Right }
    );
    assert!(s.body.is_empty());
    assert_eq!(s.fresh, 0);
}

#[test]
fn reversal_is_refused_and_changes_nothing() {
    let mut s = snake();
    assert!(!s.set_requested_direction(Direction::Left));
    assert_eq!(s.meta.dir, Direction::Right);
    assert_eq!(s.meta.prev_dir, Direction::Right);
}

#[test]
fn double_key_press_cannot_reverse_the_snake() {
    let mut s = snake();
    assert!(s.set_requested_direction(Direction::Up));
    assert_eq!(s.meta.dir, Direction::Up);
    assert!(!s.set_requested_direction(Direction::Left));
    assert_eq!(s.meta.dir, Direction::Up);
    assert_eq!(s.advance(2), Some((Pos { x: 5, y: 5 }, Pos { x: 5, y: 6 })));
    assert_eq!(s.meta.prev_dir, Direction::Up);
    assert!(!s.set_requested_direction(Direction::Down));
    assert!(s.set_requested_direction(Direction::Left));
    assert_eq!(s.meta.dir, Direction::Left);
}

#[test]
fn last_accepted_request_counts() {
    let requests = [
        Direction::Up,
        Direction::Left,
        Direction::Down,
        Direction::Left,
        Direction::Right,
        Direction::Down,
        Direction::Left,
    ];
    let mut s = snake();
    let mut last = s.meta.dir;
    for d in requests {
        let taken = s.set_requested_direction(d);
        assert_eq!(taken, d != Direction::Left);
        if taken {
            last = d;
        }
        assert_eq!(s.meta.dir, last);
        assert_ne!(s.meta.dir, s.meta.prev_dir.opposite());
        assert_eq!(s.meta.prev_dir, Direction::Right);
    }
    assert_eq!(s.meta.dir, Direction::Down);
}

#[test]
fn advance_leaves_one_fresh_segment_where_the_head_was() {
    let mut s = snake();
    assert_eq!(s.next_pos(), Some(Pos { x: 6, y: 5 }));
    assert_eq!(s.advance(2), Some((Pos { x: 5, y: 5 }, Pos { x: 6, y: 5 })));
    assert_eq!(s.pos, Pos { x: 6, y: 5 });
    assert_eq!(s.body, vec![SnakeBody { id: 2, pos: Pos { x: 5, y: 5 }, age: Age(0) }]);
    assert_eq!(s.fresh, 1);
    assert_eq!(s.meta.len, 4);
}

#[test]
fn advance_in_each_direction() {
    for (d, to) in [
        (Direction::Up, Pos { x: 5, y: 6 }),
        (Direction::Down, Pos { x: 5, y: 4 }),
        (Direction::Right, Pos { x: 6, y: 5 }),
    ] {
        let mut s = snake();
        s.set_requested_direction(d);
        assert_eq!(s.advance(2), Some((Pos { x: 5, y: 5 }, to)));
        assert_eq!(s.meta.prev_dir, d);
    }
    let mut s = snake();
    s.set_requested_direction(Direction::Up);
    s.advance(2);
    s.set_requested_direction(Direction::Left);
    assert_eq!(s.advance(3), Some((Pos { x: 5, y: 6 }, Pos { x: 4, y: 6 })));
}

#[test]
fn advance_past_the_range_of_coordinates_changes_nothing() {
    let mut s = Snake::new(1, Pos { x: u32::MAX, y: 0 });
    assert_eq!(s.next_pos(), None);
    assert_eq!(s.advance(2), None);
    assert_eq!(s.pos, Pos { x: u32::MAX, y: 0 });
    assert!(s.body.is_empty());
    assert_eq!(s.fresh, 0);
    s.set_requested_direction(Direction::Down);
    assert_eq!(s.advance(2), None);
    assert!(s.body.is_empty());
}

#[test]
fn grow_adds_one_to_the_length() {
    let mut s = snake();
    s.grow();
    assert_eq!(s.meta.len, 5);
    s.grow();
    assert_eq!(s.meta.len, 6);
}

#[test]
fn fresh_segment_is_not_aged_in_its_first_tick() {
    let mut s = snake();
    s.advance(2);
    assert_eq!(s.age_and_prune(), Vec::<u64>::new());
    assert_eq!(s.body, vec![SnakeBody { id: 2, pos: Pos { x: 5, y: 5 }, age: Age(0) }]);
    assert_eq!(s.fresh, 0);
}

#[test]
fn trail_is_one_shorter_than_the_length() {
    let mut s = snake();
    let mut gone = Vec::new();
    for id in 2..10u64 {
        s.advance(id);
        gone.extend(s.age_and_prune());
        let ticks = (id - 1) as usize;
        assert_eq!(s.body.len(), ticks.min(3));
        for (i, b) in s.body.iter().enumerate() {
            assert_eq!(b.age, Age(i as u32));
            assert_eq!(b.id, id - i as u64);
        }
    }
    assert_eq!(gone, vec![2, 3, 4, 5, 6]);
    assert_eq!(
        s.body,
        vec![
            SnakeBody { id: 9, pos: Pos { x: 12, y: 5 }, age: Age(0) },
            SnakeBody { id: 8, pos: Pos { x: 11, y: 5 }, age: Age(1) },
            SnakeBody { id: 7, pos: Pos { x: 10, y: 5 }, age: Age(2) },
        ]
    );
}

#[test]
fn growth_before_ageing_keeps_the_tail() {
    let mut s = snake();
    for id in 2..5u64 {
        s.advance(id);
        s.age_and_prune();
    }
    assert_eq!(s.body.len(), 3);
    s.advance(5);
    s.grow();
    assert_eq!(s.age_and_prune(), Vec::<u64>::new());
    assert_eq!(s.body.len(), 4);
    assert_eq!(s.body[3], SnakeBody { id: 2, pos: Pos { x: 5, y: 5 }, age: Age(3) });
    s.advance(6);
    assert_eq!(s.age_and_prune(), vec![2]);
    assert_eq!(s.body.len(), 4);
}

#[test]
fn ageing_without_growth_drops_the_tail() {
    let mut s = snake();
    for id in 2..5u64 {
        s.advance(id);
        s.age_and_prune();
    }
    s.advance(5);
    assert_eq!(s.age_and_prune(), vec![2]);
    assert_eq!(s.body.len(), 3);
    assert_eq!(s.body[2], SnakeBody { id: 3, pos: Pos { x: 6, y: 5 }, age: Age(2) });
}
