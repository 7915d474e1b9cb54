use snake_game::components::{Age, Direction, Food, Pos, SnakeBody};
use snake_game::food::place_from_draws;
use snake_game::game::{Game, TickError};
use snake_game::pos_set::PosSet;
use snake_game::scene::Scene;

fn no_draws() -> Vec<Pos> {
    Vec::new()
}

#[test]
fn first_tick_moves_head_and_leaves_one_segment() {
    let mut game = Game::basic();
    let report = game.tick_with(&no_draws()).unwrap();
    assert_eq!(game.snake.pos, Pos { x: 6, y: 5 });
    assert_eq!(report.from, Pos { x: 5, y: 5 });
    assert_eq!(report.to, Pos { x: 6, y: 5 });
    assert_eq!(game.snake.body.len(), 1);
    assert_eq!(game.snake.body[0].pos, Pos { x: 5, y: 5 });
    assert_eq!(game.snake.body[0].age, Age(0));
    assert_eq!(report.segment, game.snake.body[0]);
    assert_eq!(game.snake.meta.len, 4);
    assert!(report.collisions.is_empty());
}

#[test]
fn head_runs_into_the_wall_on_the_fourth_tick() {
    let mut game = Game::basic();
    for _ in 0..3 {
        let report = game.tick_with(&no_draws()).unwrap();
        assert!(report.collisions.is_empty());
    }
    assert_eq!(game.snake.pos, Pos { x: 8, y: 5 });
    let report = game.tick_with(&no_draws()).unwrap();
    assert_eq!(game.snake.pos, Pos { x: 9, y: 5 });
    assert_eq!(report.collisions, vec![95]);
}

#[test]
fn tick_off_the_grid_fails_and_changes_nothing() {
    let mut game = Game::basic();
    for _ in 0..4 {
        game.tick_with(&no_draws()).unwrap();
    }
    let head = game.snake.pos;
    let body = game.snake.body.clone();
    let food = game.food;
    let next_id = game.next_id;
    assert_eq!(game.tick_with(&no_draws()), Err(TickError::OutOfBounds));
    assert_eq!(game.tick(), Err(TickError::OutOfBounds));
    assert_eq!(game.snake.pos, head);
    assert_eq!(game.snake.body, body);
    assert_eq!(game.food, food);
    assert_eq!(game.next_id, next_id);
}

#[test]
fn eating_grows_the_snake_and_keeps_the_tail() {
    let mut game = Game::basic();
    let draws = vec![Pos { x: 7, y: 7 }];
    let first = game.tick_with(&draws).unwrap();
    assert_eq!(first.food, Some(Food { id: 102, pos: Pos { x: 7, y: 7 } }));
    game.tick_with(&draws).unwrap();
    assert!(game.request_direction(Direction::Up));
    game.tick_with(&draws).unwrap();
    assert_eq!(game.snake.pos, Pos { x: 7, y: 6 });
    assert_eq!(game.snake.body.len(), 3);
    assert_eq!(game.food, Some(Food { id: 102, pos: Pos { x: 7, y: 7 } }));
    let tail = *game.snake.body.last().unwrap();
    assert_eq!(tail.pos, Pos { x: 5, y: 5 });
    assert_eq!(tail.age, Age(2));

    let report = game.tick_with(&vec![Pos { x: 2, y: 2 }]).unwrap();
    assert_eq!(game.snake.pos, Pos { x: 7, y: 7 });
    assert_eq!(report.eaten, Some(102));
    assert_eq!(game.snake.meta.len, 5);
    assert!(report.pruned.is_empty());
    assert_eq!(game.snake.body.len(), 4);
    assert_eq!(
        *game.snake.body.last().unwrap(),
        SnakeBody { id: tail.id, pos: Pos { x: 5, y: 5 }, age: Age(3) }
    );
    assert_ne!(game.food.map(|f| f.id), Some(102));
    assert_eq!(report.food, game.food);
    assert_eq!(game.food.map(|f| f.pos), Some(Pos { x: 2, y: 2 }));
}

#[test]
fn spawner_falls_back_to_the_scan_for_the_last_vacant_tile() {
    let scene = Scene::basic();
    let free = Pos { x: 3, y: 7 };
    let mut occupied = PosSet::new();
    for x in 0..10 {
        for y in 0..10 {
            let p = Pos { x, y };
            if p != free {
                occupied.insert(p);
            }
        }
    }
    assert_eq!(occupied.len(), 99);
    let mut draws = Vec::new();
    for i in 0..100u32 {
        let p = Pos { x: i % 10, y: (i / 10) % 10 };
        draws.push(if p == free { Pos { x: 0, y: 0 } } else { p });
    }
    assert_eq!(draws.len(), 100);
    assert_eq!(place_from_draws(&scene, &occupied, &draws), Some(free));
}
