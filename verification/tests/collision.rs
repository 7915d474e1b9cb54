use snake_game::collision::check;
use snake_game::components::{Collision, Pos};

#[test]
fn check_lists_what_shares_the_heads_tile() {
    let head = Pos { x: 2, y: 2 };
    let collidable = vec![
        Collision { id: 7, pos: Pos { x: 2, y: 2 } },
        Collision { id: 3, pos: Pos { x: 1, y: 2 } },
        Collision { id: 9, pos: Pos { x: 2, y: 2 } },
        Collision { id: 1, pos: Pos { x: 2, y: 2 } },
        Collision { id: 4, pos: Pos { x: 2, y: 1 } },
    ];
    assert_eq!(check(9, head, &collidable), vec![7, 1]);
    assert_eq!(check(100, head, &collidable), vec![7, 9, 1]);
}

#[test]
fn check_finds_nothing_on_a_free_tile() {
    let collidable = vec![
        Collision { id: 1, pos: Pos { x: 0, y: 0 } },
        Collision { id: 2, pos: Pos { x: 5, y: 5 } },
    ];
    assert_eq!(check(2, Pos { x: 5, y: 5 }, &collidable), Vec::<u64>::new());
    assert_eq!(check(2, Pos { x: 3, y: 3 }, &collidable), Vec::<u64>::new());
    assert_eq!(check(2, Pos { x: 3, y: 3 }, &Vec::new()), Vec::<u64>::new());
}
