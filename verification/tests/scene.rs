use snake_game::components::{Collision, Pos};
use snake_game::scene::{Scene, Tile, TileType};

#[test]
fn scene_needs_three_tiles_each_way() {
    assert_eq!(Scene::new(3, 3), Some(Scene { x_size: 3, y_size: 3 }));
    assert_eq!(Scene::new(10, 4), Some(Scene { x_size: 10, y_size: 4 }));
    assert_eq!(Scene::new(2, 10), None);
    assert_eq!(Scene::new(10, 2), None);
    assert_eq!(Scene::new(0, 0), None);
}

#[test]
fn basic_scene_is_ten_by_ten() {
    let scene = Scene::basic();
    assert_eq!(scene.dimensions(), (10, 10));
    assert_eq!(scene.tile_count(), 100);
}

#[test]
fn contains_is_within_both_bounds() {
    let scene = Scene { x_size: 4, y_size: 3 };
    assert!(scene.contains(Pos { x: 0, y: 0 }));
    assert!(scene.contains(Pos { x: 3, y: 2 }));
    assert!(!scene.contains(Pos { x: 4, y: 2 }));
    assert!(!scene.contains(Pos { x: 3, y: 3 }));
}

#[test]
fn is_full_compares_with_the_area() {
    let scene = Scene { x_size: 4, y_size: 3 };
    assert!(scene.is_full(12));
    assert!(!scene.is_full(11));
    assert!(!scene.is_full(13));
    assert!(!scene.is_full(0));
}

#[test]
fn tile_count_does_not_overflow() {
    let scene = Scene { x_size: u32::MAX, y_size: u32::MAX };
    assert_eq!(scene.tile_count(), 18446744065119617025);
}

#[test]
fn only_walls_collide() {
    assert!(TileType::Wall.has_collision());
    assert!(!TileType::Floor.has_collision());
}

#[test]
fn border_is_wall_and_interior_is_floor() {
    let scene = Scene::basic();
    for x in 0..10 {
        for y in 0..10 {
            let border = x == 0 || y == 0 || x == 9 || y == 9;
            let want = if border { TileType::Wall } else { TileType::Floor };
            assert_eq!(scene.tile_type_at(Pos { x, y }), want);
        }
    }
}

#[test]
fn tiles_are_ordered_by_x_then_by_y() {
    let scene = Scene { x_size: 3, y_size: 4 };
    let tiles = scene.tiles();
    assert_eq!(tiles.len(), 12);
    assert_eq!(tiles[0], Tile { id: 0, pos: Pos { x: 0, y: 0 }, kind: TileType::Wall });
    assert_eq!(tiles[1], Tile { id: 1, pos: Pos { x: 0, y: 1 }, kind: TileType::Wall });
    assert_eq!(tiles[4], Tile { id: 4, pos: Pos { x: 1, y: 0 }, kind: TileType::Wall });
    assert_eq!(tiles[5], Tile { id: 5, pos: Pos { x: 1, y: 1 }, kind: TileType::Floor });
    assert_eq!(tiles[6], Tile { id: 6, pos: Pos { x: 1, y: 2 }, kind: TileType::Floor });
    assert_eq!(tiles[7], Tile { id: 7, pos: Pos { x: 1, y: 3 }, kind: TileType::Wall });
    assert_eq!(tiles[11], Tile { id: 11, pos: Pos { x: 2, y: 3 }, kind: TileType::Wall });
}

#[test]
fn basic_scene_has_an_eight_by_eight_interior() {
    let tiles = Scene::basic().tiles();
    assert_eq!(tiles.len(), 100);
    let floor = tiles.iter().filter(|t| t.kind == TileType::Floor).count();
    assert_eq!(floor, 64);
}

#[test]
fn walls_are_the_border_tiles_under_their_tile_ids() {
    let scene = Scene { x_size: 3, y_size: 3 };
    let walls = scene.walls();
    let want: Vec<Collision> = [0u32, 1, 2, 3, 5, 6, 7, 8]
        .iter()
        .map(|k| Collision { id: *k as u64, pos: Pos { x: k / 3, y: k % 3 } })
        .collect();
    assert_eq!(walls, want);
    assert_eq!(Scene::basic().walls().len(), 36);
}
