//! The grid: its bounds, and the tile layer of walls and floor built on it.

use vstd::prelude::*;
use crate::components::{Collision, Pos};
use crate::filtering::{lemma_filter_map_member, lemma_filter_map_origin};

verus! {

/// What a tile is made of.
#[derive(Copy, Clone, PartialEq, Eq, Hash, Debug, Structural)]
pub enum TileType {
    Wall,
    Floor,
}

impl TileType {
    /// Walls collide, floor does not.
    pub open spec fn spec_has_collision(&self) -> bool {
        *self == TileType::Wall
    }

    /// Whether a tile of this type takes part in collisions.
    #[verifier::when_used_as_spec(spec_has_collision)]
    pub fn has_collision(&self) -> (r: bool)
        ensures
            r == self.spec_has_collision(),
    {
        match self {
            TileType::Wall => true,
            TileType::Floor => false,
        }
    }
}

/// One tile of the scene. Tiles never change once the scene is built.
#[derive(Copy, Clone, PartialEq, Eq, Debug, Structural)]
pub struct Tile {
    pub id: u64,
    pub pos: Pos,
    pub kind: TileType,
}

/// The grid the game is played on: `x_size` tiles wide and `y_size` tiles
/// high.
#[derive(Copy, Clone, PartialEq, Eq, Debug, Structural)]
pub struct Scene {
    pub x_size: u32,
    pub y_size: u32,
}

/// The product of two `u32` fits in a `u64`, with room to spare.
pub proof fn lemma_area_bound(x: u32, y: u32)
    ensures
        0 <= x * y <= 0xffff_fffe_0000_0001,
        y > 0 ==> x * y + y <= 0xffff_ffff_0000_0000,
{
    assert(0 <= x * y <= 0xffff_ffff * 0xffff_ffff) by (nonlinear_arith)
        requires
            0 <= x <= 0xffff_ffff,
            0 <= y <= 0xffff_ffff,
    ;
    assert(x * y + y == (x + 1) * y) by (nonlinear_arith);
    assert((x + 1) * y <= 0x1_0000_0000 * 0xffff_ffff) by (nonlinear_arith)
        requires
            0 <= x + 1 <= 0x1_0000_0000,
            0 <= y <= 0xffff_ffff,
    ;
}

/// What a tile contributes to collisions: itself if it is a wall, nothing
/// if it is floor.
pub open spec fn wall_of(t: Tile) -> Option<Collision> {
    if t.kind.has_collision() {
        Some(Collision { id: t.id, pos: t.pos })
    } else {
        None
    }
}

impl Scene {
    /// A scene leaves room for play inside its ring of walls: it is at least
    /// three tiles wide and three tiles high.
    pub open spec fn wf(&self) -> bool {
        self.x_size >= 3 && self.y_size >= 3
    }

    /// The number of tiles.
    pub open spec fn area(&self) -> int {
        self.x_size * self.y_size
    }

    /// Whether `p` is a coordinate of the grid.
    pub open spec fn spec_contains(&self, p: Pos) -> bool {
        p.x < self.x_size && p.y < self.y_size
    }

    /// Whether `p` lies on the outermost ring of the grid.
    pub open spec fn on_border(&self, p: Pos) -> bool {
        p.x == 0 || p.y == 0 || p.x == self.x_size - 1 || p.y == self.y_size - 1
    }

    /// What the tile at `p` is made of: the outermost ring is wall, the
    /// interior is floor.
    pub open spec fn spec_tile_type_at(&self, p: Pos) -> TileType {
        if self.on_border(p) {
            TileType::Wall
        } else {
            TileType::Floor
        }
    }

    /// The id of the tile at `p`: tiles are numbered by `x` first, then by
    /// `y`.
    pub open spec fn tile_id(&self, p: Pos) -> int {
        p.x * self.y_size + p.y
    }

    /// The tile at `p`.
    pub open spec fn tile_at(&self, p: Pos) -> Tile {
        Tile { id: self.tile_id(p) as u64, pos: p, kind: self.spec_tile_type_at(p) }
    }

    /// The tile layer: one tile for each coordinate of the grid, ordered by
    /// `x` first, then by `y`.
    pub open spec fn spec_tiles(&self) -> Seq<Tile> {
        Seq::new(
            self.area() as nat,
            |k: int|
                self.tile_at(
                    Pos { x: (k / self.y_size as int) as u32, y: (k % self.y_size as int) as u32 },
                ),
        )
    }

    /// The walls: the tiles of the tile layer that collide, in the layer's
    /// order.
    pub open spec fn spec_walls(&self) -> Seq<Collision> {
        self.spec_tiles().filter_map(|t: Tile| wall_of(t))
    }

    /// A scene of the given size, if it is at least three tiles wide and
    /// three tiles high.
    pub fn new(x_size: u32, y_size: u32) -> (r: Option<Scene>)
        ensures
            r == if x_size >= 3 && y_size >= 3 {
                Some(Scene { x_size, y_size })
            } else {
                None::<Scene>
            },
    {
        if x_size >= 3 && y_size >= 3 {
            Some(Scene { x_size, y_size })
        } else {
            None
        }
    }

    /// The scene the game starts with: ten by ten tiles.
    pub fn basic() -> (r: Scene)
        ensures
            r == (Scene { x_size: 10, y_size: 10 }),
            r.wf(),
    {
        Scene { x_size: 10, y_size: 10 }
    }

    /// Width and height, in tiles.
    pub fn dimensions(&self) -> (r: (u32, u32))
        ensures
            r == (self.x_size, self.y_size),
    {
        (self.x_size, self.y_size)
    }

    /// Whether `p` is a coordinate of the grid.
    #[verifier::when_used_as_spec(spec_contains)]
    pub fn contains(&self, p: Pos) -> (r: bool)
        ensures
            r == self.spec_contains(p),
    {
        p.x < self.x_size && p.y < self.y_size
    }

    /// The number of tiles.
    pub fn tile_count(&self) -> (r: u64)
        ensures
            r == self.area(),
    {
        proof {
            lemma_area_bound(self.x_size, self.y_size);
        }
        (self.x_size as u64) * (self.y_size as u64)
    }

    /// Whether a set of `occupied_count` coordinates takes up as many tiles
    /// as the grid has.
    pub fn is_full(&self, occupied_count: usize) -> (r: bool)
        ensures
            r == (occupied_count == self.area()),
    {
        occupied_count as u64 == self.tile_count()
    }

    /// What the tile at `p` is made of.
    #[verifier::when_used_as_spec(spec_tile_type_at)]
    pub fn tile_type_at(&self, p: Pos) -> (r: TileType)
        ensures
            r == self.spec_tile_type_at(p),
    {
        if p.x == 0 || p.y == 0 || (self.x_size > 0 && p.x == self.x_size - 1) || (self.y_size > 0
            && p.y == self.y_size - 1) {
            TileType::Wall
        } else {
            TileType::Floor
        }
    }

    /// Builds the tile layer: a ring of wall around an interior of floor, one
    /// tile for each coordinate, ordered by `x` first, then by `y`.
    pub fn tiles(&self) -> (r: Vec<Tile>)
        ensures
            r@ == self.spec_tiles(),
    {
        let mut tiles: Vec<Tile> = Vec::new();
        let h: u64 = self.y_size as u64;
        let mut i: u32 = 0;
        while i < self.x_size
            invariant
                i <= self.x_size,
                h == self.y_size,
                tiles@.len() == i * self.y_size,
                forall|k: int| 0 <= k < tiles@.len() ==> tiles@[k] == self.spec_tiles()[k],
            decreases self.x_size - i,
        {
            let mut j: u32 = 0;
            while j < self.y_size
                invariant
                    i < self.x_size,
                    j <= self.y_size,
                    h == self.y_size,
                    tiles@.len() == i * self.y_size + j,
                    forall|k: int| 0 <= k < tiles@.len() ==> tiles@[k] == self.spec_tiles()[k],
                decreases self.y_size - j,
            {
                let p = Pos { x: i, y: j };
                proof {
                    lemma_area_bound(i, self.y_size);
                    lemma_cell_index(i as int, j as int, self.y_size as int);
                    lemma_cell_in_area(i as int, j as int, self.x_size as int, self.y_size as int);
                }
                let id: u64 = (i as u64) * h + (j as u64);
                tiles.push(Tile { id, pos: p, kind: self.tile_type_at(p) });
                j = j + 1;
            }
            proof {
                assert(i * self.y_size + self.y_size == (i + 1) * self.y_size) by (nonlinear_arith);
            }
            i = i + 1;
        }
        assert(tiles@ =~= self.spec_tiles());
        tiles
    }

    /// Builds the tile layer and lists the tiles of it that collide.
    pub fn walls(&self) -> (r: Vec<Collision>)
        ensures
            r@ == self.spec_walls(),
    {
        let tiles = self.tiles();
        let mut walls: Vec<Collision> = Vec::new();
        let mut i: usize = 0;
        while i < tiles.len()
            invariant
                i <= tiles.len(),
                walls@ == tiles@.take(i as int).filter_map(|t: Tile| wall_of(t)),
            decreases tiles.len() - i,
        {
            let t = tiles[i];
            proof {
                assert(tiles@.take(i + 1).drop_last() =~= tiles@.take(i as int));
            }
            if t.kind.has_collision() {
                walls.push(Collision { id: t.id, pos: t.pos });
            }
            i = i + 1;
        }
        assert(tiles@.take(tiles.len() as int) =~= tiles@);
        walls
    }
}

/// The walls are the ring of tiles on the border of the grid, each under its
/// tile's id: a tile of the grid is among the walls exactly where it lies on
/// the border, and nothing else is among them.
pub proof fn lemma_walls(scene: Scene, c: Collision)
    ensures
        scene.spec_walls().contains(c) <==> scene.contains(c.pos) && scene.on_border(c.pos) && c.id
            == scene.tile_id(c.pos),
        scene.contains(c.pos) ==> 0 <= scene.tile_id(c.pos) < scene.area(),
{
    let tiles = scene.spec_tiles();
    let f = |t: Tile| wall_of(t);
    let walls = scene.spec_walls();
    let h = scene.y_size as int;
    lemma_area_bound(scene.x_size, scene.y_size);
    if scene.contains(c.pos) {
        let k = scene.tile_id(c.pos);
        lemma_cell_in_area(c.pos.x as int, c.pos.y as int, scene.x_size as int, h);
        lemma_cell_index(c.pos.x as int, c.pos.y as int, h);
        assert(tiles[k] == scene.tile_at(c.pos));
        if scene.on_border(c.pos) && c.id == k {
            lemma_filter_map_member(tiles, f, k);
        }
    }
    if walls.contains(c) {
        let j = choose|j: int| 0 <= j < walls.len() && walls[j] == c;
        lemma_filter_map_origin(tiles, f, j);
        let k = choose|k: int| 0 <= k < tiles.len() && #[trigger] f(tiles[k]) == Some(walls[j]);
        assert(h > 0) by {
            if h == 0 {
                assert(scene.x_size * scene.y_size == 0) by (nonlinear_arith)
                    requires
                        scene.y_size == 0,
                ;
            }
        }
        let p = Pos { x: (k / h) as u32, y: (k % h) as u32 };
        vstd::arithmetic::div_mod::lemma_fundamental_div_mod(k, h);
        vstd::arithmetic::div_mod::lemma_mod_bound(k, h);
        assert(0 <= k / h < scene.x_size) by (nonlinear_arith)
            requires
                0 <= k < scene.x_size * h,
                h > 0,
                k == h * (k / h) + k % h,
                0 <= k % h < h,
        ;
        assert(tiles[k] == scene.tile_at(p));
        assert(h * (k / h) == (k / h) * h) by (nonlinear_arith);
    }
}

/// The cell `(i, j)` of a grid of height `h` is the cell number `i * h + j`.
pub proof fn lemma_cell_index(i: int, j: int, h: int)
    requires
        0 <= i,
        0 <= j < h,
    ensures
        (i * h + j) / h == i,
        (i * h + j) % h == j,
{
    vstd::arithmetic::div_mod::lemma_fundamental_div_mod_converse(i * h + j, h, i, j);
}

/// A cell of the grid has a number below the grid's area.
pub proof fn lemma_cell_in_area(i: int, j: int, w: int, h: int)
    requires
        0 <= i < w,
        0 <= j < h,
    ensures
        0 <= i * h + j < w * h,
{
    assert(i * h + h <= w * h) by (nonlinear_arith)
        requires
            i + 1 <= w,
            0 <= h,
    ;
    assert(0 <= i * h) by (nonlinear_arith)
        requires
            0 <= i,
            0 <= h,
    ;
}

} // verus!
