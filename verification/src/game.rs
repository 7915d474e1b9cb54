//! The game: one snake, one grid with its walls, at most one piece of food,
//! and the tick that moves them on.

use vstd::prelude::*;
use crate::collision::{check, colliding_ids, lemma_colliding_ids};
use crate::components::{Age, Collision, Direction, Food, Pos, SnakeBody};
use crate::food::{
    lemma_placement, no_vacancy, place_from_draws, placement, spawn, vacant, SPAWN_ATTEMPTS,
};
use crate::pos_set::{positions, PosSet};
use crate::scene::{lemma_walls, Scene};
use crate::snake::{aged, lemma_trail_length, Snake, SnakeModel};

verus! {

/// Why a tick did nothing.
#[derive(Copy, Clone, PartialEq, Eq, Debug, Structural)]
pub enum TickError {
    /// The move would have taken the head off the grid.
    OutOfBounds,
}

/// What one tick did, for whoever draws the game.
#[derive(PartialEq, Eq, Debug)]
pub struct TickReport {
    /// Where the head was.
    pub from: Pos,
    /// Where the head is now.
    pub to: Pos,
    /// The body segment that the move left behind.
    pub segment: SnakeBody,
    /// The id of the food that was eaten, if any was.
    pub eaten: Option<u64>,
    /// The ids of the body segments that expired.
    pub pruned: Vec<u64>,
    /// The food that was put on the grid, if any was.
    pub food: Option<Food>,
    /// The ids of the walls and body segments that the head ran into.
    pub collisions: Vec<u64>,
}

/// The state of a game between two ticks.
#[derive(Debug)]
pub struct Game {
    pub scene: Scene,
    pub snake: Snake,
    pub food: Option<Food>,
    /// The wall tiles. They never change.
    pub walls: Vec<Collision>,
    /// The id that the next new thing on the grid gets.
    pub next_id: u64,
}

/// A body segment, as something to collide with.
pub open spec fn segment_collision(b: SnakeBody) -> Collision {
    Collision { id: b.id, pos: b.pos }
}

/// Everything that takes part in collisions: the walls, then the body
/// segments from the head backwards, then the head.
pub open spec fn collidables(walls: Seq<Collision>, snake: SnakeModel) -> Seq<Collision> {
    walls + snake.body.map_values(|b: SnakeBody| segment_collision(b)) + seq![
        Collision { id: snake.id, pos: snake.pos },
    ]
}

/// The food that a tick puts on the grid: none while there is food; else
/// one with the id `id` where the spawner finds room, given what it drew.
pub open spec fn respawned(
    scene: Scene,
    occupied: Set<Pos>,
    present: Option<Food>,
    draws: Seq<Pos>,
    id: u64,
) -> Option<Food> {
    if present is Some {
        None
    } else {
        match placement(scene, occupied, draws) {
            Some(p) => Some(Food { id, pos: p }),
            None => None,
        }
    }
}

impl Game {
    /// The coordinates that something collidable occupies.
    pub open spec fn occupied(&self) -> Set<Pos> {
        positions(collidables(self.walls@, self.snake@))
    }

    /// What holds of a game between two ticks.
    pub open spec fn wf(&self) -> bool {
        &&& self.scene.wf()
        &&& self.snake@.wf()
        &&& self.snake@.settled()
        &&& self.scene.contains(self.snake.pos)
        &&& self.walls@ == self.scene.spec_walls()
        &&& self.scene.area() <= self.snake.id < self.next_id
        &&& forall|i: int|
            0 <= i < self.snake.body@.len() ==> {
                &&& self.snake.id < (#[trigger] self.snake.body@[i]).id < self.next_id
                &&& self.scene.contains(self.snake.body@[i].pos)
            }
        &&& self.food matches Some(f) ==> {
            &&& self.snake.id < f.id < self.next_id
            &&& vacant(self.scene, self.occupied(), f.pos)
        }
    }

    /// The machine's limits leave room for one more tick: two more ids can
    /// be given out, and the snake can get one longer.
    pub open spec fn spec_has_headroom(&self) -> bool {
        self.next_id <= u64::MAX - 2 && self.snake.meta.len < u32::MAX
    }

    /// The next move would take the head off the grid.
    pub open spec fn blocked(&self) -> bool {
        match self.snake@.next_pos() {
            Some(p) => !self.scene.contains(p),
            None => true,
        }
    }

    /// Whether the head is on the food.
    pub open spec fn on_food(&self) -> bool {
        self.food matches Some(f) && f.pos == self.snake.pos
    }

    /// Whether the next move takes the head onto the food.
    pub open spec fn eats(&self) -> bool {
        self.food matches Some(f) && Some(f.pos) == self.snake@.next_pos()
    }

    /// What a tick does where the head can move, given the coordinates that
    /// the food spawner drew: `post` and `report` are the state and the
    /// report that the tick leaves.
    ///
    /// The head moves and leaves a segment behind, under the next free id.
    /// If the head is then on the food, the food goes and the snake grows.
    /// The body ages. If there is no food then, the spawner looks for a
    /// vacant tile and the food goes there, under the next free id. The
    /// report lists what the head ran into.
    pub open spec fn ticked(&self, draws: Seq<Pos>, post: Game, report: TickReport) -> bool {
        let ate = self.eats();
        let left = if ate {
            None
        } else {
            self.food
        };
        let seg_id = self.next_id;
        let food_id = (self.next_id + 1) as u64;
        &&& post.scene == self.scene
        &&& post.walls@ == self.walls@
        &&& post.snake@ == self.snake@.moved(seg_id, ate)
        &&& report.from == self.snake.pos
        &&& Some(report.to) == self.snake@.next_pos()
        &&& report.segment == (SnakeBody { id: seg_id, pos: self.snake.pos, age: Age(0) })
        &&& report.eaten == if ate {
            Some(self.food.unwrap().id)
        } else {
            None
        }
        &&& report.pruned@ == self.snake@.fed(seg_id, ate).pruned()
        &&& report.food == respawned(post.scene, post.occupied(), left, draws, food_id)
        &&& post.food == if left is Some {
            left
        } else {
            report.food
        }
        &&& post.next_id == if report.food is Some {
            self.next_id + 2
        } else {
            self.next_id + 1
        }
        &&& report.collisions@ == colliding_ids(
            post.snake.id,
            post.snake.pos,
            collidables(post.walls@, post.snake@),
        )
    }

    /// What a tick leaves, whether the head can move or not.
    pub open spec fn tick_outcome(
        &self,
        draws: Seq<Pos>,
        post: Game,
        r: Result<TickReport, TickError>,
    ) -> bool {
        match r {
            Ok(report) => !self.blocked() && self.ticked(draws, post, report),
            Err(e) => self.blocked() && e == TickError::OutOfBounds && post == *self,
        }
    }

    /// A new game on `scene`: the walls stand, the snake is at `start` with
    /// no body yet, four long and heading right, and there is no food yet.
    /// The tiles have the ids below the number of tiles, the head has the
    /// next id.
    pub fn new(scene: Scene, start: Pos) -> (g: Game)
        requires
            scene.wf(),
            scene.contains(start),
        ensures
            g.wf(),
            g.spec_has_headroom(),
            g.scene == scene,
            g.snake@ == SnakeModel::initial(scene.area() as u64, start),
            g.food is None,
            g.walls@ == scene.spec_walls(),
            g.next_id == scene.area() + 1,
    {
        let head_id: u64 = scene.tile_count();
        proof {
            crate::scene::lemma_area_bound(scene.x_size, scene.y_size);
        }
        Game {
            scene,
            snake: Snake::new(head_id, start),
            food: None,
            walls: scene.walls(),
            next_id: head_id + 1,
        }
    }

    /// The game as it starts: a grid of ten by ten tiles, the snake at
    /// (5, 5).
    pub fn basic() -> (g: Game)
        ensures
            g.wf(),
            g.spec_has_headroom(),
            g.scene == (Scene { x_size: 10, y_size: 10 }),
            g.snake@ == SnakeModel::initial(100, Pos { x: 5, y: 5 }),
            g.food is None,
            g.next_id == 101,
    {
        Game::new(Scene::basic(), Pos { x: 5, y: 5 })
    }

    /// Width and height of the grid, in tiles.
    pub fn grid_dimensions(&self) -> (r: (u32, u32))
        ensures
            r == (self.scene.x_size, self.scene.y_size),
    {
        self.scene.dimensions()
    }

    /// Whether the machine's limits leave room for one more tick.
    #[verifier::when_used_as_spec(spec_has_headroom)]
    pub fn has_headroom(&self) -> (r: bool)
        ensures
            r == self.spec_has_headroom(),
    {
        self.next_id <= u64::MAX - 2 && self.snake.meta.len < u32::MAX
    }

    /// Asks the snake to head in direction `d` from the next tick on. The
    /// request is taken unless `d` is the opposite of the direction of the
    /// last move. Of several requests between two ticks, the last one taken
    /// counts. Returns whether the request was taken.
    pub fn request_direction(&mut self, d: Direction) -> (taken: bool)
        ensures
            old(self).wf() ==> final(self).wf(),
            final(self).snake@ == old(self).snake@.steer(d),
            taken == (d != old(self).snake.meta.prev_dir.opposite()),
            final(self).scene == old(self).scene,
            final(self).food == old(self).food,
            final(self).walls == old(self).walls,
            final(self).next_id == old(self).next_id,
    {
        let taken = self.snake.set_requested_direction(d);
        assert(collidables(self.walls@, self.snake@) == collidables(
            old(self).walls@,
            old(self).snake@,
        ));
        taken
    }

    /// The eat check, after the head has moved: if the head is on the food,
    /// the food goes and the snake gets one longer. Returns the id of the
    /// food that was eaten, if any was.
    pub fn eat_food(&mut self) -> (eaten: Option<u64>)
        requires
            old(self).on_food() ==> old(self).snake.meta.len < u32::MAX,
        ensures
            final(self).scene == old(self).scene,
            final(self).walls == old(self).walls,
            final(self).next_id == old(self).next_id,
            old(self).on_food() ==> {
                &&& final(self).food is None
                &&& final(self).snake@ == old(self).snake@.grow()
                &&& eaten == Some(old(self).food.unwrap().id)
            },
            !old(self).on_food() ==> {
                &&& final(self).food == old(self).food
                &&& final(self).snake@ == old(self).snake@
                &&& eaten is None
            },
    {
        match self.food {
            Some(f) => {
                if f.pos == self.snake.pos {
                    self.food = None;
                    self.snake.grow();
                    Some(f.id)
                } else {
                    None
                }
            },
            None => None,
        }
    }

    /// Everything that takes part in collisions: the walls, then the body
    /// segments from the head backwards, then the head.
    pub fn collidable(&self) -> (r: Vec<Collision>)
        ensures
            r@ == collidables(self.walls@, self.snake@),
    {
        let mut items: Vec<Collision> = Vec::new();
        let mut i: usize = 0;
        while i < self.walls.len()
            invariant
                i <= self.walls.len(),
                items@ == self.walls@.take(i as int),
            decreases self.walls.len() - i,
        {
            items.push(self.walls[i]);
            assert(self.walls@.take(i + 1) =~= self.walls@.take(i as int).push(
                self.walls@[i as int],
            ));
            i = i + 1;
        }
        assert(self.walls@.take(self.walls.len() as int) =~= self.walls@);
        let ghost parts = self.snake.body@.map_values(|b: SnakeBody| segment_collision(b));
        let mut j: usize = 0;
        while j < self.snake.body.len()
            invariant
                j <= self.snake.body.len(),
                parts == self.snake.body@.map_values(|b: SnakeBody| segment_collision(b)),
                items@ == self.walls@ + parts.take(j as int),
            decreases self.snake.body.len() - j,
        {
            let b = self.snake.body[j];
            items.push(Collision { id: b.id, pos: b.pos });
            assert(parts.take(j + 1) =~= parts.take(j as int).push(parts[j as int]));
            assert(items@ =~= self.walls@ + parts.take(j + 1));
            j = j + 1;
        }
        assert(parts.take(self.snake.body.len() as int) =~= parts);
        items.push(Collision { id: self.snake.id, pos: self.snake.pos });
        assert(items@ =~= collidables(self.walls@, self.snake@));
        items
    }

    /// One tick, with the food spawner's draws either given or made at
    /// random. Also returns the draws that stand for what the spawner did.
    fn step(&mut self, given: Option<&Vec<Pos>>) -> (r: (
        Result<TickReport, TickError>,
        Ghost<Seq<Pos>>,
    ))
        requires
            old(self).wf(),
            old(self).spec_has_headroom(),
        ensures
            final(self).wf(),
            old(self).tick_outcome(r.1@, *final(self), r.0),
            given matches Some(d) ==> r.1@ == d@,
            given is None ==> r.1@.len() <= SPAWN_ATTEMPTS,
    {
        let ghost pre = *self;
        let ghost mut used: Seq<Pos> = match given {
            Some(d) => d@,
            None => Seq::empty(),
        };
        let next = self.snake.next_pos();
        if next.is_none() || !self.scene.contains(next.unwrap()) {
            return (Err(TickError::OutOfBounds), Ghost(used));
        }
        let to = next.unwrap();
        let from = self.snake.pos;
        let seg_id: u64 = self.next_id;
        let ghost ate = pre.eats();
        self.snake.advance(seg_id);
        self.next_id = self.next_id + 1;
        let eaten = self.eat_food();
        assert(self.snake@ == pre.snake@.fed(seg_id, ate));
        let pruned = self.snake.age_and_prune();
        let collidable = self.collidable();
        let mut spawned: Option<Food> = None;
        if self.food.is_none() {
            let occupied = PosSet::of_collisions(&collidable);
            let place = match given {
                Some(d) => place_from_draws(&self.scene, &occupied, d),
                None => {
                    let place = spawn(&self.scene, &occupied);
                    proof {
                        used = choose|draws: Seq<Pos>|
                            draws.len() <= SPAWN_ATTEMPTS && place == #[trigger] placement(
                                self.scene,
                                occupied@,
                                draws,
                            );
                    }
                    place
                },
            };
            match place {
                Some(p) => {
                    let food = Food { id: self.next_id, pos: p };
                    self.food = Some(food);
                    self.next_id = self.next_id + 1;
                    spawned = Some(food);
                },
                None => {},
            }
        }
        let collisions = check(self.snake.id, self.snake.pos, &collidable);
        let report = TickReport {
            from,
            to,
            segment: SnakeBody { id: seg_id, pos: from, age: Age(0) },
            eaten,
            pruned,
            food: spawned,
            collisions,
        };
        proof {
            lemma_tick(pre, used, *self, report);
        }
        (Ok(report), Ghost(used))
    }

    /// What the things on the grid occupy after the head has moved: nothing
    /// but what they occupied before, and the head's new tile. The body
    /// stays on the grid, and its ids stay between the head's id and the
    /// next free one.
    proof fn lemma_occupied_after(&self, seg_id: u64, ate: bool, post: Game)
        requires
            self.wf(),
            ate ==> self.snake.meta.len < u32::MAX,
            !self.blocked(),
            seg_id == self.next_id,
            post.walls@ == self.walls@,
            post.snake@ == self.snake@.moved(seg_id, ate),
        ensures
            forall|p: Pos| #[trigger]
                post.occupied().contains(p) ==> self.occupied().contains(p) || Some(p)
                    == self.snake@.next_pos(),
            post.occupied().contains(post.snake.pos),
            forall|i: int|
                0 <= i < post.snake.body@.len() ==> {
                    &&& post.snake.id < (#[trigger] post.snake.body@[i]).id <= seg_id
                    &&& self.scene.contains(post.snake.body@[i].pos)
                },
    {
        let s = self.snake@;
        let t = post.snake@;
        lemma_trail_length(s, seg_id, ate);
        let before = collidables(self.walls@, s);
        let after = collidables(post.walls@, t);
        let nw = self.walls@.len() as int;
        assert(before[nw + s.body.len()].pos == s.pos);
        assert forall|i: int| 0 <= i < t.body.len() implies {
            &&& post.snake.id < (#[trigger] t.body[i]).id <= seg_id
            &&& self.scene.contains(t.body[i].pos)
            &&& self.occupied().contains(t.body[i].pos)
        } by {
            if i > 0 {
                assert(t.body[i] == aged(s.body[i - 1]));
                assert(before[nw + i - 1].pos == s.body[i - 1].pos);
            }
        }
        assert forall|p: Pos| #[trigger]
            post.occupied().contains(p) implies self.occupied().contains(p) || Some(p)
            == s.next_pos() by {
            let k = choose|k: int| 0 <= k < after.len() && #[trigger] after[k].pos == p;
            if k < nw {
                assert(before[k].pos == p);
            } else if k < nw + t.body.len() {
                assert(after[k].pos == t.body[k - nw].pos);
            }
        }
        assert(after[nw + t.body.len()].pos == t.pos);
    }

    /// One tick with the food spawner's draws given: the spawner tries the
    /// coordinates in `draws` in place of random ones. Where the move would
    /// take the head off the grid, nothing changes and the tick fails.
    pub fn tick_with(&mut self, draws: &Vec<Pos>) -> (r: Result<TickReport, TickError>)
        requires
            old(self).wf(),
            old(self).spec_has_headroom(),
        ensures
            final(self).wf(),
            old(self).tick_outcome(draws@, *final(self), r),
    {
        let (r, _) = self.step(Some(draws));
        r
    }

    /// One tick: the head moves; if it is then on the food, the food goes
    /// and the snake grows; the body ages; if there is no food, food is put
    /// on a vacant tile, if there is one; and the things the head ran into
    /// are listed. Where the move would take the head off the grid, nothing
    /// changes and the tick fails.
    pub fn tick(&mut self) -> (r: Result<TickReport, TickError>)
        requires
            old(self).wf(),
            old(self).spec_has_headroom(),
        ensures
            final(self).wf(),
            exists|draws: Seq<Pos>|
                draws.len() <= SPAWN_ATTEMPTS && #[trigger] old(self).tick_outcome(
                    draws,
                    *final(self),
                    r,
                ),
    {
        let (r, _) = self.step(None);
        r
    }
}

/// What every tick that moves the head leaves behind.
///
/// The game is well formed again, where two more ids could be given out.
/// The body is one segment longer than before, or as long as the snake's
/// length allows, one less than the length; where it was at most one short
/// of that before the tick, it is exactly one less than the length after
/// it. The segment nearest the head is the new one: it lies where the head
/// was, with age zero. Food is never on an occupied coordinate, and where
/// there is no room, there is no food. A snake that ate is one longer and
/// lost no segment in this tick. Every wall and every body segment on the
/// head's tile is reported, the head itself never is, and a head on the
/// border has run into the wall there.
pub proof fn lemma_tick(pre: Game, draws: Seq<Pos>, post: Game, report: TickReport)
    requires
        pre.wf(),
        pre.eats() ==> pre.snake.meta.len < u32::MAX,
        !pre.blocked(),
        pre.ticked(draws, post, report),
    ensures
        pre.next_id <= u64::MAX - 2 ==> post.wf(),
        post.snake.body@.len() == if pre.snake.body@.len() + 1 < post.snake.meta.len - 1 {
            pre.snake.body@.len() + 1
        } else {
            (post.snake.meta.len - 1) as nat
        },
        pre.snake.body@.len() + 2 >= post.snake.meta.len ==> post.snake.body@.len()
            == post.snake.meta.len - 1,
        post.snake.body@[0] == report.segment,
        post.food matches Some(f) ==> vacant(post.scene, post.occupied(), f.pos),
        (pre.food is None || pre.eats()) && (post.occupied().len() == post.scene.area()
            || no_vacancy(post.scene, post.occupied())) ==> post.food is None,
        pre.eats() ==> {
            &&& report.eaten == Some(pre.food.unwrap().id)
            &&& post.food != pre.food
            &&& post.snake.meta.len == pre.snake.meta.len + 1
            &&& report.pruned@ == Seq::<u64>::empty()
        },
        !pre.eats() ==> report.eaten is None && post.snake.meta.len == pre.snake.meta.len,
        !report.collisions@.contains(post.snake.id),
        forall|i: int|
            0 <= i < post.walls@.len() && (#[trigger] post.walls@[i]).pos == post.snake.pos
                ==> report.collisions@.contains(post.walls@[i].id),
        forall|i: int|
            0 <= i < post.snake.body@.len() && (#[trigger] post.snake.body@[i]).pos
                == post.snake.pos ==> report.collisions@.contains(post.snake.body@[i].id),
        post.scene.on_border(post.snake.pos) ==> report.collisions@.contains(
            post.scene.tile_id(post.snake.pos) as u64,
        ),
{
    let ate = pre.eats();
    let seg_id = pre.next_id;
    let s = pre.snake@;
    let t = post.snake@;
    lemma_trail_length(s, seg_id, ate);
    pre.lemma_occupied_after(seg_id, ate, post);
    let left = if ate {
        None
    } else {
        pre.food
    };
    lemma_placement(post.scene, post.occupied(), draws);
    let items = collidables(post.walls@, t);
    let nw = post.walls@.len() as int;
    assert forall|i: int|
        0 <= i < post.walls@.len() && (#[trigger] post.walls@[i]).pos
            == post.snake.pos implies report.collisions@.contains(post.walls@[i].id) by {
        let c = post.walls@[i];
        lemma_walls(post.scene, c);
        lemma_colliding_ids(post.snake.id, post.snake.pos, items, c.id);
        assert(items[i] == c);
    }
    assert forall|i: int|
        0 <= i < post.snake.body@.len() && (#[trigger] post.snake.body@[i]).pos
            == post.snake.pos implies report.collisions@.contains(post.snake.body@[i].id) by {
        let b = post.snake.body@[i];
        lemma_colliding_ids(post.snake.id, post.snake.pos, items, b.id);
        assert(items[nw + i] == segment_collision(b));
    }
    lemma_colliding_ids(post.snake.id, post.snake.pos, items, post.snake.id);
    if post.scene.on_border(post.snake.pos) {
        let c = Collision { id: post.scene.tile_id(post.snake.pos) as u64, pos: post.snake.pos };
        crate::scene::lemma_area_bound(post.scene.x_size, post.scene.y_size);
        lemma_walls(post.scene, c);
        let i = choose|i: int| 0 <= i < post.walls@.len() && post.walls@[i] == c;
        assert(post.walls@[i].pos == post.snake.pos);
    }
}

/// What a tick leaves where the head moves onto the food.
///
/// The food that was there is gone: its id is reported as eaten, and what
/// food there is after the tick was newly placed, on another tile. The
/// snake is one longer. The ageing uses the new length, so the segment that
/// would have expired is kept: no segment is removed, and the body is the
/// new segment followed by every old one, each a tick older.
pub proof fn lemma_eating(pre: Game, draws: Seq<Pos>, post: Game, report: TickReport)
    requires
        pre.wf(),
        pre.eats(),
        pre.snake.meta.len < u32::MAX,
        !pre.blocked(),
        pre.ticked(draws, post, report),
    ensures
        report.eaten == Some(pre.food.unwrap().id),
        post.food == report.food,
        post.food matches Some(f) ==> f.pos != pre.food.unwrap().pos,
        post.snake.pos == pre.food.unwrap().pos,
        post.snake.meta.len == pre.snake.meta.len + 1,
        report.pruned@ == Seq::<u64>::empty(),
        post.snake.body@.len() == pre.snake.body@.len() + 1,
        post.snake.body@[0] == report.segment,
        forall|i: int|
            0 < i < post.snake.body@.len() ==> #[trigger] post.snake.body@[i] == aged(
                pre.snake.body@[i - 1],
            ),
{
    let seg_id = pre.next_id;
    lemma_trail_length(pre.snake@, seg_id, true);
    pre.lemma_occupied_after(seg_id, true, post);
    lemma_placement(post.scene, post.occupied(), draws);
    let n = pre.snake.body@.len() as int;
    assert(n < pre.snake.meta.len) by {
        if n > 0 {
            assert(pre.snake.body@[n - 1].age.0 + 1 < pre.snake.meta.len);
        }
    }
}

} // verus!
