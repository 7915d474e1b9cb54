//! The food spawner: finds a vacant tile for the food, first by drawing
//! coordinates at random, then by scanning the whole grid.

use vstd::prelude::*;
use rand::Rng;
use rand::rngs::ThreadRng;
use crate::components::Pos;
use crate::pos_set::PosSet;
use crate::scene::Scene;

verus! {

/// How many coordinates the spawner draws at random before it scans the grid.
pub const SPAWN_ATTEMPTS: u32 = 100;

/// A tile of the grid that nothing occupies.
pub open spec fn vacant(scene: Scene, occupied: Set<Pos>, p: Pos) -> bool {
    scene.contains(p) && !occupied.contains(p)
}

/// The order in which the grid is scanned, row by row: the row with the
/// least `y` first, and within a row the tile with the least `x` first.
pub open spec fn precedes(q: Pos, p: Pos) -> bool {
    q.y < p.y || (q.y == p.y && q.x < p.x)
}

/// Every tile of the grid is occupied.
pub open spec fn no_vacancy(scene: Scene, occupied: Set<Pos>) -> bool {
    forall|q: Pos| scene.contains(q) ==> #[trigger] occupied.contains(q)
}

/// `p` is vacant, and every tile of the grid that the scan reaches before
/// `p` is occupied.
pub open spec fn first_vacant(scene: Scene, occupied: Set<Pos>, p: Pos) -> bool {
    &&& vacant(scene, occupied, p)
    &&& forall|q: Pos| scene.contains(q) && precedes(q, p) ==> #[trigger] occupied.contains(q)
}

/// The first vacant tile in scanning order, if the grid has a vacant tile.
pub open spec fn scan(scene: Scene, occupied: Set<Pos>) -> Option<Pos> {
    if exists|p: Pos| first_vacant(scene, occupied, p) {
        Some(choose|p: Pos| first_vacant(scene, occupied, p))
    } else {
        None
    }
}

/// The first of the drawn coordinates that is a vacant tile of the grid.
pub open spec fn first_vacant_draw(scene: Scene, occupied: Set<Pos>, draws: Seq<Pos>) -> Option<
    Pos,
>
    decreases draws.len(),
{
    if draws.len() == 0 {
        None
    } else if vacant(scene, occupied, draws[0]) {
        Some(draws[0])
    } else {
        first_vacant_draw(scene, occupied, draws.drop_first())
    }
}

/// Where the food goes, given the coordinates that were drawn: nowhere if
/// the occupied coordinates are as many as the grid has tiles; else on the
/// first drawn coordinate that is vacant; else on the first vacant tile in
/// scanning order, if there is one.
pub open spec fn placement(scene: Scene, occupied: Set<Pos>, draws: Seq<Pos>) -> Option<Pos> {
    if occupied.len() == scene.area() {
        None
    } else {
        match first_vacant_draw(scene, occupied, draws) {
            Some(p) => Some(p),
            None => scan(scene, occupied),
        }
    }
}

/// At most one tile is the first vacant one.
pub proof fn lemma_first_vacant_unique(scene: Scene, occupied: Set<Pos>, p: Pos, q: Pos)
    requires
        first_vacant(scene, occupied, p),
        first_vacant(scene, occupied, q),
    ensures
        p == q,
{
    if p != q {
        assert(precedes(p, q) || precedes(q, p));
    }
}

/// The scan finds a vacant tile, and finds none only where the grid has none.
pub proof fn lemma_scan(scene: Scene, occupied: Set<Pos>)
    ensures
        scan(scene, occupied) matches Some(p) ==> first_vacant(scene, occupied, p),
        scan(scene, occupied) is None ==> no_vacancy(scene, occupied),
{
    if scan(scene, occupied) is None {
        assert forall|q: Pos| scene.contains(q) implies #[trigger] occupied.contains(q) by {
            if !occupied.contains(q) {
                lemma_vacancy_has_first(scene, occupied, q);
            }
        }
    }
}

/// Where a tile is vacant, some tile is the first vacant one.
proof fn lemma_vacancy_has_first(scene: Scene, occupied: Set<Pos>, v: Pos)
    requires
        vacant(scene, occupied, v),
    ensures
        exists|p: Pos| first_vacant(scene, occupied, p),
    decreases v.y, v.x,
{
    if first_vacant(scene, occupied, v) {
    } else {
        let q = choose|q: Pos| scene.contains(q) && precedes(q, v) && !occupied.contains(q);
        lemma_vacancy_has_first(scene, occupied, q);
    }
}

/// A drawn coordinate is used only where it is a vacant tile.
pub proof fn lemma_first_vacant_draw(scene: Scene, occupied: Set<Pos>, draws: Seq<Pos>)
    ensures
        first_vacant_draw(scene, occupied, draws) matches Some(p) ==> vacant(scene, occupied, p)
            && draws.contains(p),
        first_vacant_draw(scene, occupied, draws) is None ==> forall|i: int|
            0 <= i < draws.len() ==> !vacant(scene, occupied, #[trigger] draws[i]),
    decreases draws.len(),
{
    if draws.len() != 0 {
        let rest = draws.drop_first();
        lemma_first_vacant_draw(scene, occupied, rest);
        if vacant(scene, occupied, draws[0]) {
        } else {
            if let Some(p) = first_vacant_draw(scene, occupied, rest) {
                let i = choose|i: int| 0 <= i < rest.len() && rest[i] == p;
                assert(draws[i + 1] == p);
            } else {
                assert forall|i: int| 0 <= i < draws.len() implies !vacant(
                    scene,
                    occupied,
                    #[trigger] draws[i],
                ) by {
                    if i > 0 {
                        assert(rest[i - 1] == draws[i]);
                    }
                }
            }
        }
    }
}

/// One more draw matters only where none before it was a vacant tile.
pub proof fn lemma_first_vacant_draw_push(
    scene: Scene,
    occupied: Set<Pos>,
    draws: Seq<Pos>,
    p: Pos,
)
    ensures
        first_vacant_draw(scene, occupied, draws.push(p)) == match first_vacant_draw(
            scene,
            occupied,
            draws,
        ) {
            Some(q) => Some(q),
            None => if vacant(scene, occupied, p) {
                Some(p)
            } else {
                None
            },
        },
    decreases draws.len(),
{
    if draws.len() == 0 {
        assert(draws.push(p).drop_first() =~= draws);
    } else {
        assert(draws.push(p).drop_first() =~= draws.drop_first().push(p));
        lemma_first_vacant_draw_push(scene, occupied, draws.drop_first(), p);
    }
}

/// The food never goes on an occupied coordinate or off the grid, and it
/// goes nowhere exactly where the occupied coordinates are as many as the
/// tiles or the grid has no vacant tile.
pub proof fn lemma_placement(scene: Scene, occupied: Set<Pos>, draws: Seq<Pos>)
    ensures
        placement(scene, occupied, draws) matches Some(p) ==> vacant(scene, occupied, p),
        placement(scene, occupied, draws) is None <==> occupied.len() == scene.area()
            || no_vacancy(scene, occupied),
{
    lemma_first_vacant_draw(scene, occupied, draws);
    lemma_scan(scene, occupied);
    if no_vacancy(scene, occupied) && occupied.len() != scene.area() {
        if let Some(p) = first_vacant_draw(scene, occupied, draws) {
            assert(occupied.contains(p));
        }
        if let Some(p) = scan(scene, occupied) {
            assert(occupied.contains(p));
        }
    }
}

/// `rand::rngs::ThreadRng`, the handle to a thread's random number
/// generator. Nothing inside it is known here.
#[verifier::external_type_specification]
#[verifier::external_body]
pub struct ExThreadRng(ThreadRng);

/// `rand::thread_rng` hands out the calling thread's random number
/// generator. Nothing is claimed of what it returns. It is taken on trust
/// that the call returns: it panics where the operating system cannot seed
/// the generator on a thread's first use of it.
pub assume_specification[ rand::thread_rng ]() -> (rng: ThreadRng)
;

/// `Rng::gen_range` on the range `0..n`, taken on trust: the result is some
/// number below `n`. Which one is left open, and two calls may differ. The
/// range must not be empty, or the call panics. It is taken on trust that
/// the call returns: it also panics where the generator is due for new seed
/// and the operating system gives none, or where its fork handler cannot be
/// registered.
#[verifier::external_body]
fn gen_below(rng: &mut ThreadRng, n: u32) -> (r: u32)
    requires
        n > 0,
    ensures
        r < n,
{
    rng.gen_range(0..n)
}

/// Scans the grid row by row, from the row `y == 0` upwards and within a
/// row from `x == 0` to the right, for the first vacant tile.
pub fn scan_vacant(scene: &Scene, occupied: &PosSet) -> (r: Option<Pos>)
    ensures
        r == scan(*scene, occupied@),
{
    let mut y: u32 = 0;
    while y < scene.y_size
        invariant
            y <= scene.y_size,
            forall|q: Pos| scene.contains(q) && q.y < y ==> #[trigger] occupied@.contains(q),
        decreases scene.y_size - y,
    {
        let mut x: u32 = 0;
        while x < scene.x_size
            invariant
                y < scene.y_size,
                x <= scene.x_size,
                forall|q: Pos|
                    scene.contains(q) && (q.y < y || (q.y == y && q.x < x))
                        ==> #[trigger] occupied@.contains(q),
            decreases scene.x_size - x,
        {
            let p = Pos { x, y };
            if !occupied.contains(p) {
                proof {
                    assert(first_vacant(*scene, occupied@, p));
                    let c = choose|c: Pos| first_vacant(*scene, occupied@, c);
                    lemma_first_vacant_unique(*scene, occupied@, p, c);
                }
                return Some(p);
            }
            x = x + 1;
        }
        y = y + 1;
    }
    proof {
        assert forall|p: Pos| !first_vacant(*scene, occupied@, p) by {
            if scene.contains(p) {
                assert(occupied@.contains(p));
            }
        }
    }
    None
}

/// Chooses the tile for the food from coordinates that were already drawn.
pub fn place_from_draws(scene: &Scene, occupied: &PosSet, draws: &Vec<Pos>) -> (r: Option<Pos>)
    ensures
        r == placement(*scene, occupied@, draws@),
{
    if scene.is_full(occupied.len()) {
        return None;
    }
    let mut i: usize = 0;
    assert(draws@.skip(0) =~= draws@);
    while i < draws.len()
        invariant
            i <= draws.len(),
            occupied@.len() != scene.area(),
            first_vacant_draw(*scene, occupied@, draws@) == first_vacant_draw(
                *scene,
                occupied@,
                draws@.skip(i as int),
            ),
        decreases draws.len() - i,
    {
        let p = draws[i];
        proof {
            assert(draws@.skip(i as int)[0] == p);
            assert(draws@.skip(i as int).drop_first() =~= draws@.skip(i + 1));
        }
        if scene.contains(p) && !occupied.contains(p) {
            return Some(p);
        }
        i = i + 1;
    }
    scan_vacant(scene, occupied)
}

/// Finds a tile for the food: draws up to `SPAWN_ATTEMPTS` coordinates of
/// the grid at random and takes the first that is vacant; if none of them
/// is, scans the grid for the first vacant tile. Returns `None` where there
/// is no room: where the occupied coordinates are as many as the grid has
/// tiles, or where no tile is vacant.
pub fn spawn(scene: &Scene, occupied: &PosSet) -> (r: Option<Pos>)
    requires
        scene.wf(),
    ensures
        r matches Some(p) ==> vacant(*scene, occupied@, p),
        r is None <==> occupied@.len() == scene.area() || no_vacancy(*scene, occupied@),
        exists|draws: Seq<Pos>|
            draws.len() <= SPAWN_ATTEMPTS && r == #[trigger] placement(*scene, occupied@, draws),
{
    let ghost mut draws: Seq<Pos> = Seq::empty();
    if scene.is_full(occupied.len()) {
        proof {
            lemma_placement(*scene, occupied@, draws);
        }
        return None;
    }
    let mut rng = rand::thread_rng();
    let mut attempt: u32 = 0;
    while attempt < SPAWN_ATTEMPTS
        invariant
            scene.wf(),
            attempt <= SPAWN_ATTEMPTS,
            occupied@.len() != scene.area(),
            draws.len() == attempt,
            first_vacant_draw(*scene, occupied@, draws) is None,
        decreases SPAWN_ATTEMPTS - attempt,
    {
        let x: u32 = gen_below(&mut rng, scene.x_size);
        let y: u32 = gen_below(&mut rng, scene.y_size);
        let p = Pos { x, y };
        proof {
            lemma_first_vacant_draw_push(*scene, occupied@, draws, p);
            draws = draws.push(p);
        }
        if !occupied.contains(p) {
            proof {
                lemma_placement(*scene, occupied@, draws);
            }
            return Some(p);
        }
        attempt = attempt + 1;
    }
    let r = scan_vacant(scene, occupied);
    proof {
        lemma_placement(*scene, occupied@, draws);
    }
    r
}

} // verus!
