//! The collision detector: which collidable things share the head's tile.

use vstd::prelude::*;
use crate::components::{Collision, Pos};

verus! {

/// A collidable thing other than the head itself that sits on the head's
/// tile.
pub open spec fn collides(head_id: u64, head: Pos, c: Collision) -> bool {
    c.pos == head && c.id != head_id
}

/// The ids of the things the head collides with, in the order in which the
/// things are listed.
pub open spec fn colliding_ids(head_id: u64, head: Pos, collidable: Seq<Collision>) -> Seq<u64> {
    collidable.filter_map(
        |c: Collision|
            if collides(head_id, head, c) {
                Some(c.id)
            } else {
                None
            },
    )
}

/// An id is reported exactly where a listed thing with that id, other than
/// the head, sits on the head's tile.
pub proof fn lemma_colliding_ids(head_id: u64, head: Pos, collidable: Seq<Collision>, id: u64)
    ensures
        colliding_ids(head_id, head, collidable).contains(id) <==> id != head_id && exists|i: int|
            0 <= i < collidable.len() && #[trigger] collidable[i] == (Collision { id, pos: head }),
    decreases collidable.len(),
{
    let out = colliding_ids(head_id, head, collidable);
    if collidable.len() > 0 {
        let rest = collidable.drop_last();
        let last = collidable.last();
        let sub = colliding_ids(head_id, head, rest);
        lemma_colliding_ids(head_id, head, rest, id);
        let here = collides(head_id, head, last) && last.id == id;
        assert(out.contains(id) <==> sub.contains(id) || here) by {
            if collides(head_id, head, last) {
                assert(out =~= sub + seq![last.id]);
                assert(out.last() == last.id);
                if sub.contains(id) {
                    let k = choose|k: int| 0 <= k < sub.len() && sub[k] == id;
                    assert(out[k] == id);
                }
                if out.contains(id) {
                    let k = choose|k: int| 0 <= k < out.len() && out[k] == id;
                    if k < sub.len() {
                        assert(sub[k] == id);
                    }
                }
            }
        }
        let want = Collision { id, pos: head };
        if sub.contains(id) {
            let i = choose|i: int| 0 <= i < rest.len() && #[trigger] rest[i] == want;
            assert(collidable[i] == want);
        }
        if here {
            assert(collidable[collidable.len() - 1] == want);
        }
        if id != head_id && exists|i: int|
            0 <= i < collidable.len() && #[trigger] collidable[i] == want {
            let i = choose|i: int| 0 <= i < collidable.len() && #[trigger] collidable[i] == want;
            if i < rest.len() {
                assert(rest[i] == want);
            }
        }
    }
}

/// Lists the ids of the collidable things that occupy the head's tile,
/// leaving out the head's own id, in the order of `collidable`.
pub fn check(head_id: u64, head: Pos, collidable: &Vec<Collision>) -> (r: Vec<u64>)
    ensures
        r@ == colliding_ids(head_id, head, collidable@),
{
    let mut hits: Vec<u64> = Vec::new();
    let mut i: usize = 0;
    while i < collidable.len()
        invariant
            i <= collidable.len(),
            hits@ == colliding_ids(head_id, head, collidable@.take(i as int)),
        decreases collidable.len() - i,
    {
        let c = collidable[i];
        proof {
            assert(collidable@.take(i + 1).drop_last() =~= collidable@.take(i as int));
        }
        if c.pos == head && c.id != head_id {
            hits.push(c.id);
        }
        i = i + 1;
    }
    assert(collidable@.take(collidable.len() as int) =~= collidable@);
    hits
}

} // verus!
