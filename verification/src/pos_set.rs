//! A set of tile coordinates, for occupancy tests.

use vstd::prelude::*;
use vstd::relations::injective_on;
use vstd::set_lib::lemma_map_size;
use std::collections::HashSet;
use crate::components::{Collision, Pos};

verus! {

/// The number a coordinate is stored under: `x` in the upper half of a `u64`,
/// `y` in the lower half.
pub open spec fn pos_key(p: Pos) -> u64 {
    (p.x * 0x1_0000_0000 + p.y) as u64
}

/// The coordinate stored under a number.
pub open spec fn key_pos(k: u64) -> Pos {
    Pos { x: (k / 0x1_0000_0000) as u32, y: (k % 0x1_0000_0000) as u32 }
}

/// Coordinates and the numbers they are stored under correspond one to one.
pub proof fn lemma_pos_key_bijective(p: Pos, k: u64)
    ensures
        key_pos(pos_key(p)) == p,
        pos_key(key_pos(k)) == k,
{
}

/// The coordinates that a sequence of collidable things occupies.
pub open spec fn positions(items: Seq<Collision>) -> Set<Pos> {
    Set::new(|p: Pos| exists|i: int| 0 <= i < items.len() && #[trigger] items[i].pos == p)
}

/// A finite set of tile coordinates.
pub struct PosSet {
    keys: HashSet<u64>,
}

impl View for PosSet {
    type V = Set<Pos>;

    closed spec fn view(&self) -> Set<Pos> {
        Set::new(|p: Pos| self.keys@.contains(pos_key(p)))
    }
}

impl PosSet {
    #[verifier::type_invariant]
    spec fn inv(&self) -> bool {
        self.keys@.finite()
    }

    proof fn lemma_view_len(&self)
        requires
            self.keys@.finite(),
        ensures
            self@.finite(),
            self@.len() == self.keys@.len(),
    {
        let f = |k: u64| key_pos(k);
        assert(injective_on(f, self.keys@)) by {
            assert forall|k1: u64, k2: u64|
                self.keys@.contains(k1) && self.keys@.contains(k2) && #[trigger] f(k1)
                    == #[trigger] f(k2) implies k1 == k2 by {
                lemma_pos_key_bijective(key_pos(k1), k1);
                lemma_pos_key_bijective(key_pos(k2), k2);
            }
        }
        assert(self.keys@.map(f) =~= self@) by {
            assert forall|p: Pos| self.keys@.map(f).contains(p) <==> self@.contains(p) by {
                if self@.contains(p) {
                    lemma_pos_key_bijective(p, 0);
                    assert(self.keys@.contains(pos_key(p)) && f(pos_key(p)) == p);
                }
                if self.keys@.map(f).contains(p) {
                    let k = choose|k: u64| self.keys@.contains(k) && f(k) == p;
                    lemma_pos_key_bijective(p, k);
                }
            }
        }
        lemma_map_size(self.keys@, self@, f);
    }

    /// The empty set.
    pub fn new() -> (s: PosSet)
        ensures
            s@ == Set::<Pos>::empty(),
    {
        let s = PosSet { keys: HashSet::new() };
        assert(s@ =~= Set::<Pos>::empty());
        s
    }

    /// Adds `p` to the set, and says whether it was new.
    pub fn insert(&mut self, p: Pos) -> (fresh: bool)
        ensures
            final(self)@ == old(self)@.insert(p),
            fresh == !old(self)@.contains(p),
    {
        broadcast use vstd::std_specs::hash::group_hash_axioms;

        let k: u64 = (p.x as u64) * 0x1_0000_0000 + (p.y as u64);
        let mut taken = PosSet::new();
        std::mem::swap(self, &mut taken);
        proof {
            use_type_invariant(&taken);
        }
        let mut keys = taken.keys;
        let fresh = keys.insert(k);
        *self = PosSet { keys };
        proof {
            assert forall|q: Pos| self@.contains(q) <==> old(self)@.insert(p).contains(q) by {
                lemma_pos_key_bijective(q, 0);
                lemma_pos_key_bijective(p, 0);
            }
            assert(self@ =~= old(self)@.insert(p));
        }
        fresh
    }

    /// Whether `p` is in the set.
    pub fn contains(&self, p: Pos) -> (r: bool)
        ensures
            r == self@.contains(p),
    {
        broadcast use vstd::std_specs::hash::group_hash_axioms;

        let k: u64 = (p.x as u64) * 0x1_0000_0000 + (p.y as u64);
        self.keys.contains(&k)
    }

    /// The number of coordinates in the set.
    pub fn len(&self) -> (n: usize)
        ensures
            self@.finite(),
            n == self@.len(),
    {
        broadcast use vstd::std_specs::hash::group_hash_axioms;

        proof {
            use_type_invariant(self);
            self.lemma_view_len();
        }
        self.keys.len()
    }

    /// The set of the coordinates that the given things occupy.
    pub fn of_collisions(items: &Vec<Collision>) -> (s: PosSet)
        ensures
            s@ == positions(items@),
    {
        let mut s = PosSet::new();
        let mut i: usize = 0;
        while i < items.len()
            invariant
                i <= items.len(),
                s@ == positions(items@.take(i as int)),
            decreases items.len() - i,
        {
            let ghost before = s@;
            s.insert(items[i].pos);
            proof {
                let a = items@.take(i as int);
                let b = items@.take(i + 1);
                assert forall|p: Pos| before.insert(items@[i as int].pos).contains(p)
                    == positions(b).contains(p) by {
                    if positions(b).contains(p) {
                        let j = choose|j: int| 0 <= j < b.len() && #[trigger] b[j].pos == p;
                        if j < i {
                            assert(a[j].pos == p);
                        }
                    }
                    if before.contains(p) {
                        let j = choose|j: int| 0 <= j < a.len() && #[trigger] a[j].pos == p;
                        assert(b[j].pos == p);
                    }
                    if p == items@[i as int].pos {
                        assert(b[i as int].pos == p);
                    }
                }
                assert(s@ =~= positions(b));
            }
            i = i + 1;
        }
        assert(items@.take(items.len() as int) =~= items@);
        s
    }
}

} // verus!
