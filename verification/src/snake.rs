//! The snake: its head, its direction, and the trail of body segments that
//! follows the head.

use vstd::prelude::*;
use crate::components::{Age, Direction, Pos, SnakeBody, SnakeMeta};
use crate::filtering::{
    lemma_filter_map_keeps_all, lemma_filter_map_keeps_none, lemma_filter_map_origin,
};

verus! {

/// The length a snake starts with.
pub const INITIAL_LENGTH: u32 = 4;

/// What a snake is, as a mathematical value.
pub struct SnakeModel {
    /// The id of the head.
    pub id: u64,
    /// Where the head is.
    pub pos: Pos,
    pub meta: SnakeMeta,
    /// The body segments, the one nearest the head first.
    pub body: Seq<SnakeBody>,
    /// How many segments, at the front of `body`, were appended since the
    /// body last aged. They have not survived a tick yet.
    pub fresh: nat,
}

/// The snake.
#[derive(Debug)]
pub struct Snake {
    /// The id of the head.
    pub id: u64,
    /// Where the head is.
    pub pos: Pos,
    pub meta: SnakeMeta,
    /// The body segments, the one nearest the head first.
    pub body: Vec<SnakeBody>,
    /// How many segments, at the front of `body`, were appended since the
    /// body last aged. They have not survived a tick yet.
    pub fresh: usize,
}

impl View for Snake {
    type V = SnakeModel;

    open spec fn view(&self) -> SnakeModel {
        SnakeModel {
            id: self.id,
            pos: self.pos,
            meta: self.meta,
            body: self.body@,
            fresh: self.fresh as nat,
        }
    }
}

/// A segment after one more tick.
pub open spec fn aged(b: SnakeBody) -> SnakeBody {
    SnakeBody { id: b.id, pos: b.pos, age: Age((b.age.0 + 1) as u32) }
}

/// Whether a segment of age `age` is due to leave a snake of length `len`.
pub open spec fn expired(age: Age, len: u32) -> bool {
    age.0 + 1 == len
}

/// A segment as the ageing leaves it: one tick older, or gone if it has
/// then expired.
pub open spec fn survivor(b: SnakeBody, len: u32) -> Option<SnakeBody> {
    if expired(aged(b).age, len) {
        None
    } else {
        Some(aged(b))
    }
}

/// The id of a segment that the ageing removes.
pub open spec fn casualty(b: SnakeBody, len: u32) -> Option<u64> {
    if expired(aged(b).age, len) {
        Some(b.id)
    } else {
        None
    }
}

impl SnakeModel {
    /// A snake as it starts: length four, heading right, no body yet.
    pub open spec fn initial(id: u64, start: Pos) -> SnakeModel {
        SnakeModel {
            id,
            pos: start,
            meta: SnakeMeta {
                len: INITIAL_LENGTH,
                dir: Direction::Right,
                prev_dir: Direction::Right,
            },
            body: Seq::empty(),
            fresh: 0,
        }
    }

    /// What holds of a snake at all times: it is at least two long; it is
    /// not set to run back into its own neck; fresh segments have age zero;
    /// and no segment that has aged before is about to expire or has.
    pub open spec fn wf(self) -> bool {
        &&& self.meta.len >= 2
        &&& self.meta.dir != self.meta.prev_dir.opposite()
        &&& self.fresh <= self.body.len()
        &&& forall|i: int| 0 <= i < self.fresh ==> (#[trigger] self.body[i]).age.0 == 0
        &&& forall|i: int|
            self.fresh <= i < self.body.len() ==> (#[trigger] self.body[i]).age.0 + 1
                < self.meta.len
    }

    /// What holds of a snake between two ticks: no segment is fresh, and the
    /// ages count up from zero, from the head backwards.
    pub open spec fn settled(self) -> bool {
        &&& self.fresh == 0
        &&& forall|i: int| 0 <= i < self.body.len() ==> (#[trigger] self.body[i]).age.0 == i
    }

    /// The snake after a request to head in direction `d`: the request is
    /// taken unless it asks to turn back on the last move.
    pub open spec fn steer(self, d: Direction) -> SnakeModel {
        if d != self.meta.prev_dir.opposite() {
            SnakeModel { meta: SnakeMeta { dir: d, ..self.meta }, ..self }
        } else {
            self
        }
    }

    /// The snake after a run of requests, the first of them first.
    pub open spec fn steer_all(self, requests: Seq<Direction>) -> SnakeModel
        decreases requests.len(),
    {
        if requests.len() == 0 {
            self
        } else {
            self.steer_all(requests.drop_last()).steer(requests.last())
        }
    }

    /// Where the next move takes the head, if that is a coordinate.
    pub open spec fn next_pos(self) -> Option<Pos> {
        self.pos.step(self.meta.dir)
    }

    /// The snake after one move, with `id` for the segment that the move
    /// leaves behind: the head is one tile further, the move's direction is
    /// remembered, and a fresh segment of age zero lies where the head was.
    pub open spec fn advance(self, id: u64) -> SnakeModel
        recommends
            self.next_pos() is Some,
    {
        SnakeModel {
            pos: self.next_pos().unwrap(),
            meta: SnakeMeta { prev_dir: self.meta.dir, ..self.meta },
            body: seq![SnakeBody { id, pos: self.pos, age: Age(0) }] + self.body,
            fresh: self.fresh + 1,
            ..self
        }
    }

    /// The snake, one longer.
    pub open spec fn grow(self) -> SnakeModel
        recommends
            self.meta.len < u32::MAX,
    {
        SnakeModel { meta: SnakeMeta { len: (self.meta.len + 1) as u32, ..self.meta }, ..self }
    }

    /// The snake after its body has aged: fresh segments stay as they are
    /// and are fresh no longer; every other segment is one tick older, and
    /// gone if it has then expired.
    pub open spec fn age_and_prune(self) -> SnakeModel {
        SnakeModel {
            body: self.body.take(self.fresh as int) + self.body.skip(self.fresh as int).filter_map(
                |b: SnakeBody| survivor(b, self.meta.len),
            ),
            fresh: 0,
            ..self
        }
    }

    /// The ids of the segments that the ageing removes, nearest the head
    /// first.
    pub open spec fn pruned(self) -> Seq<u64> {
        self.body.skip(self.fresh as int).filter_map(|b: SnakeBody| casualty(b, self.meta.len))
    }

    /// The snake after the head has moved and the snake has grown if it
    /// `ate`.
    pub open spec fn fed(self, id: u64, ate: bool) -> SnakeModel
        recommends
            self.next_pos() is Some,
            ate ==> self.meta.len < u32::MAX,
    {
        if ate {
            self.advance(id).grow()
        } else {
            self.advance(id)
        }
    }

    /// The snake after the head has moved, the snake has grown if it `ate`,
    /// and the body has aged.
    pub open spec fn moved(self, id: u64, ate: bool) -> SnakeModel
        recommends
            self.next_pos() is Some,
            ate ==> self.meta.len < u32::MAX,
    {
        self.fed(id, ate).age_and_prune()
    }
}

/// Steering, moving, growing and ageing keep a snake well formed.
pub proof fn lemma_wf_preserved(s: SnakeModel, d: Direction, id: u64)
    requires
        s.wf(),
    ensures
        s.steer(d).wf(),
        s.advance(id).wf(),
        s.meta.len < u32::MAX ==> s.grow().wf(),
        s.age_and_prune().wf(),
{
    let a = s.advance(id);
    assert forall|i: int| a.fresh <= i < a.body.len() implies (#[trigger] a.body[i]).age.0 + 1
        < a.meta.len by {
        assert(a.body[i] == s.body[i - 1]);
    }
    assert forall|i: int| 0 <= i < a.fresh implies (#[trigger] a.body[i]).age.0 == 0 by {
        if i > 0 {
            assert(a.body[i] == s.body[i - 1]);
        }
    }
    let p = s.age_and_prune();
    let f = |b: SnakeBody| survivor(b, s.meta.len);
    let old_part = s.body.skip(s.fresh as int);
    let kept = old_part.filter_map(f);
    assert forall|i: int| 0 <= i < p.body.len() implies (#[trigger] p.body[i]).age.0 + 1
        < p.meta.len by {
        if i < s.fresh {
            assert(p.body[i] == s.body[i]);
        } else {
            let k = i - s.fresh;
            assert(p.body[i] == kept[k]);
            lemma_filter_map_origin(old_part, f, k);
            let j = choose|j: int|
                0 <= j < old_part.len() && #[trigger] f(old_part[j]) == Some(kept[k]);
            assert(old_part[j] == s.body[j + s.fresh]);
        }
    }
}

/// A request to turn back on the last move is never applied, whatever is
/// requested between two moves, and in what order: the requests change the
/// direction and nothing else, the direction is never the opposite of the
/// last move's, the last request that does not ask to turn back is the one
/// that counts, and the move that follows does not run back.
pub proof fn lemma_reversal_never_applied(s: SnakeModel, requests: Seq<Direction>)
    requires
        s.meta.dir != s.meta.prev_dir.opposite(),
    ensures
        s.steer_all(requests) == (SnakeModel {
            meta: SnakeMeta { dir: s.steer_all(requests).meta.dir, ..s.meta },
            ..s
        }),
        s.steer_all(requests).meta.dir != s.meta.prev_dir.opposite(),
        requests.len() > 0 && requests.last() != s.meta.prev_dir.opposite() ==> s.steer_all(
            requests,
        ).meta.dir == requests.last(),
        requests.len() > 0 && requests.last() == s.meta.prev_dir.opposite() ==> s.steer_all(
            requests,
        ) == s.steer_all(requests.drop_last()),
        forall|id: u64|
            (#[trigger] s.steer_all(requests).advance(id)).meta.prev_dir
                != s.meta.prev_dir.opposite(),
    decreases requests.len(),
{
    if requests.len() > 0 {
        lemma_reversal_never_applied(s, requests.drop_last());
    }
}

/// The trail after a tick. Of a settled snake that can move, the move,
/// the growth if it ate, and the ageing leave a settled snake whose body is
/// one segment longer than before, or as long as the snake's length allows:
/// one less than the length. Where the body was at most one short of that
/// before the tick, it is exactly one less than the length after it. The
/// new segment lies where the head was, with age zero. The ageing removes
/// the oldest segment where the body would else get too long, and never
/// where the snake ate.
pub proof fn lemma_trail_length(s: SnakeModel, id: u64, ate: bool)
    requires
        s.wf(),
        s.settled(),
        s.next_pos() is Some,
        ate ==> s.meta.len < u32::MAX,
    ensures
        s.moved(id, ate).wf(),
        s.moved(id, ate).settled(),
        s.moved(id, ate).body.len() == if s.body.len() + 1 < s.moved(id, ate).meta.len - 1 {
            s.body.len() + 1
        } else {
            (s.moved(id, ate).meta.len - 1) as nat
        },
        s.body.len() + 2 >= s.moved(id, ate).meta.len ==> s.moved(id, ate).body.len()
            == s.moved(id, ate).meta.len - 1,
        s.moved(id, ate).body[0] == (SnakeBody { id, pos: s.pos, age: Age(0) }),
        forall|i: int|
            0 < i < s.moved(id, ate).body.len() ==> #[trigger] s.moved(id, ate).body[i] == aged(
                s.body[i - 1],
            ),
        s.fed(id, ate).pruned() == if s.body.len() + 1 == s.fed(id, ate).meta.len {
            seq![s.body.last().id]
        } else {
            Seq::<u64>::empty()
        },
        ate ==> s.fed(id, ate).pruned() == Seq::<u64>::empty(),
{
    let a = s.fed(id, ate);
    let t = s.moved(id, ate);
    lemma_wf_preserved(s, s.meta.dir, id);
    lemma_wf_preserved(s.advance(id), s.meta.dir, id);
    lemma_wf_preserved(a, s.meta.dir, id);
    let len = a.meta.len;
    let n = s.body.len() as int;
    let f = |b: SnakeBody| survivor(b, len);
    let g = |b: SnakeBody| casualty(b, len);
    let old_part = a.body.skip(1);
    assert(old_part =~= s.body);
    assert(a.body.take(1) =~= seq![SnakeBody { id, pos: s.pos, age: Age(0) }]);
    assert(n < s.meta.len) by {
        if n > 0 {
            assert(s.body[n - 1].age.0 + 1 < s.meta.len);
        }
    }
    if n + 1 == len {
        // The oldest segment expires, and no other.
        let rest = old_part.drop_last();
        assert forall|i: int| 0 <= i < rest.len() implies (#[trigger] f(rest[i])) is Some by {
            assert(rest[i] == s.body[i]);
        }
        assert forall|i: int| 0 <= i < rest.len() implies (#[trigger] g(rest[i])) is None by {
            assert(rest[i] == s.body[i]);
        }
        lemma_filter_map_keeps_all(rest, f);
        lemma_filter_map_keeps_none(rest, g);
        assert(old_part.last() == s.body[n - 1]);
        assert(f(old_part.last()) is None);
        assert(g(old_part.last()) == Some(s.body.last().id));
        assert(old_part.filter_map(f) == rest.filter_map(f));
        assert(old_part.filter_map(g) =~= seq![s.body.last().id]);
        assert forall|i: int| 0 <= i < t.body.len() implies (#[trigger] t.body[i]).age.0 == i by {
            if i > 0 {
                assert(t.body[i] == f(rest[i - 1]).unwrap());
                assert(rest[i - 1] == s.body[i - 1]);
            }
        }
    } else {
        assert forall|i: int| 0 <= i < old_part.len() implies (#[trigger] f(old_part[i]))
            is Some by {
            assert(old_part[i] == s.body[i]);
        }
        assert forall|i: int| 0 <= i < old_part.len() implies (#[trigger] g(old_part[i]))
            is None by {
            assert(old_part[i] == s.body[i]);
        }
        lemma_filter_map_keeps_all(old_part, f);
        lemma_filter_map_keeps_none(old_part, g);
        assert forall|i: int| 0 <= i < t.body.len() implies (#[trigger] t.body[i]).age.0 == i by {
            if i > 0 {
                assert(t.body[i] == f(old_part[i - 1]).unwrap());
                assert(old_part[i - 1] == s.body[i - 1]);
            }
        }
    }
    assert(t.body[0] == a.body.take(1)[0]);
}

impl Snake {
    /// A snake at `start`, of length four, heading right, with no body yet.
    pub fn new(id: u64, start: Pos) -> (s: Snake)
        ensures
            s@ == SnakeModel::initial(id, start),
            s@.wf(),
            s@.settled(),
    {
        Snake {
            id,
            pos: start,
            meta: SnakeMeta {
                len: INITIAL_LENGTH,
                dir: Direction::Right,
                prev_dir: Direction::Right,
            },
            body: Vec::new(),
            fresh: 0,
        }
    }

    /// Asks the snake to head in direction `d` from its next move on. The
    /// request is taken unless `d` is the opposite of the direction of the
    /// last move; then nothing changes. Returns whether the request was
    /// taken.
    pub fn set_requested_direction(&mut self, d: Direction) -> (taken: bool)
        ensures
            final(self)@ == old(self)@.steer(d),
            taken == (d != old(self).meta.prev_dir.opposite()),
            old(self)@.wf() ==> final(self)@.wf(),
    {
        if d != self.meta.prev_dir.opposite() {
            self.meta.dir = d;
            true
        } else {
            false
        }
    }

    /// Where the next move takes the head, if that is a coordinate.
    pub fn next_pos(&self) -> (r: Option<Pos>)
        ensures
            r == self@.next_pos(),
    {
        self.pos.step(self.meta.dir)
    }

    /// Moves the head one tile along the current direction and leaves a
    /// fresh segment of age zero, with the id `id`, where the head was.
    /// Returns the head's coordinates before and after the move. Where the
    /// move would leave the range of coordinates, nothing changes and `None`
    /// is returned.
    pub fn advance(&mut self, id: u64) -> (r: Option<(Pos, Pos)>)
        requires
            old(self)@.wf(),
        ensures
            match r {
                Some((from, to)) => {
                    &&& from == old(self).pos
                    &&& old(self)@.next_pos() == Some(to)
                    &&& final(self)@ == old(self)@.advance(id)
                    &&& final(self)@.body[0] == (SnakeBody { id, pos: from, age: Age(0) })
                    &&& final(self)@.body.skip(1) == old(self)@.body
                },
                None => old(self)@.next_pos() is None && final(self)@ == old(self)@,
            },
            final(self)@.wf(),
    {
        match self.pos.step(self.meta.dir) {
            None => None,
            Some(to) => {
                let from = self.pos;
                proof {
                    lemma_wf_preserved(self@, self.meta.dir, id);
                }
                self.body.insert(0, SnakeBody { id, pos: from, age: Age(0) });
                assert(self.body@ =~= seq![SnakeBody { id, pos: from, age: Age(0) }] + old(
                    self,
                ).body@);
                assert(self.body@.skip(1) =~= old(self).body@);
                assert(self.fresh < self.body.len());
                self.fresh = self.fresh + 1;
                self.pos = to;
                self.meta.prev_dir = self.meta.dir;
                Some((from, to))
            },
        }
    }

    /// Makes the snake one longer.
    pub fn grow(&mut self)
        requires
            old(self).meta.len < u32::MAX,
        ensures
            final(self)@ == old(self)@.grow(),
            old(self)@.wf() ==> final(self)@.wf(),
    {
        self.meta.len = self.meta.len + 1;
    }

    /// Ages the body by one tick. Fresh segments, those appended since the
    /// body last aged, stay at age zero; every other segment gets one tick
    /// older and is removed if its age plus one then equals the snake's
    /// length. Returns the ids of the removed segments.
    pub fn age_and_prune(&mut self) -> (gone: Vec<u64>)
        requires
            old(self)@.wf(),
        ensures
            final(self)@ == old(self)@.age_and_prune(),
            gone@ == old(self)@.pruned(),
            final(self)@.wf(),
    {
        let ghost len = self.meta.len;
        let ghost before = self@;
        let ghost f = |b: SnakeBody| survivor(b, len);
        let ghost g = |b: SnakeBody| casualty(b, len);
        let ghost old_part = self.body@.skip(self.fresh as int);
        let mut kept: Vec<SnakeBody> = Vec::new();
        let mut gone: Vec<u64> = Vec::new();
        let mut i: usize = 0;
        while i < self.fresh
            invariant
                *self == *old(self),
                self@.wf(),
                i <= self.fresh,
                kept@ == self.body@.take(i as int),
            decreases self.fresh - i,
        {
            kept.push(self.body[i]);
            assert(self.body@.take(i + 1) =~= self.body@.take(i as int).push(self.body@[i as int]));
            i = i + 1;
        }
        while i < self.body.len()
            invariant
                *self == *old(self),
                self@.wf(),
                len == self.meta.len,
                f == |b: SnakeBody| survivor(b, len),
                g == |b: SnakeBody| casualty(b, len),
                old_part == self.body@.skip(self.fresh as int),
                self.fresh <= i <= self.body.len(),
                kept@ == self.body@.take(self.fresh as int) + old_part.take(
                    i - self.fresh,
                ).filter_map(f),
                gone@ == old_part.take(i - self.fresh).filter_map(g),
            decreases self.body.len() - i,
        {
            let b = self.body[i];
            proof {
                let k = i - self.fresh;
                assert(old_part.take(k + 1).drop_last() =~= old_part.take(k));
                assert(old_part.take(k + 1).last() == b);
                assert(b.age.0 + 1 < len);
            }
            let older = SnakeBody { id: b.id, pos: b.pos, age: Age(b.age.0 + 1) };
            if older.age.0 + 1 == self.meta.len {
                gone.push(b.id);
            } else {
                kept.push(older);
                assert(kept@ =~= self.body@.take(self.fresh as int) + old_part.take(
                    i + 1 - self.fresh,
                ).filter_map(f));
            }
            i = i + 1;
        }
        proof {
            assert(old_part.take(self.body.len() - self.fresh) =~= old_part);
            lemma_wf_preserved(before, self.meta.dir, 0);
        }
        self.body = kept;
        self.fresh = 0;
        gone
    }
}

} // verus!
