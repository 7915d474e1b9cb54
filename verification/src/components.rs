//! The plain data of the game: tile coordinates, directions, ages, the
//! snake's bookkeeping, and the records that stand for the things on the grid.

use vstd::prelude::*;

verus! {

/// One of the four directions the snake can move in.
#[derive(Clone, Copy, PartialEq, Eq, Debug, Structural)]
pub enum Direction {
    Up,
    Down,
    Left,
    Right,
}

impl Direction {
    /// The direction pointing the other way.
    pub open spec fn spec_opposite(&self) -> Direction {
        match *self {
            Direction::Up => Direction::Down,
            Direction::Down => Direction::Up,
            Direction::Right => Direction::Left,
            Direction::Left => Direction::Right,
        }
    }

    /// The direction pointing the other way: up and down swap, left and right swap.
    #[verifier::when_used_as_spec(spec_opposite)]
    pub fn opposite(&self) -> (r: Self)
        ensures
            r == self.spec_opposite(),
    {
        match self {
            Self::Up => Self::Down,
            Self::Down => Self::Up,
            Self::Right => Self::Left,
            Self::Left => Self::Right,
        }
    }
}

/// Turning around twice gives the direction one started with, and turning
/// around once never gives it.
pub proof fn lemma_opposite_involution(d: Direction)
    ensures
        d.opposite().opposite() == d,
        d.opposite() != d,
{
}

/// A key of the keyboard, as far as the game tells keys apart.
#[derive(Clone, Copy, PartialEq, Eq, Debug, Structural)]
pub enum Key {
    Up,
    Down,
    Left,
    Right,
    W,
    A,
    S,
    D,
    Other,
}

impl Key {
    /// The direction a key asks for: the arrow keys and W, A, S, D steer,
    /// every other key asks for nothing.
    pub open spec fn spec_direction(&self) -> Option<Direction> {
        match *self {
            Key::Up | Key::W => Some(Direction::Up),
            Key::Down | Key::S => Some(Direction::Down),
            Key::Left | Key::A => Some(Direction::Left),
            Key::Right | Key::D => Some(Direction::Right),
            Key::Other => None,
        }
    }

    /// The direction a key asks for, if it is a steering key.
    #[verifier::when_used_as_spec(spec_direction)]
    pub fn direction(&self) -> (r: Option<Direction>)
        ensures
            r == self.spec_direction(),
    {
        match self {
            Key::Up | Key::W => Some(Direction::Up),
            Key::Down | Key::S => Some(Direction::Down),
            Key::Left | Key::A => Some(Direction::Left),
            Key::Right | Key::D => Some(Direction::Right),
            Key::Other => None,
        }
    }
}

/// The coordinate of a tile. `x` grows to the right and `y` grows upwards.
#[derive(Copy, Clone, PartialEq, Eq, Hash, Debug, Structural)]
pub struct Pos {
    pub x: u32,
    pub y: u32,
}

impl Pos {
    /// The neighbouring coordinate one tile along `d`, or `None` where that
    /// neighbour has no `u32` coordinate.
    pub open spec fn spec_step(&self, d: Direction) -> Option<Pos> {
        match d {
            Direction::Up => if self.y < u32::MAX {
                Some(Pos { x: self.x, y: (self.y + 1) as u32 })
            } else {
                None
            },
            Direction::Down => if self.y > 0 {
                Some(Pos { x: self.x, y: (self.y - 1) as u32 })
            } else {
                None
            },
            Direction::Left => if self.x > 0 {
                Some(Pos { x: (self.x - 1) as u32, y: self.y })
            } else {
                None
            },
            Direction::Right => if self.x < u32::MAX {
                Some(Pos { x: (self.x + 1) as u32, y: self.y })
            } else {
                None
            },
        }
    }

    /// One tile along `d`: up is `y + 1`, down is `y - 1`, left is `x - 1`,
    /// right is `x + 1`. There is no wraparound: a step that would leave the
    /// range of `u32` gives `None`.
    #[verifier::when_used_as_spec(spec_step)]
    pub fn step(&self, d: Direction) -> (r: Option<Pos>)
        ensures
            r == self.spec_step(d),
    {
        match d {
            Direction::Up => if self.y < u32::MAX {
                Some(Pos { x: self.x, y: self.y + 1 })
            } else {
                None
            },
            Direction::Down => if self.y > 0 {
                Some(Pos { x: self.x, y: self.y - 1 })
            } else {
                None
            },
            Direction::Left => if self.x > 0 {
                Some(Pos { x: self.x - 1, y: self.y })
            } else {
                None
            },
            Direction::Right => if self.x < u32::MAX {
                Some(Pos { x: self.x + 1, y: self.y })
            } else {
                None
            },
        }
    }
}

/// The number of ticks a body segment has survived.
#[derive(Copy, Clone, PartialEq, Eq, Debug, Structural)]
pub struct Age(pub u32);

/// The snake's bookkeeping.
#[derive(Copy, Clone, PartialEq, Eq, Debug, Structural)]
pub struct SnakeMeta {
    /// The length the snake is growing towards, head included.
    pub len: u32,
    /// The direction the next move will take.
    pub dir: Direction,
    /// The direction the snake used to reach its current position. It is what
    /// forbids moving backwards by changing direction twice between two moves.
    pub prev_dir: Direction,
}

/// One segment of the snake's body.
#[derive(Copy, Clone, PartialEq, Eq, Debug, Structural)]
pub struct SnakeBody {
    pub id: u64,
    pub pos: Pos,
    pub age: Age,
}

/// The food on the grid.
#[derive(Copy, Clone, PartialEq, Eq, Debug, Structural)]
pub struct Food {
    pub id: u64,
    pub pos: Pos,
}

/// Something that takes part in collisions: the snake's head, a body segment
/// or a wall tile, by its id and the tile it occupies.
#[derive(Copy, Clone, PartialEq, Eq, Debug, Structural)]
pub struct Collision {
    pub id: u64,
    pub pos: Pos,
}

} // verus!
