//! Grid positions and the four horizontal facings.
//!
//! Directions follow the world's axes: North is -Z, South is +Z, East is +X
//! and West is -X. Turning clockwise goes North, East, South, West.

use vstd::prelude::*;

verus! {

/// A block position on the integer grid.
#[derive(Clone, Copy, Debug, PartialEq, Eq, Structural)]
pub struct Pos {
    pub x: i32,
    pub y: i32,
    pub z: i32,
}

impl Pos {
    /// Every coordinate has a neighbour on both sides within `i32`.
    pub open spec fn interior(self) -> bool {
        &&& i32::MIN < self.x < i32::MAX
        &&& i32::MIN < self.y < i32::MAX
        &&& i32::MIN < self.z < i32::MAX
    }

    pub open spec fn spec_shifted(self, dx: int, dy: int, dz: int) -> Pos {
        Pos { x: (self.x + dx) as i32, y: (self.y + dy) as i32, z: (self.z + dz) as i32 }
    }

    pub fn new(x: i32, y: i32, z: i32) -> (p: Pos)
        ensures
            p == (Pos { x, y, z }),
    {
        Pos { x, y, z }
    }

    /// The position one step away in a horizontal direction.
    pub fn step(self, d: Direction) -> (p: Pos)
        requires
            self.interior(),
        ensures
            p == self.spec_step(d),
    {
        match d {
            Direction::North => Pos { x: self.x, y: self.y, z: self.z - 1 },
            Direction::East => Pos { x: self.x + 1, y: self.y, z: self.z },
            Direction::South => Pos { x: self.x, y: self.y, z: self.z + 1 },
            Direction::West => Pos { x: self.x - 1, y: self.y, z: self.z },
        }
    }

    pub open spec fn spec_step(self, d: Direction) -> Pos {
        self.spec_shifted(d.dx(), 0, d.dz())
    }

    /// The position one step up.
    pub fn above(self) -> (p: Pos)
        requires
            self.y < i32::MAX,
        ensures
            p == self.spec_shifted(0, 1, 0),
    {
        Pos { x: self.x, y: self.y + 1, z: self.z }
    }

    /// The position one step down.
    pub fn below(self) -> (p: Pos)
        requires
            self.y > i32::MIN,
        ensures
            p == self.spec_shifted(0, -1, 0),
    {
        Pos { x: self.x, y: self.y - 1, z: self.z }
    }
}

/// One of the four horizontal facings on the block grid.
#[derive(Clone, Copy, Debug, PartialEq, Eq, Structural)]
pub enum Direction {
    North,
    East,
    South,
    West,
}

impl Direction {
    /// X component of the unit step.
    pub open spec fn dx(self) -> int {
        match self {
            Direction::East => 1,
            Direction::West => -1,
            _ => 0,
        }
    }

    /// Z component of the unit step.
    pub open spec fn dz(self) -> int {
        match self {
            Direction::North => -1,
            Direction::South => 1,
            _ => 0,
        }
    }

    /// Quarter turn clockwise: North, East, South, West, North.
    pub open spec fn spec_rotate_cw(self) -> Direction {
        match self {
            Direction::North => Direction::East,
            Direction::East => Direction::South,
            Direction::South => Direction::West,
            Direction::West => Direction::North,
        }
    }

    /// Quarter turn counter-clockwise.
    pub open spec fn spec_rotate_ccw(self) -> Direction {
        match self {
            Direction::North => Direction::West,
            Direction::West => Direction::South,
            Direction::South => Direction::East,
            Direction::East => Direction::North,
        }
    }

    pub open spec fn spec_opposite(self) -> Direction {
        match self {
            Direction::North => Direction::South,
            Direction::South => Direction::North,
            Direction::East => Direction::West,
            Direction::West => Direction::East,
        }
    }

    /// `n` clockwise quarter turns.
    pub open spec fn spec_rotate_cw_n(self, n: nat) -> Direction
        decreases n,
    {
        if n == 0 {
            self
        } else {
            self.spec_rotate_cw_n((n - 1) as nat).spec_rotate_cw()
        }
    }

    /// Position of the facing in the clockwise order starting at North.
    pub open spec fn index(self) -> nat {
        match self {
            Direction::North => 0,
            Direction::East => 1,
            Direction::South => 2,
            Direction::West => 3,
        }
    }

    pub fn rotate_cw(self) -> (d: Direction)
        ensures
            d == self.spec_rotate_cw(),
    {
        match self {
            Direction::North => Direction::East,
            Direction::East => Direction::South,
            Direction::South => Direction::West,
            Direction::West => Direction::North,
        }
    }

    /// The facing to the right of this one (a clockwise quarter turn).
    pub fn right(self) -> (d: Direction)
        ensures
            d == self.spec_rotate_cw(),
    {
        self.rotate_cw()
    }

    /// The facing to the left of this one (a counter-clockwise quarter turn).
    pub fn left(self) -> (d: Direction)
        ensures
            d == self.spec_rotate_ccw(),
    {
        match self {
            Direction::North => Direction::West,
            Direction::West => Direction::South,
            Direction::South => Direction::East,
            Direction::East => Direction::North,
        }
    }

    pub fn opposite(self) -> (d: Direction)
        ensures
            d == self.spec_opposite(),
    {
        match self {
            Direction::North => Direction::South,
            Direction::South => Direction::North,
            Direction::East => Direction::West,
            Direction::West => Direction::East,
        }
    }

    /// Apply `n` clockwise quarter turns (the R-key placement offset).
    pub fn rotate_cw_n(self, n: u8) -> (d: Direction)
        ensures
            d == self.spec_rotate_cw_n(n as nat),
            d.index() == (self.index() + n) % 4,
    {
        let mut d = self;
        let mut i: u8 = 0;
        while i < n
            invariant
                i <= n,
                d == self.spec_rotate_cw_n(i as nat),
                d.index() == (self.index() + i) % 4,
            decreases n - i,
        {
            d = d.rotate_cw();
            i = i + 1;
        }
        d
    }

    /// Facing from a numeric code: 0 North, 1 East, 2 South, 3 West, anything else North.
    pub open spec fn spec_from_code(code: u8) -> Direction {
        if code == 1 {
            Direction::East
        } else if code == 2 {
            Direction::South
        } else if code == 3 {
            Direction::West
        } else {
            Direction::North
        }
    }

    pub fn from_code(code: u8) -> (d: Direction)
        ensures
            d == Self::spec_from_code(code),
    {
        match code {
            1 => Direction::East,
            2 => Direction::South,
            3 => Direction::West,
            _ => Direction::North,
        }
    }
}

/// Four clockwise quarter turns give back the starting facing.
pub proof fn law_four_turns_identity(d: Direction)
    ensures
        d.spec_rotate_cw_n(4) == d,
{
    reveal_with_fuel(Direction::spec_rotate_cw_n, 5);
}

/// Turning right and then left (or left then right) gives back the starting facing,
/// and the opposite facing is two quarter turns away.
pub proof fn law_turns_inverse(d: Direction)
    ensures
        d.spec_rotate_cw().spec_rotate_ccw() == d,
        d.spec_rotate_ccw().spec_rotate_cw() == d,
        d.spec_opposite() == d.spec_rotate_cw().spec_rotate_cw(),
        d.spec_opposite().spec_opposite() == d,
{
}

/// Stepping forward and then in the opposite facing returns to the start.
pub proof fn law_step_back(p: Pos, d: Direction)
    requires
        p.interior(),
    ensures
        p.spec_step(d).spec_step(d.spec_opposite()) == p,
{
}

} // verus!
