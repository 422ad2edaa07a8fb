use vstd::prelude::*;

verus! {

/// One of the four axis-aligned orientations a ship can face.
#[derive(Clone, Copy, Debug, PartialEq, Eq, Structural)]
pub enum Direction {
    Up,
    Right,
    Down,
    Left,
}

impl Direction {
    /// Column step of one segment along this direction.
    pub open spec fn spec_dx(self) -> int {
        match self {
            Direction::Right => 1,
            Direction::Left => -1,
            _ => 0,
        }
    }

    /// Row step of one segment along this direction.
    pub open spec fn spec_dy(self) -> int {
        match self {
            Direction::Up => 1,
            Direction::Down => -1,
            _ => 0,
        }
    }

    /// A ship facing this way lies along a row.
    pub open spec fn is_horizontal(self) -> bool {
        self.spec_dx() != 0
    }

    pub open spec fn spec_rotate(self) -> Direction {
        match self {
            Direction::Up => Direction::Left,
            Direction::Right => Direction::Up,
            Direction::Down => Direction::Right,
            Direction::Left => Direction::Down,
        }
    }

    /// Exactly one of the two steps is non-zero, and it is a unit step.
    pub proof fn lemma_unit_step(self)
        ensures
            (self.spec_dx() == 0) != (self.spec_dy() == 0),
            -1 <= self.spec_dx() <= 1,
            -1 <= self.spec_dy() <= 1,
    {
    }

    pub fn dx(&self) -> (r: i8)
        ensures
            r == self.spec_dx(),
    {
        match self {
            Direction::Right => 1,
            Direction::Left => -1,
            _ => 0,
        }
    }

    pub fn dy(&self) -> (r: i8)
        ensures
            r == self.spec_dy(),
    {
        match self {
            Direction::Up => 1,
            Direction::Down => -1,
            _ => 0,
        }
    }

    pub fn delta(&self) -> (r: (i8, i8))
        ensures
            r.0 == self.spec_dx(),
            r.1 == self.spec_dy(),
    {
        (self.dx(), self.dy())
    }

    /// The next orientation a quarter turn away.
    pub fn rotate(&self) -> (r: Direction)
        ensures
            r == self.spec_rotate(),
    {
        match self {
            Direction::Up => Direction::Left,
            Direction::Right => Direction::Up,
            Direction::Down => Direction::Right,
            Direction::Left => Direction::Down,
        }
    }
}

} // verus!
