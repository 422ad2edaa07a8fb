use vstd::prelude::*;

use crate::direction::Direction;

verus! {

/// The kind of a ship, which fixes how many segments it has.
#[derive(Clone, Copy, Debug, PartialEq, Eq, Structural)]
pub enum Class {
    Carrier,
    Battleship,
    Cruiser,
    Submarine,
    Destroyer,
}

impl Class {
    pub open spec fn spec_max_life(self) -> nat {
        match self {
            Class::Carrier => 5,
            Class::Battleship => 4,
            Class::Cruiser => 3,
            Class::Submarine => 3,
            Class::Destroyer => 2,
        }
    }

    /// Number of segments of a ship of this class.
    pub fn max_life(&self) -> (r: u8)
        ensures
            r == self.spec_max_life(),
    {
        match self {
            Class::Carrier => 5,
            Class::Battleship => 4,
            Class::Cruiser => 3,
            Class::Submarine => 3,
            Class::Destroyer => 2,
        }
    }
}

/// `0 <= x < w` and `0 <= y < h`.
pub open spec fn in_grid(x: int, y: int, w: int, h: int) -> bool {
    0 <= x < w && 0 <= y < h
}

/// Mathematical model of a placed ship.
pub struct BoatView {
    pub class: Class,
    pub x: int,
    pub y: int,
    pub direction: Direction,
    /// One entry per segment, `true` while the segment is intact.
    pub life: Seq<bool>,
}

impl BoatView {
    pub open spec fn len(self) -> int {
        self.class.spec_max_life() as int
    }

    /// The health sequence has one entry per segment of the class.
    pub open spec fn wf(self) -> bool {
        self.life.len() == self.len()
    }

    /// The cell of segment `k`: `k` unit steps from the origin along the direction.
    pub open spec fn cell(self, k: int) -> (int, int) {
        match self.direction {
            Direction::Up => (self.x, self.y + k),
            Direction::Down => (self.x, self.y - k),
            Direction::Right => (self.x + k, self.y),
            Direction::Left => (self.x - k, self.y),
        }
    }

    /// The last cell of the ship.
    pub open spec fn terminal(self) -> (int, int) {
        self.cell(self.len() - 1)
    }

    /// Signed number of unit steps from the origin to `(px, py)` along the
    /// ship's axis (the offset divided by the unit step), or `None` when the
    /// point is off that axis.
    pub open spec fn axis_offset(self, px: int, py: int) -> Option<int> {
        match self.direction {
            Direction::Up => if px == self.x { Some(py - self.y) } else { None },
            Direction::Down => if px == self.x { Some(self.y - py) } else { None },
            Direction::Right => if py == self.y { Some(px - self.x) } else { None },
            Direction::Left => if py == self.y { Some(self.x - px) } else { None },
        }
    }

    /// The segment lying on `(px, py)`, if any.
    pub open spec fn segment_at(self, px: int, py: int) -> Option<int> {
        match self.axis_offset(px, py) {
            Some(n) => if 0 <= n < self.len() {
                Some(n)
            } else {
                None
            },
            None => None,
        }
    }

    pub open spec fn occupies(self, px: int, py: int) -> bool {
        self.segment_at(px, py) is Some
    }

    /// A shot at `(px, py)` lands on an intact segment.
    pub open spec fn hits(self, px: int, py: int) -> bool {
        match self.segment_at(px, py) {
            Some(n) => self.life[n],
            None => false,
        }
    }

    /// The ship after a shot at `(px, py)`: the segment hit, if any, is dead.
    pub open spec fn after_shot(self, px: int, py: int) -> BoatView {
        if self.hits(px, py) {
            BoatView { life: self.life.update(self.segment_at(px, py)->Some_0, false), ..self }
        } else {
            self
        }
    }

    /// Same class, origin and direction: the same cells, whatever the health.
    pub open spec fn same_geometry(self, other: BoatView) -> bool {
        &&& self.class == other.class
        &&& self.x == other.x
        &&& self.y == other.y
        &&& self.direction == other.direction
        &&& self.life.len() == other.life.len()
    }

    pub open spec fn is_dead(self) -> bool {
        forall|i: int| 0 <= i < self.life.len() ==> !self.life[i]
    }

    /// Origin and terminal cell lie in a `w` by `h` grid.
    pub open spec fn inside(self, w: int, h: int) -> bool {
        &&& in_grid(self.x, self.y, w, h)
        &&& in_grid(self.terminal().0, self.terminal().1, w, h)
    }

    /// No cell is covered by both ships.
    pub open spec fn disjoint(self, other: BoatView) -> bool {
        forall|px: int, py: int| !(#[trigger] self.occupies(px, py) && #[trigger] other.occupies(px, py))
    }

    /// Segment `k` of the ship lies on its `k`-th cell, and nowhere else.
    pub proof fn lemma_cell_segment(self, k: int)
        requires
            0 <= k < self.len(),
        ensures
            self.segment_at(self.cell(k).0, self.cell(k).1) == Some(k),
    {
    }

    /// A point covered by segment `k` is the `k`-th cell.
    pub proof fn lemma_segment_cell(self, px: int, py: int)
        requires
            self.occupies(px, py),
        ensures
            self.cell(self.segment_at(px, py)->Some_0) == (px, py),
    {
    }

    /// Origin and terminal cell in the grid put every cell in the grid.
    pub proof fn lemma_inside(self, w: int, h: int, px: int, py: int)
        requires
            self.inside(w, h),
            self.occupies(px, py),
        ensures
            in_grid(px, py, w, h),
    {
    }
}

/// A segment takes damage at most once: a shot at one point hits exactly
/// when it lies on an intact segment, and after it a second shot at any
/// point of the same segment misses.
pub proof fn lemma_segment_hit_once(b: BoatView, px: int, py: int, qx: int, qy: int)
    requires
        b.wf(),
        b.segment_at(qx, qy) == b.segment_at(px, py),
    ensures
        b.hits(px, py) == (b.segment_at(px, py) matches Some(n) && b.life[n]),
        !b.after_shot(px, py).hits(qx, qy),
{
}

/// A shot off the ship's axis (another row for a horizontal ship, another
/// column for a vertical one) misses and leaves the ship as it was.
pub proof fn lemma_off_axis_miss(b: BoatView, px: int, py: int)
    requires
        if b.direction.is_horizontal() {
            py != b.y
        } else {
            px != b.x
        },
    ensures
        !b.hits(px, py),
        b.after_shot(px, py) == b,
{
}

/// A placed ship.
#[derive(Debug)]
pub struct Boat {
    pub class: Class,
    pub position: (u8, u8),
    pub direction: Direction,
    pub detailed_life: Vec<bool>,
}

impl View for Boat {
    type V = BoatView;

    open spec fn view(&self) -> BoatView {
        BoatView {
            class: self.class,
            x: self.position.0 as int,
            y: self.position.1 as int,
            direction: self.direction,
            life: self.detailed_life@,
        }
    }
}

impl Boat {
    /// A fresh ship with every segment intact.
    pub fn new(class: Class, position: (u8, u8), direction: Direction) -> (r: Boat)
        ensures
            r@.wf(),
            r@ == (BoatView {
                class,
                x: position.0 as int,
                y: position.1 as int,
                direction,
                life: Seq::new(class.spec_max_life(), |i: int| true),
            }),
    {
        let life = class.max_life();
        let mut detailed_life: Vec<bool> = Vec::new();
        let mut i: u8 = 0;
        while i < life
            invariant
                i <= life,
                life == class.spec_max_life(),
                detailed_life@ == Seq::new(i as nat, |j: int| true),
            decreases life - i,
        {
            detailed_life.push(true);
            i = i + 1;
        }
        Boat { class, position, direction, detailed_life }
    }

    pub fn max_life(&self) -> (r: u8)
        ensures
            r == self@.len(),
    {
        self.class.max_life()
    }

    /// Whether every segment is dead.
    pub fn is_dead(&self) -> (r: bool)
        ensures
            r == self@.is_dead(),
    {
        let mut i: usize = 0;
        while i < self.detailed_life.len()
            invariant
                i <= self.detailed_life@.len(),
                forall|j: int| 0 <= j < i ==> !self.detailed_life@[j],
            decreases self.detailed_life@.len() - i,
        {
            if self.detailed_life[i] {
                assert(self@.life[i as int]);
                return false;
            }
            i = i + 1;
        }
        true
    }

    /// Fires at `position`. Returns whether an intact segment was hit, and
    /// marks that segment dead; a shot off the ship's axis, beyond its ends,
    /// or on a dead segment changes nothing.
    pub fn shoot(&mut self, position: (u8, u8)) -> (r: bool)
        requires
            old(self)@.wf(),
        ensures
            r == old(self)@.hits(position.0 as int, position.1 as int),
            final(self)@ == old(self)@.after_shot(position.0 as int, position.1 as int),
    {
        let dx = self.direction.dx();
        let dy = self.direction.dy();
        let n: i16;
        if dx == 0 {
            if self.position.0 == position.0 && dy != 0 {
                let diff = position.1 as i16 - self.position.1 as i16;
                n = if dy > 0 { diff } else { -diff };
            } else {
                return false;
            }
        } else if dy == 0 {
            if self.position.1 == position.1 {
                let diff = position.0 as i16 - self.position.0 as i16;
                n = if dx > 0 { diff } else { -diff };
            } else {
                return false;
            }
        } else {
            return false;
        }
        if n < 0 || n >= self.max_life() as i16 || !self.detailed_life[n as usize] {
            return false;
        }
        self.detailed_life.set(n as usize, false);
        true
    }
}

} // verus!
