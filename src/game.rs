use vstd::prelude::*;

use crate::boat::{in_grid, Boat, BoatView, Class};
use crate::direction::Direction;
use crate::grid::{grid_shaped, grid_view, new_grid, set_cell};
use crate::player::Player;

verus! {

/// Width and height of the board of the scripted opponent.
pub const NB: usize = 12;

/// Every ship of `fleet[..n]` lies inside a `w` by `h` grid, and no two of
/// them share a cell.
pub open spec fn placement_prefix_valid(fleet: Seq<BoatView>, n: int, w: int, h: int) -> bool {
    &&& forall|i: int| 0 <= i < n ==> (#[trigger] fleet[i]).inside(w, h)
    &&& forall|i: int, j: int| 0 <= i < j < n ==> (#[trigger] fleet[i]).disjoint(#[trigger] fleet[j])
}

/// The whole fleet may be placed on a `w` by `h` grid.
pub open spec fn placement_valid(fleet: Seq<BoatView>, w: int, h: int) -> bool {
    placement_prefix_valid(fleet, fleet.len() as int, w, h)
}

/// `occ` records, for each cell of the grid, which of the ships
/// `fleet[..n]` covers it, if any.
pub open spec fn occupancy_of(occ: Seq<Seq<Option<u8>>>, fleet: Seq<BoatView>, n: int, w: int, h: int) -> bool {
    forall|x: int, y: int| in_grid(x, y, w, h) ==> cell_matches(#[trigger] occ[x][y], fleet, n, x, y)
}

/// `c` names the one ship of `fleet[..n]` covering `(x, y)`, or is `None`
/// when none does.
pub open spec fn cell_matches(c: Option<u8>, fleet: Seq<BoatView>, n: int, x: int, y: int) -> bool {
    match c {
        Some(i) => i < n && fleet[i as int].occupies(x, y),
        None => uncovered(fleet, n, x, y),
    }
}

/// None of the ships `fleet[..n]` covers `(x, y)`.
pub open spec fn uncovered(fleet: Seq<BoatView>, n: int, x: int, y: int) -> bool {
    forall|i: int| 0 <= i < n ==> !(#[trigger] fleet[i]).occupies(x, y)
}

/// Segment `k` of `fleet[second]` is the first of its cells covered by an
/// earlier ship, and `fleet[first]` covers it.
pub open spec fn first_clash(fleet: Seq<BoatView>, first: int, second: int, k: int) -> bool {
    let b = fleet[second];
    &&& 0 <= k < b.len()
    &&& fleet[first].occupies(b.cell(k).0, b.cell(k).1)
    &&& forall|k2: int, j: int|
        0 <= k2 < k && 0 <= j < second ==> !(#[trigger] fleet[j]).occupies(
            #[trigger] b.cell(k2).0,
            b.cell(k2).1,
        )
}

/// `fleet[second]` is the first ship that runs into an earlier one, and the
/// first of its cells already covered is covered by `fleet[first]`.
pub open spec fn first_overlap(fleet: Seq<BoatView>, first: int, second: int, w: int, h: int) -> bool {
    &&& 0 <= first < second < fleet.len()
    &&& placement_prefix_valid(fleet, second, w, h)
    &&& fleet[second].inside(w, h)
    &&& exists|k: int| #[trigger] first_clash(fleet, first, second, k)
}

/// Why a fleet cannot be placed on a board.
#[derive(Clone, Copy, Debug, PartialEq, Eq, Structural)]
pub enum PlacementError {
    /// The origin or the terminal cell of this ship lies outside the board.
    OutOfBounds { boat: usize },
    /// The ship `second` runs into the earlier ship `first`.
    Overlap { first: usize, second: usize },
}

impl PlacementError {
    /// The error names the first ship, in fleet order, that cannot be placed
    /// after all ships before it, and why.
    pub open spec fn describes(self, fleet: Seq<BoatView>, w: int, h: int) -> bool {
        match self {
            PlacementError::OutOfBounds { boat } => {
                &&& boat < fleet.len()
                &&& placement_prefix_valid(fleet, boat as int, w, h)
                &&& !fleet[boat as int].inside(w, h)
            },
            PlacementError::Overlap { first, second } => first_overlap(
                fleet,
                first as int,
                second as int,
                w,
                h,
            ),
        }
    }
}

/// Mathematical model of a board.
pub struct BoardView {
    pub width: nat,
    pub height: nat,
    /// Per cell, the index of the own ship covering it.
    pub occupancy: Seq<Seq<Option<u8>>>,
    /// Per cell, the recorded result of this side's shot on the opponent.
    pub shots: Seq<Seq<Option<bool>>>,
    pub fleet: Seq<BoatView>,
}

impl BoardView {
    pub open spec fn in_bounds(self, x: int, y: int) -> bool {
        in_grid(x, y, self.width as int, self.height as int)
    }

    /// Cells are named by `u8` coordinates and ships by `u8` indices; both
    /// grids have the board's shape; the fleet is placed validly and the
    /// occupancy grid records exactly where it lies.
    pub open spec fn wf(self) -> bool {
        &&& self.width <= 256
        &&& self.height <= 256
        &&& self.fleet.len() <= 256
        &&& forall|i: int| 0 <= i < self.fleet.len() ==> (#[trigger] self.fleet[i]).wf()
        &&& grid_shaped(self.occupancy, self.width as int, self.height as int)
        &&& grid_shaped(self.shots, self.width as int, self.height as int)
        &&& placement_valid(self.fleet, self.width as int, self.height as int)
        &&& occupancy_of(
            self.occupancy,
            self.fleet,
            self.fleet.len() as int,
            self.width as int,
            self.height as int,
        )
    }

    pub open spec fn shot(self, x: int, y: int) -> bool {
        self.shots[x][y] is Some
    }

    /// The board after recording the result of a shot on the opponent; a
    /// result once recorded stays.
    pub open spec fn confirmed(self, x: int, y: int, hit: bool) -> BoardView {
        if self.shot(x, y) {
            self
        } else {
            BoardView { shots: self.shots.update(x, self.shots[x].update(y, Some(hit))), ..self }
        }
    }

    /// Number of cells not shot yet among `(x, 0) .. (x, y)`.
    pub open spec fn unshot_in_column(self, x: int, y: int) -> nat
        decreases y,
    {
        if y <= 0 {
            0
        } else {
            self.unshot_in_column(x, y - 1) + if self.shots[x][y - 1] is None {
                1nat
            } else {
                0nat
            }
        }
    }

    /// Number of cells not shot yet in the columns before column `x`.
    pub open spec fn unshot_before_column(self, x: int) -> nat
        decreases x,
    {
        if x <= 0 {
            0
        } else {
            self.unshot_before_column(x - 1) + self.unshot_in_column(x - 1, self.height as int)
        }
    }

    /// Number of cells not shot yet that come before `(x, y)`, column by column.
    pub open spec fn unshot_rank(self, x: int, y: int) -> nat {
        self.unshot_before_column(x) + self.unshot_in_column(x, y)
    }

    /// Number of cells of the board not shot yet.
    pub open spec fn unshot_count(self) -> nat {
        self.unshot_before_column(self.width as int)
    }

    /// An opponent's shot at `(x, y)` lands on an intact segment of a ship.
    pub open spec fn attack_hits(self, x: int, y: int) -> bool {
        match self.occupancy[x][y] {
            Some(i) => self.fleet[i as int].hits(x, y),
            None => false,
        }
    }

    /// The board after an opponent's shot at `(x, y)`.
    pub open spec fn attacked(self, x: int, y: int) -> BoardView {
        match self.occupancy[x][y] {
            Some(i) => BoardView {
                fleet: self.fleet.update(i as int, self.fleet[i as int].after_shot(x, y)),
                ..self
            },
            None => self,
        }
    }
}

/// A fleet with a ship off the board, or with two ships sharing a cell,
/// cannot be placed.
pub proof fn lemma_bad_fleet_rejected(fleet: Seq<BoatView>, w: int, h: int, i: int, j: int)
    requires
        0 <= i < fleet.len(),
        0 <= j < fleet.len(),
        !fleet[i].inside(w, h) || (i != j && !fleet[i].disjoint(fleet[j])),
    ensures
        !placement_valid(fleet, w, h),
{
    if fleet[i].inside(w, h) && j < i {
        assert(!fleet[j].disjoint(fleet[i]));
    }
}

/// Recording the same result twice at one cell is the same as recording it once.
pub proof fn lemma_confirm_idempotent(v: BoardView, x: int, y: int, hit: bool)
    requires
        v.wf(),
        v.in_bounds(x, y),
    ensures
        v.confirmed(x, y, hit).confirmed(x, y, hit) == v.confirmed(x, y, hit),
{
    assert(v.confirmed(x, y, hit).confirmed(x, y, hit).shots =~~= v.confirmed(x, y, hit).shots);
}

proof fn lemma_unshot_in_column_bounds(v: BoardView, x: int, y1: int, y2: int)
    requires
        0 <= y1 <= y2,
    ensures
        v.unshot_in_column(x, y1) <= v.unshot_in_column(x, y2),
        v.unshot_in_column(x, y2) <= y2,
    decreases y2,
{
    if y2 > 0 {
        lemma_unshot_in_column_bounds(v, x, if y1 == y2 { y2 - 1 } else { y1 }, y2 - 1);
    }
}

proof fn lemma_unshot_before_column_bounds(v: BoardView, x1: int, x2: int)
    requires
        0 <= x1 <= x2,
    ensures
        v.unshot_before_column(x1) <= v.unshot_before_column(x2),
        v.unshot_before_column(x2) <= x2 * v.height,
    decreases x2,
{
    if x2 > 0 {
        lemma_unshot_in_column_bounds(v, x2 - 1, 0, v.height as int);
        lemma_unshot_before_column_bounds(v, if x1 == x2 { x2 - 1 } else { x1 }, x2 - 1);
        assert((x2 - 1) * v.height + v.height == x2 * v.height) by (nonlinear_arith);
    }
}

/// A cell not shot yet has a rank below the number of such cells.
proof fn lemma_unshot_rank_below_count(v: BoardView, x: int, y: int)
    requires
        v.in_bounds(x, y),
        !v.shot(x, y),
    ensures
        v.unshot_rank(x, y) < v.unshot_count(),
{
    lemma_unshot_in_column_bounds(v, x, y + 1, v.height as int);
    lemma_unshot_before_column_bounds(v, x + 1, v.width as int);
}

/// A board whose ships changed only in their health is still well formed.
proof fn lemma_same_geometry_wf(v1: BoardView, v2: BoardView)
    requires
        v1.wf(),
        v2.width == v1.width,
        v2.height == v1.height,
        v2.occupancy == v1.occupancy,
        v2.shots == v1.shots,
        v2.fleet.len() == v1.fleet.len(),
        forall|i: int|
            0 <= i < v1.fleet.len() ==> (#[trigger] v2.fleet[i]).same_geometry(v1.fleet[i]),
    ensures
        v2.wf(),
{
    let n = v1.fleet.len() as int;
    let (w, h) = (v1.width as int, v1.height as int);
    assert forall|i: int, j: int| 0 <= i < j < n implies (#[trigger] v2.fleet[i]).disjoint(
        #[trigger] v2.fleet[j],
    ) by {
        assert(v1.fleet[i].disjoint(v1.fleet[j]));
        assert forall|px: int, py: int| !(#[trigger] v2.fleet[i].occupies(px, py) && #[trigger] v2.fleet[j].occupies(px, py)) by {
            assert(!(v1.fleet[i].occupies(px, py) && v1.fleet[j].occupies(px, py)));
        }
    }
    assert forall|i: int| 0 <= i < n implies (#[trigger] v2.fleet[i]).inside(w, h) by {
        assert(v1.fleet[i].inside(w, h));
    }
    assert forall|x: int, y: int| in_grid(x, y, w, h) implies cell_matches(
        #[trigger] v2.occupancy[x][y],
        v2.fleet,
        n,
        x,
        y,
    ) by {
        assert(cell_matches(v1.occupancy[x][y], v1.fleet, n, x, y));
        if v1.occupancy[x][y] is None {
            assert forall|i: int| 0 <= i < n implies !(#[trigger] v2.fleet[i]).occupies(x, y) by {
                assert(!v1.fleet[i].occupies(x, y));
            }
        }
    }
}

/// An intact ship of class `class` with origin `(x, y)` facing `direction`.
pub open spec fn fresh_boat(class: Class, x: int, y: int, direction: Direction) -> BoatView {
    BoatView { class, x, y, direction, life: Seq::new(class.spec_max_life(), |i: int| true) }
}

/// The scripted opponent's fleet.
pub open spec fn ai_fleet() -> Seq<BoatView> {
    seq![
        fresh_boat(Class::Carrier, 1, 0, Direction::Right),
        fresh_boat(Class::Battleship, 0, 2, Direction::Up),
        fresh_boat(Class::Cruiser, 11, 1, Direction::Left),
        fresh_boat(Class::Submarine, 10, 10, Direction::Down),
        fresh_boat(Class::Destroyer, 5, 5, Direction::Left),
    ]
}

proof fn lemma_ai_fleet_valid()
    ensures
        placement_valid(ai_fleet(), NB as int, NB as int),
        forall|i: int| 0 <= i < ai_fleet().len() ==> (#[trigger] ai_fleet()[i]).wf(),
{
    let f = ai_fleet();
    assert forall|i: int, j: int| 0 <= i < j < f.len() implies (#[trigger] f[i]).disjoint(#[trigger] f[j]) by {
        assert forall|px: int, py: int| !(#[trigger] f[i].occupies(px, py) && #[trigger] f[j].occupies(px, py)) by {
        }
    }
}

/// A recorded result never changes: recording at any cell, and any shot
/// of the opponent, leave every recorded result as it was.
pub proof fn lemma_recorded_shots_stay(v: BoardView, x: int, y: int, hit: bool, a: int, b: int)
    requires
        v.wf(),
        v.in_bounds(x, y),
        v.in_bounds(a, b),
        v.shot(a, b),
    ensures
        v.confirmed(x, y, hit).shots[a][b] == v.shots[a][b],
        v.attacked(x, y).shots == v.shots,
{
}

/// Whether `(x, y)` lies in a `size_x` by `size_y` grid.
pub fn in_board(size_x: usize, size_y: usize, x: i64, y: i64) -> (r: bool)
    ensures
        r == in_grid(x as int, y as int, size_x as int, size_y as int),
{
    x >= 0 && y >= 0 && (x as i128) < (size_x as i128) && (y as i128) < (size_y as i128)
}

/// The cell of segment `k` of a ship.
fn segment_cell(boat: &Boat, k: u8) -> (r: (i64, i64))
    ensures
        r.0 == boat@.cell(k as int).0,
        r.1 == boat@.cell(k as int).1,
{
    let x = boat.position.0 as i64;
    let y = boat.position.1 as i64;
    match boat.direction {
        Direction::Up => (x, y + k as i64),
        Direction::Down => (x, y - k as i64),
        Direction::Right => (x + k as i64, y),
        Direction::Left => (x - k as i64, y),
    }
}

/// One side's board: its own fleet and where it lies, and the results of
/// its shots on the opponent.
#[derive(Debug)]
pub struct Game {
    size_x: usize,
    size_y: usize,
    board_boats: Vec<Vec<Option<u8>>>,
    shot_boats: Vec<Vec<Option<bool>>>,
    player: Player,
}

impl View for Game {
    type V = BoardView;

    closed spec fn view(&self) -> BoardView {
        BoardView {
            width: self.size_x as nat,
            height: self.size_y as nat,
            occupancy: grid_view(self.board_boats@),
            shots: grid_view(self.shot_boats@),
            fleet: self.player@,
        }
    }
}

impl Game {
    /// Places the fleet on a `size_x` by `size_y` board, with no shot
    /// recorded yet. Ships are checked in fleet order: origin and terminal
    /// cell on the board, then each cell free of earlier ships; the first
    /// failure is returned and nothing is kept.
    pub fn new(size_x: usize, size_y: usize, player: Player) -> (r: Result<Game, PlacementError>)
        requires
            size_x <= 256,
            size_y <= 256,
            player.boats@.len() <= 256,
            forall|i: int| 0 <= i < player@.len() ==> (#[trigger] player@[i]).wf(),
        ensures
            r is Ok <==> placement_valid(player@, size_x as int, size_y as int),
            match r {
                Ok(g) => {
                    &&& g@.wf()
                    &&& g@.width == size_x
                    &&& g@.height == size_y
                    &&& g@.fleet == player@
                    &&& forall|x: int, y: int| g@.in_bounds(x, y) ==> !(#[trigger] g@.shot(x, y))
                },
                Err(e) => e.describes(player@, size_x as int, size_y as int),
            },
    {
        let ghost fleet = player@;
        let ghost w = size_x as int;
        let ghost h = size_y as int;
        let mut board_boats = new_grid(size_x, size_y, None::<u8>);
        let n = player.boats.len();
        let mut i: usize = 0;
        while i < n
            invariant
                n == player.boats@.len(),
                n == fleet.len(),
                fleet == player@,
                w == size_x,
                h == size_y,
                n <= 256,
                i <= n,
                grid_shaped(grid_view(board_boats@), w, h),
                placement_prefix_valid(fleet, i as int, w, h),
                occupancy_of(grid_view(board_boats@), fleet, i as int, w, h),
            decreases n - i,
        {
            let boat = &player.boats[i];
            let ghost b = fleet[i as int];
            assert(b == boat@);
            let life = boat.max_life();
            let (x0, y0) = segment_cell(boat, 0);
            let (tx, ty) = segment_cell(boat, life - 1);
            let origin_in = in_board(size_x, size_y, x0, y0);
            let terminal_in = in_board(size_x, size_y, tx, ty);
            if !origin_in || !terminal_in {
                return Err(PlacementError::OutOfBounds { boat: i });
            }
            assert(b.inside(w, h));
            let ghost prev = grid_view(board_boats@);
            let mut k: u8 = 0;
            while k < life
                invariant
                    n == player.boats@.len(),
                    n == fleet.len(),
                    fleet == player@,
                    w == size_x,
                    h == size_y,
                    i < n <= 256,
                    b == fleet[i as int],
                    b == boat@,
                    b.inside(w, h),
                    life == b.len(),
                    k <= life,
                    grid_shaped(prev, w, h),
                    grid_shaped(grid_view(board_boats@), w, h),
                    placement_prefix_valid(fleet, i as int, w, h),
                    occupancy_of(prev, fleet, i as int, w, h),
                    forall|x: int, y: int|
                        in_grid(x, y, w, h) ==> #[trigger] grid_view(board_boats@)[x][y] == (
                        match b.segment_at(x, y) {
                            Some(s) => if s < k {
                                Some(i as u8)
                            } else {
                                prev[x][y]
                            },
                            None => prev[x][y],
                        }),
                    forall|k2: int, j: int|
                        0 <= k2 < k && 0 <= j < i ==> !(#[trigger] fleet[j]).occupies(
                            #[trigger] b.cell(k2).0,
                            b.cell(k2).1,
                        ),
                decreases life - k,
            {
                let (cx, cy) = segment_cell(boat, k);
                proof {
                    b.lemma_cell_segment(k as int);
                    b.lemma_inside(w, h, cx as int, cy as int);
                    assert(grid_view(board_boats@)[cx as int] == board_boats@[cx as int]@);
                    assert(grid_view(board_boats@)[cx as int][cy as int] == prev[cx as int][cy as int]);
                }
                match board_boats[cx as usize][cy as usize] {
                    Some(first) => {
                        proof {
                            assert(cell_matches(prev[cx as int][cy as int], fleet, i as int, cx as int, cy as int));
                            assert(first_clash(fleet, first as int, i as int, k as int));
                            assert(b.occupies(cx as int, cy as int));
                            assert(!fleet[first as int].disjoint(fleet[i as int]));
                        }
                        return Err(PlacementError::Overlap { first: first as usize, second: i });
                    },
                    None => {
                        proof {
                            assert(cell_matches(prev[cx as int][cy as int], fleet, i as int, cx as int, cy as int));
                        }
                        set_cell(&mut board_boats, cx as usize, cy as usize, Some(i as u8));
                    },
                }
                k = k + 1;
            }
            proof {
                let occ = grid_view(board_boats@);
                assert forall|x: int, y: int| in_grid(x, y, w, h) implies cell_matches(
                    #[trigger] occ[x][y],
                    fleet,
                    i + 1,
                    x,
                    y,
                ) by {
                    assert(cell_matches(prev[x][y], fleet, i as int, x, y));
                    if b.occupies(x, y) {
                        b.lemma_segment_cell(x, y);
                    }
                }
                assert forall|j: int| 0 <= j < i implies (#[trigger] fleet[j]).disjoint(b) by {
                    assert forall|px: int, py: int| !(#[trigger] fleet[j].occupies(px, py) && #[trigger] b.occupies(px, py)) by {
                        if b.occupies(px, py) {
                            b.lemma_segment_cell(px, py);
                            let s = b.segment_at(px, py)->Some_0;
                            assert(!fleet[j].occupies(b.cell(s).0, b.cell(s).1));
                        }
                    }
                }
            }
            i = i + 1;
        }
        let shot_boats = new_grid(size_x, size_y, None::<bool>);
        Ok(Game { size_x, size_y, board_boats, shot_boats, player })
    }

    /// Whether this side has already shot at `p`.
    pub fn shot(&self, p: (u8, u8)) -> (r: bool)
        requires
            self@.wf(),
            self@.in_bounds(p.0 as int, p.1 as int),
        ensures
            r == self@.shot(p.0 as int, p.1 as int),
    {
        proof {
            assert(grid_view(self.shot_boats@)[p.0 as int] == self.shot_boats@[p.0 as int]@);
        }
        self.shot_boats[p.0 as usize][p.1 as usize].is_some()
    }

    /// Records the result of this side's shot at `p` on the opponent, unless
    /// a result is recorded there already.
    pub fn confirm_attack(&mut self, p: (u8, u8), b: bool)
        requires
            old(self)@.wf(),
            old(self)@.in_bounds(p.0 as int, p.1 as int),
        ensures
            final(self)@ == old(self)@.confirmed(p.0 as int, p.1 as int, b),
            final(self)@.wf(),
    {
        proof {
            assert(grid_view(self.shot_boats@)[p.0 as int] == self.shot_boats@[p.0 as int]@);
        }
        if self.shot_boats[p.0 as usize][p.1 as usize].is_some() {
            return;
        }
        set_cell(&mut self.shot_boats, p.0 as usize, p.1 as usize, Some(b));
        proof {
            let shots = grid_view(self.shot_boats@);
            assert forall|x: int| 0 <= x < self.size_x implies (#[trigger] shots[x]).len() == self.size_y by {
                assert(grid_view(old(self).shot_boats@)[x].len() == self.size_y);
            }
        }
    }

    /// Applies the opponent's shot at `p` to the own fleet. Returns whether
    /// it hit an intact segment; an empty cell is a miss that changes nothing.
    pub fn opponent_attack(&mut self, p: (u8, u8)) -> (r: bool)
        requires
            old(self)@.wf(),
            old(self)@.in_bounds(p.0 as int, p.1 as int),
        ensures
            r == old(self)@.attack_hits(p.0 as int, p.1 as int),
            final(self)@ == old(self)@.attacked(p.0 as int, p.1 as int),
            final(self)@.wf(),
    {
        proof {
            assert(grid_view(self.board_boats@)[p.0 as int] == self.board_boats@[p.0 as int]@);
        }
        match self.board_boats[p.0 as usize][p.1 as usize] {
            None => false,
            Some(i) => {
                let ghost old_v = self@;
                proof {
                    assert(cell_matches(old_v.occupancy[p.0 as int][p.1 as int], old_v.fleet, old_v.fleet.len() as int, p.0 as int, p.1 as int));
                    assert(old_v.fleet[i as int] == self.player.boats@[i as int]@);
                }
                let r = self.player.boats[i as usize].shoot(p);
                proof {
                    let new_v = self@;
                    let b = old_v.fleet[i as int].after_shot(p.0 as int, p.1 as int);
                    assert(new_v.fleet =~= old_v.fleet.update(i as int, b));
                    lemma_same_geometry_wf(old_v, new_v);
                }
                r
            },
        }
    }

    /// The scripted opponent's board: a fixed fleet on an `NB` by `NB` grid.
    pub fn create_ai_game() -> (r: Result<Game, PlacementError>)
        ensures
            r matches Ok(g) && g@.wf() && g@.width == NB && g@.height == NB && g@.fleet == ai_fleet()
                && forall|x: int, y: int| g@.in_bounds(x, y) ==> !(#[trigger] g@.shot(x, y)),
    {
        let mut boats: Vec<Boat> = Vec::new();
        boats.push(Boat::new(Class::Carrier, (1, 0), Direction::Right));
        boats.push(Boat::new(Class::Battleship, (0, 2), Direction::Up));
        boats.push(Boat::new(Class::Cruiser, (11, 1), Direction::Left));
        boats.push(Boat::new(Class::Submarine, (10, 10), Direction::Down));
        boats.push(Boat::new(Class::Destroyer, (5, 5), Direction::Left));
        let player = Player::new(boats);
        proof {
            let fleet = player@;
            assert(fleet =~= ai_fleet());
            lemma_ai_fleet_valid();
        }
        Game::new(NB, NB, player)
    }

    /// Number of cells this side has not shot at yet.
    pub fn count_unshot(&self) -> (r: usize)
        requires
            self@.wf(),
        ensures
            r == self@.unshot_count(),
    {
        let ghost v = self@;
        let mut total: usize = 0;
        let mut x: usize = 0;
        while x < self.size_x
            invariant
                v == self@,
                v.wf(),
                x <= self.size_x,
                total == v.unshot_before_column(x as int),
            decreases self.size_x - x,
        {
            proof {
                lemma_unshot_before_column_bounds(v, x as int, x as int);
                assert(x * v.height <= 256 * 256) by (nonlinear_arith)
                    requires x <= 256, v.height <= 256;
                assert(grid_view(self.shot_boats@)[x as int] == self.shot_boats@[x as int]@);
            }
            let mut y: usize = 0;
            while y < self.size_y
                invariant
                    v == self@,
                    v.wf(),
                    x < self.size_x,
                    y <= self.size_y,
                    total == v.unshot_before_column(x as int) + v.unshot_in_column(x as int, y as int),
                    v.unshot_before_column(x as int) <= 256 * 256,
                    self.shot_boats@[x as int]@ == v.shots[x as int],
                decreases self.size_y - y,
            {
                proof {
                    lemma_unshot_in_column_bounds(v, x as int, y as int, y as int);
                }
                if self.shot_boats[x][y].is_none() {
                    total = total + 1;
                }
                y = y + 1;
            }
            x = x + 1;
        }
        total
    }

    /// The cell not shot yet whose rank, counting such cells column by
    /// column, is `k`.
    pub fn nth_unshot(&self, k: usize) -> (r: (u8, u8))
        requires
            self@.wf(),
            k < self@.unshot_count(),
        ensures
            self@.in_bounds(r.0 as int, r.1 as int),
            !self@.shot(r.0 as int, r.1 as int),
            self@.unshot_rank(r.0 as int, r.1 as int) == k,
    {
        let ghost v = self@;
        let mut seen: usize = 0;
        let mut x: usize = 0;
        while x < self.size_x
            invariant
                v == self@,
                v.wf(),
                k < v.unshot_count(),
                x <= self.size_x,
                seen == v.unshot_before_column(x as int),
                seen <= k,
            decreases self.size_x - x,
        {
            proof {
                assert(grid_view(self.shot_boats@)[x as int] == self.shot_boats@[x as int]@);
            }
            let mut y: usize = 0;
            while y < self.size_y
                invariant
                    v == self@,
                    v.wf(),
                    k < v.unshot_count(),
                    x < self.size_x,
                    y <= self.size_y,
                    seen == v.unshot_rank(x as int, y as int),
                    seen <= k,
                    self.shot_boats@[x as int]@ == v.shots[x as int],
                decreases self.size_y - y,
            {
                if self.shot_boats[x][y].is_none() {
                    if seen == k {
                        return (x as u8, y as u8);
                    }
                    seen = seen + 1;
                }
                y = y + 1;
            }
            x = x + 1;
        }
        proof {
            assert(seen == v.unshot_count());
        }
        (0, 0)
    }

    /// A cell this side has not shot at yet, drawn uniformly at random, or
    /// `None` when every cell has been shot.
    pub fn get_auto_position(&self) -> (r: Option<(u8, u8)>)
        requires
            self@.wf(),
        ensures
            r is None <==> forall|x: int, y: int| #[trigger] self@.in_bounds(x, y) ==> self@.shot(x, y),
            r matches Some(p) ==> self@.in_bounds(p.0 as int, p.1 as int) && !self@.shot(p.0 as int, p.1 as int),
    {
        let count = self.count_unshot();
        if count == 0 {
            proof {
                assert forall|x: int, y: int| #[trigger] self@.in_bounds(x, y) implies self@.shot(x, y) by {
                    if !self@.shot(x, y) {
                        lemma_unshot_rank_below_count(self@, x, y);
                    }
                }
            }
            return None;
        }
        let k = random_below(count);
        let p = self.nth_unshot(k);
        Some(p)
    }

    pub fn width(&self) -> (r: usize)
        ensures
            r == self@.width,
    {
        self.size_x
    }

    pub fn height(&self) -> (r: usize)
        ensures
            r == self@.height,
    {
        self.size_y
    }

    /// The index of the own ship covering `(x, y)`, if any.
    pub fn occupant(&self, x: u8, y: u8) -> (r: Option<u8>)
        requires
            self@.wf(),
            self@.in_bounds(x as int, y as int),
        ensures
            r == self@.occupancy[x as int][y as int],
    {
        proof {
            assert(grid_view(self.board_boats@)[x as int] == self.board_boats@[x as int]@);
        }
        self.board_boats[x as usize][y as usize]
    }

    /// The recorded result of this side's shot at `(x, y)`, if any.
    pub fn shot_result(&self, x: u8, y: u8) -> (r: Option<bool>)
        requires
            self@.wf(),
            self@.in_bounds(x as int, y as int),
        ensures
            r == self@.shots[x as int][y as int],
    {
        proof {
            assert(grid_view(self.shot_boats@)[x as int] == self.shot_boats@[x as int]@);
        }
        self.shot_boats[x as usize][y as usize]
    }

    /// The own fleet.
    pub fn player(&self) -> (r: &Player)
        ensures
            r@ == self@.fleet,
    {
        &self.player
    }
}

/// Relies on rand's `thread_rng().gen_range(0, n)`: a value drawn from
/// `0..n`, which panics when `n` is zero.
#[verifier::external_body]
fn random_below(n: usize) -> (r: usize)
    requires
        n > 0,
    ensures
        r < n,
{
    rand::Rng::gen_range(&mut rand::thread_rng(), 0, n)
}

} // verus!
