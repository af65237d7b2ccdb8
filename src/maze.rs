//! The maze model: per-cell wall and visited flags kept in agreement across
//! every shared edge, the goal cells and the start cell.

use vstd::prelude::*;

verus! {

/// Flag of a wall on the north edge of a cell.
pub const NORTH_WALL: u8 = 0b0000_0001;

/// Flag of a wall on the east edge of a cell.
pub const EAST_WALL: u8 = 0b0000_0010;

/// Flag of a wall on the south edge of a cell.
pub const SOUTH_WALL: u8 = 0b0000_0100;

/// Flag of a wall on the west edge of a cell.
pub const WEST_WALL: u8 = 0b0000_1000;

/// Flag of a visited cell.
pub const VISITED: u8 = 0b0001_0000;

/// Every flag that a cell can carry.
pub const ALL_CELL_FLAGS: u8 = 0b0001_1111;

/// Whether the bit set `bits` holds every flag of `flag`.
pub open spec fn has_flag(bits: u8, flag: u8) -> bool {
    bits & flag == flag
}

/// The bit set `bits` with the flags of `flags` raised (`value`) or cleared.
pub open spec fn set_flags(bits: u8, flags: u8, value: bool) -> u8 {
    if value {
        bits | flags
    } else {
        bits & !flags
    }
}

/// Whether `flag` is a single bit.
pub open spec fn single_flag(flag: u8) -> bool {
    flag == 1 || flag == 2 || flag == 4 || flag == 8 || flag == 16 || flag == 32 || flag == 64
        || flag == 128
}

/// Setting or clearing a group of flags touches exactly the single flags of the group.
pub proof fn lemma_set_flags_single(bits: u8, flags: u8, value: bool, flag: u8)
    requires
        single_flag(flag),
    ensures
        has_flag(set_flags(bits, flags, value), flag) == (if has_flag(flags, flag) {
            value
        } else {
            has_flag(bits, flag)
        }),
{
    if value {
        assert(((bits | flags) & flag == flag) == (if flags & flag == flag {
            true
        } else {
            bits & flag == flag
        })) by (bit_vector)
            requires
                flag == 1 || flag == 2 || flag == 4 || flag == 8 || flag == 16 || flag == 32
                    || flag == 64 || flag == 128,
        ;
    } else {
        assert(((bits & !flags) & flag == flag) == (if flags & flag == flag {
            false
        } else {
            bits & flag == flag
        })) by (bit_vector)
            requires
                flag == 1 || flag == 2 || flag == 4 || flag == 8 || flag == 16 || flag == 32
                    || flag == 64 || flag == 128,
        ;
    }
}

/// The wall and visited flags of one maze cell, as a bit set.
#[derive(Clone, Copy, Debug, PartialEq, Eq, Hash, Default, Structural)]
pub struct CellState {
    bits: u8,
}

impl View for CellState {
    type V = u8;

    closed spec fn view(&self) -> u8 {
        self.bits
    }
}

impl CellState {
    /// A bit set holding exactly `bits`, unknown bits included.
    pub fn from_bits_retain(bits: u8) -> (r: CellState)
        ensures
            r@ == bits,
    {
        CellState { bits }
    }

    /// The raw bits of the set.
    pub fn bits(&self) -> (r: u8)
        ensures
            r == self@,
    {
        self.bits
    }

    /// The set without any flag.
    pub fn empty() -> (r: CellState)
        ensures
            r@ == 0,
    {
        CellState { bits: 0 }
    }

    /// The set of every known flag.
    pub fn all() -> (r: CellState)
        ensures
            r@ == ALL_CELL_FLAGS,
    {
        CellState { bits: ALL_CELL_FLAGS }
    }

    /// The set holding only the north wall.
    pub fn north_wall() -> (r: CellState)
        ensures
            r@ == NORTH_WALL,
    {
        CellState { bits: NORTH_WALL }
    }

    /// The set holding only the east wall.
    pub fn east_wall() -> (r: CellState)
        ensures
            r@ == EAST_WALL,
    {
        CellState { bits: EAST_WALL }
    }

    /// The set holding only the south wall.
    pub fn south_wall() -> (r: CellState)
        ensures
            r@ == SOUTH_WALL,
    {
        CellState { bits: SOUTH_WALL }
    }

    /// The set holding only the west wall.
    pub fn west_wall() -> (r: CellState)
        ensures
            r@ == WEST_WALL,
    {
        CellState { bits: WEST_WALL }
    }

    /// The set holding only the visited mark.
    pub fn visited() -> (r: CellState)
        ensures
            r@ == VISITED,
    {
        CellState { bits: VISITED }
    }

    /// Whether every flag of `other` is in the set.
    pub fn contains(&self, other: CellState) -> (r: bool)
        ensures
            r == has_flag(self@, other@),
    {
        self.bits & other.bits == other.bits
    }

    /// Raises (`value`) or clears the flags of `other`.
    pub fn set(&mut self, other: CellState, value: bool)
        ensures
            final(self)@ == set_flags(old(self)@, other@, value),
    {
        if value {
            self.bits = self.bits | other.bits;
        } else {
            self.bits = self.bits & !other.bits;
        }
    }
}

/// The posts at the corners of the cells of a maze of `R` rows and `C`
/// columns; they carry no state and only mark the grid for display.
pub struct Posts<const R: usize, const C: usize>;

/// The position of a cell in a maze of `R` rows and `C` columns.
#[derive(Clone, Copy, Debug, PartialEq, Eq)]
pub struct Cell<const R: usize, const C: usize> {
    pub x: usize,
    pub y: usize,
}

impl<const R: usize, const C: usize> Cell<R, C> {
    /// Whether the cell lies inside the maze.
    pub open spec fn wf(&self) -> bool {
        self.x < C && self.y < R
    }

    /// The cell at column `x` and row `y`; fails outside the maze.
    pub fn new(x: usize, y: usize) -> (r: Result<Self, MazeError>)
        ensures
            (x < C && y < R) <==> r is Ok,
            r is Ok ==> r->Ok_0.x == x && r->Ok_0.y == y,
            r is Err ==> r->Err_0 == MazeError::OutOfBounds,
    {
        if y >= R || x >= C {
            return Err(MazeError::OutOfBounds);
        }
        Ok(Cell { x, y })
    }
}

/// What can go wrong on the maze model.
#[derive(Clone, Copy, Debug, PartialEq, Eq, Structural)]
pub enum MazeError {
    /// The coordinates lie outside the maze.
    OutOfBounds,
    /// The four goal cells are already set.
    GoalsFull,
}

/// Whether the goal slot `slot` holds `cell`.
fn slot_holds<const R: usize, const C: usize>(slot: Option<Cell<R, C>>, cell: Cell<R, C>) -> (r:
    bool)
    ensures
        r == (slot == Some(cell)),
{
    match slot {
        Some(c) => c.x == cell.x && c.y == cell.y,
        None => false,
    }
}

/// Up to four goal cells, set one after the other.
#[derive(Clone, Copy, Debug)]
pub struct Goal<const R: usize, const C: usize> {
    g0: Option<Cell<R, C>>,
    g1: Option<Cell<R, C>>,
    g2: Option<Cell<R, C>>,
    g3: Option<Cell<R, C>>,
}

/// How many goal cells a maze can hold.
pub const MAX_GOALS: usize = 4;

impl<const R: usize, const C: usize> View for Goal<R, C> {
    type V = Seq<Cell<R, C>>;

    /// The goal cells set so far, in the order they were set.
    closed spec fn view(&self) -> Seq<Cell<R, C>> {
        match (self.g0, self.g1, self.g2, self.g3) {
            (Some(a), Some(b), Some(c), Some(d)) => seq![a, b, c, d],
            (Some(a), Some(b), Some(c), None) => seq![a, b, c],
            (Some(a), Some(b), None, _) => seq![a, b],
            (Some(a), None, _, _) => seq![a],
            _ => seq![],
        }
    }
}

impl<const R: usize, const C: usize> Goal<R, C> {
    /// The slots are filled in order: no set slot follows an empty one.
    pub closed spec fn wf(&self) -> bool {
        (self.g1 is Some ==> self.g0 is Some) && (self.g2 is Some ==> self.g1 is Some) && (
        self.g3 is Some ==> self.g2 is Some)
    }

    /// No goal cell.
    pub fn new() -> (r: Self)
        ensures
            r.wf(),
            r@ == Seq::<Cell<R, C>>::empty(),
    {
        Goal { g0: None, g1: None, g2: None, g3: None }
    }

    /// Adds `cell` as the next goal; fails once four are set.
    pub fn set(&mut self, cell: Cell<R, C>) -> (r: Result<(), MazeError>)
        requires
            old(self).wf(),
        ensures
            final(self).wf(),
            old(self)@.len() <= MAX_GOALS,
            (old(self)@.len() < MAX_GOALS) <==> r is Ok,
            r is Ok ==> final(self)@ == old(self)@.push(cell),
            r is Err ==> r->Err_0 == MazeError::GoalsFull && final(self)@ == old(self)@,
    {
        if self.g0.is_none() {
            self.g0 = Some(cell);
            Ok(())
        } else if self.g1.is_none() {
            self.g1 = Some(cell);
            Ok(())
        } else if self.g2.is_none() {
            self.g2 = Some(cell);
            Ok(())
        } else if self.g3.is_none() {
            self.g3 = Some(cell);
            Ok(())
        } else {
            Err(MazeError::GoalsFull)
        }
    }

    /// Whether `cell` is one of the goal cells.
    pub fn is_target(&self, cell: Cell<R, C>) -> (r: bool)
        requires
            self.wf(),
        ensures
            r == self@.contains(cell),
    {
        let found = slot_holds(self.g0, cell) || slot_holds(self.g1, cell) || slot_holds(
            self.g2,
            cell,
        ) || slot_holds(self.g3, cell);
        proof {
            let v = self@;
            if self.g0 == Some(cell) {
                assert(v[0] == cell);
            } else if self.g1 == Some(cell) {
                assert(v[1] == cell);
            } else if self.g2 == Some(cell) {
                assert(v[2] == cell);
            } else if self.g3 == Some(cell) {
                assert(v[3] == cell);
            } else {
                assert(forall|i: int| 0 <= i < v.len() ==> v[i] != cell);
            }
        }
        found
    }
}

/// Four goals set one after the other from none are all told apart as
/// targets, and they fill every goal slot, so that setting a fifth fails.
pub proof fn lemma_four_goals<const R: usize, const C: usize>(
    a: Cell<R, C>,
    b: Cell<R, C>,
    c: Cell<R, C>,
    d: Cell<R, C>,
)
    ensures
        ({
            let goals = Seq::<Cell<R, C>>::empty().push(a).push(b).push(c).push(d);
            &&& goals.len() == MAX_GOALS
            &&& goals.contains(a) && goals.contains(b) && goals.contains(c) && goals.contains(d)
            &&& forall|e: Cell<R, C>| goals.contains(e) ==> e == a || e == b || e == c || e == d
        }),
{
    let goals = Seq::<Cell<R, C>>::empty().push(a).push(b).push(c).push(d);
    assert(goals[0] == a && goals[1] == b && goals[2] == c && goals[3] == d);
}

/// Whether walls agree across every shared edge: a cell's north wall is its
/// northern neighbour's south wall, and its east wall is its eastern
/// neighbour's west wall.
pub open spec fn walls_mirrored<const R: usize, const C: usize>(m: &Maze<R, C>) -> bool {
    &&& forall|x: int, y: int|
        0 <= x < C && 0 <= y && y + 1 < R ==> (has_flag(#[trigger] m.bits_at(x, y), NORTH_WALL)
            == has_flag(m.bits_at(x, y + 1), SOUTH_WALL))
    &&& forall|x: int, y: int|
        0 <= x && x + 1 < C && 0 <= y < R ==> (has_flag(#[trigger] m.bits_at(x, y), EAST_WALL)
            == has_flag(m.bits_at(x + 1, y), WEST_WALL))
}

/// The flags of cell (`x`, `y`) after the flags `flags` of `cell` were set to
/// `value` in `m`: the cell itself takes them all, and each neighbour across an
/// edge named in `flags` takes the mirrored wall.
pub open spec fn updated_bits<const R: usize, const C: usize>(
    m: &Maze<R, C>,
    cell: Cell<R, C>,
    flags: u8,
    value: bool,
    x: int,
    y: int,
) -> u8 {
    let old_bits = m.bits_at(x, y);
    if x == cell.x && y == cell.y {
        set_flags(old_bits, flags, value)
    } else if x == cell.x && y == cell.y + 1 && has_flag(flags, NORTH_WALL) {
        set_flags(old_bits, SOUTH_WALL, value)
    } else if x == cell.x && y + 1 == cell.y && has_flag(flags, SOUTH_WALL) {
        set_flags(old_bits, NORTH_WALL, value)
    } else if x == cell.x + 1 && y == cell.y && has_flag(flags, EAST_WALL) {
        set_flags(old_bits, WEST_WALL, value)
    } else if x + 1 == cell.x && y == cell.y && has_flag(flags, WEST_WALL) {
        set_flags(old_bits, EAST_WALL, value)
    } else {
        old_bits
    }
}

/// A maze of `R` rows and `C` columns: the flags of every cell, the goal
/// cells and the start cell.
#[derive(Clone, Debug)]
pub struct Maze<const R: usize, const C: usize> {
    map: Vec<CellState>,
    goal: Goal<R, C>,
    start: Cell<R, C>,
}

/// Distinct cells have distinct places in the column-major cell vector.
pub(crate) proof fn lemma_cell_index<const R: usize, const C: usize>(x1: int, y1: int, x2: int, y2: int)
    requires
        0 <= x1 < C,
        0 <= y1 < R,
        0 <= x2 < C,
        0 <= y2 < R,
    ensures
        0 <= x1 * R + y1 < R * C,
        (x1 * R + y1 == x2 * R + y2) <==> (x1 == x2 && y1 == y2),
{
    let r = R as int;
    let c = C as int;
    assert(0 <= x1 * r + y1 < r * c) by (nonlinear_arith)
        requires
            0 <= x1 < c,
            0 <= y1 < r,
    ;
    assert((x1 * r + y1 == x2 * r + y2) ==> (x1 == x2 && y1 == y2)) by (nonlinear_arith)
        requires
            0 <= y1 < r,
            0 <= y2 < r,
    ;
}

impl<const R: usize, const C: usize> Maze<R, C> {
    /// The flags of cell (`x`, `y`).
    pub closed spec fn bits_at(&self, x: int, y: int) -> u8 {
        self.map@[x * R + y]@
    }

    /// The goal cells, in the order they were set.
    pub closed spec fn goals(&self) -> Seq<Cell<R, C>> {
        self.goal@
    }

    /// The start cell.
    pub closed spec fn start(&self) -> Cell<R, C> {
        self.start
    }

    /// The storage holds one entry per cell and the start cell is inside.
    pub closed spec fn inv(&self) -> bool {
        &&& 0 < R
        &&& 0 < C
        &&& R * C <= usize::MAX
        &&& self.map@.len() == R * C
        &&& self.goal.wf()
        &&& self.start.wf()
    }

    /// The maze is well formed: walls agree across every shared edge.
    pub open spec fn wf(&self) -> bool {
        self.inv() && walls_mirrored(self)
    }

    /// A maze without walls or goals whose start cell is the origin.
    pub fn new() -> (r: Self)
        requires
            0 < R,
            0 < C,
            R * C <= usize::MAX,
        ensures
            r.wf(),
            forall|x: int, y: int| 0 <= x < C && 0 <= y < R ==> #[trigger] r.bits_at(x, y) == 0,
            r.goals() == Seq::<Cell<R, C>>::empty(),
            r.start() == (Cell::<R, C> { x: 0, y: 0 }),
    {
        let n: usize = R * C;
        let mut map: Vec<CellState> = Vec::new();
        while map.len() < n
            invariant
                map@.len() <= n,
                forall|i: int| 0 <= i < map@.len() ==> #[trigger] map@[i]@ == 0,
            decreases n - map@.len(),
        {
            map.push(CellState::empty());
        }
        let r = Maze { map, goal: Goal::new(), start: Cell { x: 0, y: 0 } };
        assert forall|x: int, y: int| 0 <= x < C && 0 <= y < R implies #[trigger] r.bits_at(x, y)
            == 0 by {
            lemma_cell_index::<R, C>(x, y, x, y);
        }
        assert(!has_flag(0, NORTH_WALL) && !has_flag(0, SOUTH_WALL) && !has_flag(0, EAST_WALL)
            && !has_flag(0, WEST_WALL)) by (bit_vector);
        r
    }

    /// A maze whose cell (`x`, `y`) has the flags `cells[x * R + y]`, without
    /// goals and with the origin as start cell; the flags must agree across
    /// every shared edge.
    pub fn from_cells(cells: Vec<CellState>) -> (r: Self)
        requires
            0 < R,
            0 < C,
            R * C <= usize::MAX,
            cells@.len() == R * C,
            forall|x: int, y: int|
                0 <= x < C && 0 <= y && y + 1 < R ==> (has_flag(
                    #[trigger] cells@[x * R + y]@,
                    NORTH_WALL,
                ) == has_flag(cells@[x * R + y + 1]@, SOUTH_WALL)),
            forall|x: int, y: int|
                0 <= x && x + 1 < C && 0 <= y < R ==> (has_flag(
                    #[trigger] cells@[x * R + y]@,
                    EAST_WALL,
                ) == has_flag(cells@[(x + 1) * R + y]@, WEST_WALL)),
        ensures
            r.wf(),
            forall|x: int, y: int|
                0 <= x < C && 0 <= y < R ==> #[trigger] r.bits_at(x, y) == cells@[x * R + y]@,
            r.goals() == Seq::<Cell<R, C>>::empty(),
            r.start() == (Cell::<R, C> { x: 0, y: 0 }),
    {
        let r = Maze { map: cells, goal: Goal::new(), start: Cell { x: 0, y: 0 } };
        assert forall|x: int, y: int| 0 <= x < C && 0 <= y && y + 1 < R implies (has_flag(
            #[trigger] r.bits_at(x, y),
            NORTH_WALL,
        ) == has_flag(r.bits_at(x, y + 1), SOUTH_WALL)) by {
            assert(x * R + y + 1 == x * R + (y + 1));
        }
        assert forall|x: int, y: int| 0 <= x && x + 1 < C && 0 <= y < R implies (has_flag(
            #[trigger] r.bits_at(x, y),
            EAST_WALL,
        ) == has_flag(r.bits_at(x + 1, y), WEST_WALL)) by {
            assert(cells@[x * R + y]@ == r.bits_at(x, y));
        }
        r
    }

    /// The flags of `cell`.
    pub fn get_cell_state(&self, cell: Cell<R, C>) -> (r: CellState)
        requires
            self.inv(),
            cell.wf(),
        ensures
            r@ == self.bits_at(cell.x as int, cell.y as int),
    {
        proof {
            lemma_cell_index::<R, C>(cell.x as int, cell.y as int, 0, 0);
        }
        self.map[cell.x * R + cell.y]
    }

    /// Sets (`value`) or clears the flags `state` on `cell`, and mirrors each
    /// wall of `state` onto the neighbour across that edge, where the maze has
    /// one.
    pub fn update_cell_state(&mut self, cell: Cell<R, C>, state: CellState, value: bool)
        requires
            old(self).wf(),
            cell.wf(),
        ensures
            final(self).wf(),
            final(self).goals() == old(self).goals(),
            final(self).start() == old(self).start(),
            forall|x: int, y: int|
                0 <= x < C && 0 <= y < R ==> #[trigger] final(self).bits_at(x, y) == updated_bits(
                    old(self),
                    cell,
                    state@,
                    value,
                    x,
                    y,
                ),
    {
        let ghost old_maze = *self;
        proof {
            lemma_cell_index::<R, C>(cell.x as int, cell.y as int, 0, 0);
        }
        let i = cell.x * R + cell.y;
        let mut s = self.map[i];
        s.set(state, value);
        self.map.set(i, s);

        if state.contains(CellState::north_wall()) && cell.y + 1 < R {
            proof {
                lemma_cell_index::<R, C>(cell.x as int, cell.y + 1, 0, 0);
            }
            let j = i + 1;
            let mut n = self.map[j];
            n.set(CellState::south_wall(), value);
            self.map.set(j, n);
        }
        if state.contains(CellState::south_wall()) && cell.y > 0 {
            let j = i - 1;
            let mut n = self.map[j];
            n.set(CellState::north_wall(), value);
            self.map.set(j, n);
        }
        if state.contains(CellState::east_wall()) && cell.x + 1 < C {
            proof {
                lemma_cell_index::<R, C>(cell.x + 1, cell.y as int, 0, 0);
                assert(i + R == (cell.x + 1) * R + cell.y) by (nonlinear_arith)
                    requires
                        i == cell.x * R + cell.y,
                ;
            }
            let j = i + R;
            let mut n = self.map[j];
            n.set(CellState::west_wall(), value);
            self.map.set(j, n);
        }
        if state.contains(CellState::west_wall()) && cell.x > 0 {
            proof {
                lemma_cell_index::<R, C>(cell.x - 1, cell.y as int, 0, 0);
                assert(i - R == (cell.x - 1) * R + cell.y) by (nonlinear_arith)
                    requires
                        i == cell.x * R + cell.y,
                ;
            }
            let j = i - R;
            let mut n = self.map[j];
            n.set(CellState::east_wall(), value);
            self.map.set(j, n);
        }
        proof {
            let cx = cell.x as int;
            let cy = cell.y as int;
            assert forall|x: int, y: int| 0 <= x < C && 0 <= y < R implies #[trigger] self.bits_at(
                x,
                y,
            ) == updated_bits(&old_maze, cell, state@, value, x, y) by {
                lemma_cell_index::<R, C>(x, y, cx, cy);
                if cy + 1 < R {
                    lemma_cell_index::<R, C>(x, y, cx, cy + 1);
                }
                if cy > 0 {
                    lemma_cell_index::<R, C>(x, y, cx, cy - 1);
                }
                if cx + 1 < C {
                    lemma_cell_index::<R, C>(x, y, cx + 1, cy);
                }
                if cx > 0 {
                    lemma_cell_index::<R, C>(x, y, cx - 1, cy);
                }
                assert((x * R + y) + 1 == x * R + (y + 1));
                assert((x * R + y) + R == (x + 1) * R + y) by (nonlinear_arith);
            }
            lemma_update_keeps_mirrored(&old_maze, self, cell, state@, value);
        }
    }

    /// Adds `cell` as the next goal cell; fails once four are set.
    pub fn set_goal_cell(&mut self, cell: Cell<R, C>) -> (r: Result<(), MazeError>)
        requires
            old(self).wf(),
        ensures
            final(self).wf(),
            final(self).start() == old(self).start(),
            forall|x: int, y: int| #[trigger] final(self).bits_at(x, y) == old(self).bits_at(x, y),
            (old(self).goals().len() < MAX_GOALS) <==> r is Ok,
            old(self).goals().len() <= MAX_GOALS ==> final(self).goals().len() <= MAX_GOALS,
            r is Ok ==> final(self).goals() == old(self).goals().push(cell),
            r is Err ==> r->Err_0 == MazeError::GoalsFull && final(self).goals() == old(
                self,
            ).goals(),
    {
        let r = self.goal.set(cell);
        assert(self.map@ == old(self).map@);
        assert(forall|x: int, y: int| #[trigger] self.bits_at(x, y) == old(self).bits_at(x, y));
        r
    }

    /// Whether `cell` is one of the goal cells.
    pub fn is_goal_cell(&self, cell: Cell<R, C>) -> (r: bool)
        requires
            self.inv(),
        ensures
            r == self.goals().contains(cell),
    {
        self.goal.is_target(cell)
    }

    /// Makes `cell` the start cell.
    pub fn set_start_cell(&mut self, cell: Cell<R, C>)
        requires
            old(self).wf(),
            cell.wf(),
        ensures
            final(self).wf(),
            final(self).start() == cell,
            final(self).goals() == old(self).goals(),
            forall|x: int, y: int| #[trigger] final(self).bits_at(x, y) == old(self).bits_at(x, y),
    {
        self.start = cell;
        assert(self.map@ == old(self).map@);
        assert(forall|x: int, y: int| #[trigger] self.bits_at(x, y) == old(self).bits_at(x, y));
    }

    /// The start cell.
    pub fn get_start_cell(&self) -> (r: Cell<R, C>)
        requires
            self.inv(),
        ensures
            r == self.start(),
            r.wf(),
    {
        self.start
    }
}

/// Setting flags with mirroring keeps walls agreeing across every edge.
proof fn lemma_update_keeps_mirrored<const R: usize, const C: usize>(
    m: &Maze<R, C>,
    n: &Maze<R, C>,
    cell: Cell<R, C>,
    flags: u8,
    value: bool,
)
    requires
        m.wf(),
        n.inv(),
        cell.wf(),
        forall|x: int, y: int|
            0 <= x < C && 0 <= y < R ==> #[trigger] n.bits_at(x, y) == updated_bits(
                m,
                cell,
                flags,
                value,
                x,
                y,
            ),
    ensures
        walls_mirrored(n),
{
    assert forall|x: int, y: int| 0 <= x < C && 0 <= y && y + 1 < R implies (has_flag(
        #[trigger] n.bits_at(x, y),
        NORTH_WALL,
    ) == has_flag(n.bits_at(x, y + 1), SOUTH_WALL)) by {
        lemma_flag_after_update(m, cell, flags, value, x, y, NORTH_WALL);
        lemma_flag_after_update(m, cell, flags, value, x, y + 1, SOUTH_WALL);
    }
    assert forall|x: int, y: int| 0 <= x && x + 1 < C && 0 <= y < R implies (has_flag(
        #[trigger] n.bits_at(x, y),
        EAST_WALL,
    ) == has_flag(n.bits_at(x + 1, y), WEST_WALL)) by {
        lemma_flag_after_update(m, cell, flags, value, x, y, EAST_WALL);
        lemma_flag_after_update(m, cell, flags, value, x + 1, y, WEST_WALL);
    }
}

/// One flag of a cell after an update, in terms of the flags before it.
proof fn lemma_flag_after_update<const R: usize, const C: usize>(
    m: &Maze<R, C>,
    cell: Cell<R, C>,
    flags: u8,
    value: bool,
    x: int,
    y: int,
    flag: u8,
)
    requires
        single_flag(flag),
    ensures
        has_flag(updated_bits(m, cell, flags, value, x, y), flag) == (if x == cell.x && y
            == cell.y && has_flag(flags, flag) {
            value
        } else if x == cell.x && y == cell.y + 1 && has_flag(flags, NORTH_WALL) && flag
            == SOUTH_WALL {
            value
        } else if x == cell.x && y + 1 == cell.y && has_flag(flags, SOUTH_WALL) && flag
            == NORTH_WALL {
            value
        } else if x == cell.x + 1 && y == cell.y && has_flag(flags, EAST_WALL) && flag
            == WEST_WALL {
            value
        } else if x + 1 == cell.x && y == cell.y && has_flag(flags, WEST_WALL) && flag
            == EAST_WALL {
            value
        } else {
            has_flag(m.bits_at(x, y), flag)
        }),
{
    let b = m.bits_at(x, y);
    lemma_set_flags_single(b, flags, value, flag);
    lemma_set_flags_single(b, SOUTH_WALL, value, flag);
    lemma_set_flags_single(b, NORTH_WALL, value, flag);
    lemma_set_flags_single(b, WEST_WALL, value, flag);
    lemma_set_flags_single(b, EAST_WALL, value, flag);
    assert(has_flag(SOUTH_WALL, flag) == (flag == SOUTH_WALL)) by (bit_vector)
        requires
            flag == 1 || flag == 2 || flag == 4 || flag == 8 || flag == 16 || flag == 32 || flag
                == 64 || flag == 128,
    ;
    assert(has_flag(NORTH_WALL, flag) == (flag == NORTH_WALL)) by (bit_vector)
        requires
            flag == 1 || flag == 2 || flag == 4 || flag == 8 || flag == 16 || flag == 32 || flag
                == 64 || flag == 128,
    ;
    assert(has_flag(WEST_WALL, flag) == (flag == WEST_WALL)) by (bit_vector)
        requires
            flag == 1 || flag == 2 || flag == 4 || flag == 8 || flag == 16 || flag == 32 || flag
                == 64 || flag == 128,
    ;
    assert(has_flag(EAST_WALL, flag) == (flag == EAST_WALL)) by (bit_vector)
        requires
            flag == 1 || flag == 2 || flag == 4 || flag == 8 || flag == 16 || flag == 32 || flag
                == 64 || flag == 128,
    ;
}

/// Setting a wall on one side of a shared edge sets the mirrored wall on the
/// other side, and clearing it clears both; at the border of the maze only
/// the cell itself changes, and the maze stays well formed either way.
pub proof fn lemma_wall_update_mirrors<const R: usize, const C: usize>(
    before: &Maze<R, C>,
    after: &Maze<R, C>,
    cell: Cell<R, C>,
    flags: u8,
    value: bool,
)
    requires
        before.wf(),
        after.wf(),
        cell.wf(),
        forall|x: int, y: int|
            0 <= x < C && 0 <= y < R ==> #[trigger] after.bits_at(x, y) == updated_bits(
                before,
                cell,
                flags,
                value,
                x,
                y,
            ),
    ensures
        has_flag(flags, NORTH_WALL) ==> has_flag(after.bits_at(cell.x as int, cell.y as int), NORTH_WALL) == value,
        has_flag(flags, SOUTH_WALL) ==> has_flag(after.bits_at(cell.x as int, cell.y as int), SOUTH_WALL) == value,
        has_flag(flags, EAST_WALL) ==> has_flag(after.bits_at(cell.x as int, cell.y as int), EAST_WALL) == value,
        has_flag(flags, WEST_WALL) ==> has_flag(after.bits_at(cell.x as int, cell.y as int), WEST_WALL) == value,
        has_flag(flags, NORTH_WALL) && cell.y + 1 < R ==> has_flag(
            after.bits_at(cell.x as int, cell.y + 1),
            SOUTH_WALL,
        ) == value,
        has_flag(flags, SOUTH_WALL) && cell.y > 0 ==> has_flag(
            after.bits_at(cell.x as int, cell.y - 1),
            NORTH_WALL,
        ) == value,
        has_flag(flags, EAST_WALL) && cell.x + 1 < C ==> has_flag(
            after.bits_at(cell.x + 1, cell.y as int),
            WEST_WALL,
        ) == value,
        has_flag(flags, WEST_WALL) && cell.x > 0 ==> has_flag(
            after.bits_at(cell.x - 1, cell.y as int),
            EAST_WALL,
        ) == value,
        forall|x: int, y: int|
            0 <= x < C && 0 <= y < R && !(x == cell.x && y == cell.y) && !(x == cell.x && (y
                == cell.y + 1 || y + 1 == cell.y)) && !(y == cell.y && (x == cell.x + 1 || x + 1
                == cell.x)) ==> #[trigger] after.bits_at(x, y) == before.bits_at(x, y),
{
    let cx = cell.x as int;
    let cy = cell.y as int;
    lemma_flag_after_update(before, cell, flags, value, cx, cy, NORTH_WALL);
    lemma_flag_after_update(before, cell, flags, value, cx, cy, SOUTH_WALL);
    lemma_flag_after_update(before, cell, flags, value, cx, cy, EAST_WALL);
    lemma_flag_after_update(before, cell, flags, value, cx, cy, WEST_WALL);
    if cy + 1 < R {
        lemma_flag_after_update(before, cell, flags, value, cx, cy + 1, SOUTH_WALL);
    }
    if cy > 0 {
        lemma_flag_after_update(before, cell, flags, value, cx, cy - 1, NORTH_WALL);
    }
    if cx + 1 < C {
        lemma_flag_after_update(before, cell, flags, value, cx + 1, cy, WEST_WALL);
    }
    if cx > 0 {
        lemma_flag_after_update(before, cell, flags, value, cx - 1, cy, EAST_WALL);
    }
}

} // verus!
