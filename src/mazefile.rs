//! The maze file format: rows of text where wall lines carry `-` for north
//! and south walls, cell lines carry `|` for east and west walls and `S` or
//! `G` in a cell's middle for the start and goal cells.

use vstd::prelude::*;

use crate::maze::{
    has_flag, lemma_cell_index, Cell, CellState, Maze, EAST_WALL, MAX_GOALS,
    NORTH_WALL, SOUTH_WALL, WEST_WALL,
};
use crate::simulator::MAX_MAZE_SIDE;

verus! {

/// Ends a line.
pub const NEWLINE: u8 = 10;

/// Before a newline, part of the line ending.
pub const CARRIAGE_RETURN: u8 = 13;

/// A north or south wall, on a wall line.
pub const HORIZONTAL_WALL: u8 = 45;

/// An east or west wall, on a cell line.
pub const VERTICAL_WALL: u8 = 124;

/// A goal cell, in the middle of a cell on a cell line.
pub const GOAL_MARK: u8 = 71;

/// The start cell, in the middle of a cell on a cell line.
pub const START_MARK: u8 = 83;

/// `l` without the carriage return that ends it, if any.
pub open spec fn strip_cr(l: Seq<u8>) -> Seq<u8> {
    if l.len() > 0 && l.last() == CARRIAGE_RETURN {
        l.drop_last()
    } else {
        l
    }
}

/// The lines of `s` from the line that starts at `start`, scanning on from
/// `i`: a line ends at a newline, or a carriage return and a newline, which
/// are not part of it; the last line needs no ending.
pub open spec fn lines_from(s: Seq<u8>, start: int, i: int) -> Seq<Seq<u8>>
    decreases s.len() - i,
{
    if i < 0 || i >= s.len() {
        if 0 <= start < s.len() {
            seq![s.subrange(start, s.len() as int)]
        } else {
            seq![]
        }
    } else if s[i] == NEWLINE {
        seq![strip_cr(s.subrange(start, i))] + lines_from(s, i + 1, i + 1)
    } else {
        lines_from(s, start, i + 1)
    }
}

/// The lines of the text `s`.
pub open spec fn text_lines(s: Seq<u8>) -> Seq<Seq<u8>> {
    lines_from(s, 0, 0)
}

/// The contents of a sequence of byte vectors.
pub open spec fn line_views(v: Seq<Vec<u8>>) -> Seq<Seq<u8>> {
    Seq::new(v.len(), |j: int| v[j]@)
}

/// The byte at column `p` of line `k`, or 0 past its end.
pub open spec fn byte_at(lines: Seq<Seq<u8>>, k: int, p: int) -> u8 {
    if 0 <= k < lines.len() && 0 <= p < lines[k].len() {
        lines[k][p]
    } else {
        0
    }
}

/// Whether `lines` hold a maze of `rows` rows and `cols` columns: a wall line
/// above each row of cells and one below the last, long enough for every
/// wall and mark.
pub open spec fn lines_ok(lines: Seq<Seq<u8>>, rows: int, cols: int) -> bool {
    &&& lines.len() >= 2 * rows + 1
    &&& forall|k: int|
        0 <= k < 2 * rows + 1 ==> #[trigger] lines[k].len() >= (if k % 2 == 0 {
            4 * cols - 1
        } else {
            4 * cols + 1
        })
}

/// The flag `flag` when `b` holds, no flag otherwise.
pub open spec fn flag_if(b: bool, flag: u8) -> u8 {
    if b {
        flag
    } else {
        0
    }
}

/// The flags of cell (`x`, `y`) as the lines draw them: row `y` is drawn
/// counting from the bottom, so its wall lines are `2 * (rows - 1 - y)` above
/// and the one after its cell line below it; the walls of column `x` sit at
/// columns `4 * x` (west), `4 * x + 2` (north, south) and `4 * x + 4` (east).
pub open spec fn drawn_bits(lines: Seq<Seq<u8>>, rows: int, x: int, y: int) -> u8 {
    let t = rows - 1 - y;
    flag_if(byte_at(lines, 2 * t, 4 * x + 2) == HORIZONTAL_WALL, NORTH_WALL) | flag_if(
        byte_at(lines, 2 * t + 1, 4 * x + 4) == VERTICAL_WALL,
        EAST_WALL,
    ) | flag_if(byte_at(lines, 2 * t + 2, 4 * x + 2) == HORIZONTAL_WALL, SOUTH_WALL) | flag_if(
        byte_at(lines, 2 * t + 1, 4 * x) == VERTICAL_WALL,
        WEST_WALL,
    )
}

/// The mark of the `k`-th cell in reading order: rows from the top, cells
/// from the left.
pub open spec fn mark_at(lines: Seq<Seq<u8>>, cols: int, k: int) -> u8 {
    byte_at(lines, 2 * (k / cols) + 1, 4 * (k % cols) + 2)
}

/// The `k`-th cell in reading order.
pub open spec fn cell_in_order<const R: usize, const C: usize>(k: int) -> Cell<R, C> {
    Cell { x: (k % (C as int)) as usize, y: (R - 1 - k / (C as int)) as usize }
}

/// The cells marked `mark` among the first `n` in reading order, in that order.
pub open spec fn marked<const R: usize, const C: usize>(
    lines: Seq<Seq<u8>>,
    mark: u8,
    n: int,
) -> Seq<Cell<R, C>>
    decreases n,
{
    if n <= 0 {
        seq![]
    } else if mark_at(lines, C as int, n - 1) == mark {
        marked::<R, C>(lines, mark, n - 1).push(cell_in_order::<R, C>(n - 1))
    } else {
        marked::<R, C>(lines, mark, n - 1)
    }
}

/// The start cell that the lines name: the last cell marked as start, or the
/// origin.
pub open spec fn drawn_start<const R: usize, const C: usize>(lines: Seq<Seq<u8>>) -> Cell<R, C> {
    drawn_start_upto::<R, C>(lines, R * C)
}

/// What can go wrong when reading a maze file.
#[derive(Clone, Copy, Debug, PartialEq, Eq, Structural)]
pub enum MazefileError {
    /// Too few lines, or a line too short for the maze.
    Malformed,
    /// More than four cells are marked as goals.
    TooManyGoals,
}

/// The text of a maze file.
pub struct Mazefile<const R: usize, const C: usize> {
    input: Vec<u8>,
}

impl<const R: usize, const C: usize> Mazefile<R, C> {
    /// The bytes of the file.
    pub closed spec fn text(&self) -> Seq<u8> {
        self.input@
    }

    /// A maze file of text `input`.
    pub fn new(input: Vec<u8>) -> (r: Self)
        ensures
            r.text() == input@,
    {
        Mazefile { input }
    }

    /// The maze the file draws: its walls, its goal cells in reading order,
    /// and its start cell. Fails when the lines cannot hold the maze, or when
    /// more than four goals are marked.
    pub fn parse(self) -> (r: Result<Maze<R, C>, MazefileError>)
        requires
            0 < R <= MAX_MAZE_SIDE,
            0 < C <= MAX_MAZE_SIDE,
            R * C <= usize::MAX,
        ensures
            !lines_ok(text_lines(self.text()), R as int, C as int) ==> r == Err::<
                Maze<R, C>,
                MazefileError,
            >(MazefileError::Malformed),
            lines_ok(text_lines(self.text()), R as int, C as int) && marked::<R, C>(
                text_lines(self.text()),
                GOAL_MARK,
                R * C,
            ).len() > MAX_GOALS ==> r == Err::<Maze<R, C>, MazefileError>(
                MazefileError::TooManyGoals,
            ),
            r is Ok <==> (lines_ok(text_lines(self.text()), R as int, C as int) && marked::<R, C>(
                text_lines(self.text()),
                GOAL_MARK,
                R * C,
            ).len() <= MAX_GOALS),
            r is Ok ==> r->Ok_0.wf(),
            r is Ok ==> forall|x: int, y: int|
                0 <= x < C && 0 <= y < R ==> #[trigger] r->Ok_0.bits_at(x, y) == drawn_bits(
                    text_lines(self.text()),
                    R as int,
                    x,
                    y,
                ),
            r is Ok ==> r->Ok_0.goals() == marked::<R, C>(text_lines(self.text()), GOAL_MARK, R * C),
            r is Ok ==> r->Ok_0.start() == drawn_start::<R, C>(text_lines(self.text())),
    {
        let lines = split_lines(&self.input);
        let ghost ls = text_lines(self.input@);
        assert(line_views(lines@) =~= ls);
        if !check_lines(&lines, R, C) {
            return Err(MazefileError::Malformed);
        }
        let cells = drawn_cells::<R, C>(&lines);
        let mut maze = Maze::<R, C>::from_cells(cells);
        let ghost walls = maze;
        let mut t: usize = 0;
        while t < R
            invariant
                0 < R <= MAX_MAZE_SIDE,
                0 < C <= MAX_MAZE_SIDE,
                R * C <= usize::MAX,
                t <= R,
                line_views(lines@) == ls,
                ls == text_lines(self.input@),
                lines_ok(ls, R as int, C as int),
                maze.wf(),
                forall|x: int, y: int| #[trigger] maze.bits_at(x, y) == walls.bits_at(x, y),
                maze.goals() == marked::<R, C>(ls, GOAL_MARK, t * C),
                maze.goals().len() <= MAX_GOALS,
                maze.start() == drawn_start_upto::<R, C>(ls, t * C),
            decreases R - t,
        {
            let row = R - 1 - t;
            let mut x: usize = 0;
            while x < C
                invariant
                    0 < R <= MAX_MAZE_SIDE,
                    0 < C <= MAX_MAZE_SIDE,
                    R * C <= usize::MAX,
                    t < R,
                    row == R - 1 - t,
                    x <= C,
                    line_views(lines@) == ls,
                    ls == text_lines(self.input@),
                    lines_ok(ls, R as int, C as int),
                    maze.wf(),
                    forall|x: int, y: int| #[trigger] maze.bits_at(x, y) == walls.bits_at(x, y),
                    maze.goals() == marked::<R, C>(ls, GOAL_MARK, t * C + x),
                    maze.goals().len() <= MAX_GOALS,
                    maze.start() == drawn_start_upto::<R, C>(ls, t * C + x),
                decreases C - x,
            {
                let ghost k = t * C + x;
                proof {
                    lemma_reading_order::<R, C>(t as int, x as int);
                    assert(lines@[2 * t + 1]@ == ls[2 * t + 1]);
                    assert(ls[2 * t + 1].len() >= 4 * C + 1);
                }
                let mark = lines[2 * t + 1][4 * x + 2];
                assert(mark == mark_at(ls, C as int, k));
                let cell = Cell::<R, C> { x, y: row };
                if mark == GOAL_MARK {
                    if maze.set_goal_cell(cell).is_err() {
                        proof {
                            assert(marked::<R, C>(ls, GOAL_MARK, k + 1) == marked::<R, C>(
                                ls,
                                GOAL_MARK,
                                k,
                            ).push(cell_in_order::<R, C>(k)));
                            lemma_marked_grows::<R, C>(ls, GOAL_MARK, k + 1, R * C);
                        }
                        return Err(MazefileError::TooManyGoals);
                    }
                } else if mark == START_MARK {
                    maze.set_start_cell(cell);
                }
                x = x + 1;
            }
            proof {
                assert((t + 1) * C == t * C + C) by (nonlinear_arith);
            }
            t = t + 1;
        }
        assert(R * C == t * C);
        assert forall|x: int, y: int| 0 <= x < C && 0 <= y < R implies #[trigger] maze.bits_at(
            x,
            y,
        ) == drawn_bits(ls, R as int, x, y) by {
            assert(walls.bits_at(x, y) == drawn_bits(ls, R as int, x, y));
        }
        Ok(maze)
    }
}

/// The start cell named by the first `n` cells in reading order.
pub open spec fn drawn_start_upto<const R: usize, const C: usize>(
    lines: Seq<Seq<u8>>,
    n: int,
) -> Cell<R, C> {
    let s = marked::<R, C>(lines, START_MARK, n);
    if s.len() > 0 {
        s.last()
    } else {
        Cell { x: 0, y: 0 }
    }
}

/// The `k`-th cell in reading order, for `k = t * C + x`, is column `x` of
/// the `t`-th row from the top.
proof fn lemma_reading_order<const R: usize, const C: usize>(t: int, x: int)
    requires
        0 <= t < R,
        0 <= x < C,
        R * C <= usize::MAX,
    ensures
        (t * C + x) / (C as int) == t,
        (t * C + x) % (C as int) == x,
        t * C + x < R * C,
        cell_in_order::<R, C>(t * C + x) == (Cell::<R, C> { x: x as usize, y: (R - 1 - t) as usize }),
{
    vstd::arithmetic::div_mod::lemma_fundamental_div_mod_converse(t * C + x, C as int, t, x);
    assert(t * C + x < R * C) by (nonlinear_arith)
        requires
            0 <= t < R,
            0 <= x < C,
    ;
}

/// The list of marked cells only grows as the reading goes on.
proof fn lemma_marked_grows<const R: usize, const C: usize>(
    lines: Seq<Seq<u8>>,
    mark: u8,
    n: int,
    m: int,
)
    requires
        0 <= n <= m,
    ensures
        marked::<R, C>(lines, mark, n).len() <= marked::<R, C>(lines, mark, m).len(),
    decreases m - n,
{
    if n < m {
        lemma_marked_grows::<R, C>(lines, mark, n, m - 1);
    }
}

/// Whether the lines can hold a maze of `rows` rows and `cols` columns.
fn check_lines(lines: &Vec<Vec<u8>>, rows: usize, cols: usize) -> (r: bool)
    requires
        rows <= MAX_MAZE_SIDE,
        cols <= MAX_MAZE_SIDE,
    ensures
        r == lines_ok(line_views(lines@), rows as int, cols as int),
{
    let n = 2 * rows + 1;
    if lines.len() < n {
        return false;
    }
    let mut k: usize = 0;
    while k < n
        invariant
            n == 2 * rows + 1,
            rows <= MAX_MAZE_SIDE,
            cols <= MAX_MAZE_SIDE,
            k <= n,
            lines@.len() >= n,
            forall|j: int|
                0 <= j < k ==> #[trigger] lines@[j]@.len() >= (if j % 2 == 0 {
                    4 * cols - 1
                } else {
                    4 * cols + 1
                }),
        decreases n - k,
    {
        let need: usize = if k % 2 == 0 {
            if cols == 0 {
                0
            } else {
                4 * cols - 1
            }
        } else {
            4 * cols + 1
        };
        if lines[k].len() < need {
            assert(line_views(lines@)[k as int].len() < (if k % 2 == 0 {
                4 * cols - 1
            } else {
                4 * cols + 1
            }));
            return false;
        }
        k = k + 1;
    }
    assert forall|j: int| 0 <= j < 2 * rows + 1 implies #[trigger] line_views(lines@)[j].len() >= (
    if j % 2 == 0 {
        4 * cols - 1
    } else {
        4 * cols + 1
    }) by {
        assert(line_views(lines@)[j] == lines@[j]@);
    }
    true
}

/// The flags of every cell as the lines draw them, cell (`x`, `y`) at
/// `x * R + y`.
fn drawn_cells<const R: usize, const C: usize>(lines: &Vec<Vec<u8>>) -> (r: Vec<CellState>)
    requires
        0 < R <= MAX_MAZE_SIDE,
        0 < C <= MAX_MAZE_SIDE,
        R * C <= usize::MAX,
        lines_ok(line_views(lines@), R as int, C as int),
    ensures
        r@.len() == R * C,
        forall|x: int, y: int|
            0 <= x < C && 0 <= y < R ==> #[trigger] r@[x * R + y]@ == drawn_bits(
                line_views(lines@),
                R as int,
                x,
                y,
            ),
        forall|x: int, y: int|
            0 <= x < C && 0 <= y && y + 1 < R ==> (has_flag(
                #[trigger] r@[x * R + y]@,
                NORTH_WALL,
            ) == has_flag(r@[x * R + y + 1]@, SOUTH_WALL)),
        forall|x: int, y: int|
            0 <= x && x + 1 < C && 0 <= y < R ==> (has_flag(
                #[trigger] r@[x * R + y]@,
                EAST_WALL,
            ) == has_flag(r@[(x + 1) * R + y]@, WEST_WALL)),
{
    let ghost ls = line_views(lines@);
    let mut cells: Vec<CellState> = Vec::new();
    let mut x: usize = 0;
    while x < C
        invariant
            0 < R <= MAX_MAZE_SIDE,
            0 < C <= MAX_MAZE_SIDE,
            R * C <= usize::MAX,
            ls == line_views(lines@),
            lines_ok(ls, R as int, C as int),
            x <= C,
            cells@.len() == x * R,
            forall|i: int, j: int|
                0 <= i < x && 0 <= j < R ==> #[trigger] cells@[i * R + j]@ == drawn_bits(
                    ls,
                    R as int,
                    i,
                    j,
                ),
        decreases C - x,
    {
        let mut y: usize = 0;
        while y < R
            invariant
                0 < R <= MAX_MAZE_SIDE,
                0 < C <= MAX_MAZE_SIDE,
                R * C <= usize::MAX,
                ls == line_views(lines@),
                lines_ok(ls, R as int, C as int),
                x < C,
                y <= R,
                cells@.len() == x * R + y,
                forall|i: int, j: int|
                    0 <= i < x && 0 <= j < R ==> #[trigger] cells@[i * R + j]@ == drawn_bits(
                        ls,
                        R as int,
                        i,
                        j,
                    ),
                forall|j: int|
                    0 <= j < y ==> #[trigger] cells@[x * R + j]@ == drawn_bits(
                        ls,
                        R as int,
                        x as int,
                        j,
                    ),
            decreases R - y,
        {
            let s = drawn_cell(lines, R, x, y);
            let ghost before = cells@;
            proof {
                lemma_cell_index::<R, C>(x as int, y as int, 0, 0);
            }
            cells.push(s);
            proof {
                assert forall|i: int, j: int| 0 <= i < x && 0 <= j < R implies #[trigger] cells@[i
                    * R + j]@ == drawn_bits(ls, R as int, i, j) by {
                    lemma_row_before::<R>(i, j, x as int);
                    assert(cells@[i * R + j] == before[i * R + j]);
                }
                assert forall|j: int| 0 <= j < y + 1 implies #[trigger] cells@[x * R + j]@
                    == drawn_bits(ls, R as int, x as int, j) by {
                    if j < y {
                        assert(cells@[x * R + j] == before[x * R + j]);
                    }
                }
            }
            y = y + 1;
        }
        proof {
            assert((x + 1) * R == x * R + R) by (nonlinear_arith);
            assert forall|i: int, j: int| 0 <= i < x + 1 && 0 <= j < R implies #[trigger] cells@[i
                * R + j]@ == drawn_bits(ls, R as int, i, j) by {
                if i == x {
                    assert(cells@[x * R + j]@ == drawn_bits(ls, R as int, x as int, j));
                }
            }
        }
        x = x + 1;
    }
    proof {
        assert(x * R == R * C) by (nonlinear_arith)
            requires
                x == C,
        ;
        assert forall|i: int, j: int| 0 <= i < C && 0 <= j && j + 1 < R implies (has_flag(
            #[trigger] cells@[i * R + j]@,
            NORTH_WALL,
        ) == has_flag(cells@[i * R + j + 1]@, SOUTH_WALL)) by {
            assert(i * R + j + 1 == i * R + (j + 1));
            lemma_drawn_flags(ls, R as int, i, j);
            lemma_drawn_flags(ls, R as int, i, j + 1);
        }
        assert forall|i: int, j: int| 0 <= i && i + 1 < C && 0 <= j < R implies (has_flag(
            #[trigger] cells@[i * R + j]@,
            EAST_WALL,
        ) == has_flag(cells@[(i + 1) * R + j]@, WEST_WALL)) by {
            lemma_drawn_flags(ls, R as int, i, j);
            lemma_drawn_flags(ls, R as int, i + 1, j);
            assert(4 * (i + 1) == 4 * i + 4);
        }
    }
    cells
}

/// A cell of an earlier column comes before the current column.
proof fn lemma_row_before<const R: usize>(i: int, j: int, x: int)
    requires
        0 <= i < x,
        0 <= j < R,
    ensures
        i * R + j < x * R,
{
    assert(i * R + j < x * R) by (nonlinear_arith)
        requires
            0 <= i < x,
            0 <= j < R,
    ;
}

/// Each wall flag of a drawn cell is the mark at its place in the lines.
proof fn lemma_drawn_flags(lines: Seq<Seq<u8>>, rows: int, x: int, y: int)
    ensures
        ({
            let b = drawn_bits(lines, rows, x, y);
            let t = rows - 1 - y;
            &&& has_flag(b, NORTH_WALL) == (byte_at(lines, 2 * t, 4 * x + 2) == HORIZONTAL_WALL)
            &&& has_flag(b, EAST_WALL) == (byte_at(lines, 2 * t + 1, 4 * x + 4) == VERTICAL_WALL)
            &&& has_flag(b, SOUTH_WALL) == (byte_at(lines, 2 * t + 2, 4 * x + 2)
                == HORIZONTAL_WALL)
            &&& has_flag(b, WEST_WALL) == (byte_at(lines, 2 * t + 1, 4 * x) == VERTICAL_WALL)
        }),
{
    let t = rows - 1 - y;
    let n = flag_if(byte_at(lines, 2 * t, 4 * x + 2) == HORIZONTAL_WALL, NORTH_WALL);
    let e = flag_if(byte_at(lines, 2 * t + 1, 4 * x + 4) == VERTICAL_WALL, EAST_WALL);
    let s = flag_if(byte_at(lines, 2 * t + 2, 4 * x + 2) == HORIZONTAL_WALL, SOUTH_WALL);
    let w = flag_if(byte_at(lines, 2 * t + 1, 4 * x) == VERTICAL_WALL, WEST_WALL);
    assert(((n | e | s | w) & 1 == 1) == (n == 1) && ((n | e | s | w) & 2 == 2) == (e == 2) && ((n
        | e | s | w) & 4 == 4) == (s == 4) && ((n | e | s | w) & 8 == 8) == (w == 8))
        by (bit_vector)
        requires
            n == 0 || n == 1,
            e == 0 || e == 2,
            s == 0 || s == 4,
            w == 0 || w == 8,
    ;
}

/// The flags of cell (`x`, `y`) as the lines draw them.
fn drawn_cell(lines: &Vec<Vec<u8>>, rows: usize, x: usize, y: usize) -> (r: CellState)
    requires
        0 < rows <= MAX_MAZE_SIDE,
        x < MAX_MAZE_SIDE,
        y < rows,
        lines_ok(line_views(lines@), rows as int, x + 1),
    ensures
        r@ == drawn_bits(line_views(lines@), rows as int, x as int, y as int),
{
    let ghost ls = line_views(lines@);
    let t = rows - 1 - y;
    assert(ls[2 * t as int] == lines@[2 * t as int]@);
    assert(ls[2 * t + 1] == lines@[2 * t + 1]@);
    assert(ls[2 * t + 2] == lines@[2 * t + 2]@);
    assert(lines@[2 * t as int]@.len() >= 4 * (x + 1) - 1);
    assert(lines@[2 * t + 1]@.len() >= 4 * (x + 1) + 1);
    assert(lines@[2 * t + 2]@.len() >= 4 * (x + 1) - 1);
    let n = if lines[2 * t][4 * x + 2] == HORIZONTAL_WALL {
        NORTH_WALL
    } else {
        0
    };
    let e = if lines[2 * t + 1][4 * x + 4] == VERTICAL_WALL {
        EAST_WALL
    } else {
        0
    };
    let s = if lines[2 * t + 2][4 * x + 2] == HORIZONTAL_WALL {
        SOUTH_WALL
    } else {
        0
    };
    let w = if lines[2 * t + 1][4 * x] == VERTICAL_WALL {
        WEST_WALL
    } else {
        0
    };
    CellState::from_bits_retain(n | e | s | w)
}

/// The lines of the text `s`.
fn split_lines(s: &Vec<u8>) -> (r: Vec<Vec<u8>>)
    ensures
        line_views(r@) == text_lines(s@),
{
    let mut lines: Vec<Vec<u8>> = Vec::new();
    let mut start: usize = 0;
    let mut i: usize = 0;
    while i < s.len()
        invariant
            start <= i <= s@.len(),
            line_views(lines@) + lines_from(s@, start as int, i as int) == text_lines(s@),
        decreases s@.len() - i,
    {
        if s[i] == NEWLINE {
            let line = copy_line(s, start, i);
            let ghost before = lines@;
            lines.push(line);
            proof {
                assert(line_views(lines@) =~= line_views(before).push(line@));
                assert(line_views(before) + lines_from(s@, start as int, i as int) =~= line_views(
                    lines@,
                ) + lines_from(s@, i + 1, i + 1));
            }
            start = i + 1;
        }
        i = i + 1;
    }
    if start < s.len() {
        let mut line: Vec<u8> = Vec::new();
        let mut k: usize = start;
        while k < s.len()
            invariant
                start <= k <= s@.len(),
                line@ == s@.subrange(start as int, k as int),
            decreases s@.len() - k,
        {
            line.push(s[k]);
            proof {
                assert(line@ =~= s@.subrange(start as int, k + 1));
            }
            k = k + 1;
        }
        let ghost before = lines@;
        lines.push(line);
        assert(line_views(lines@) =~= line_views(before).push(line@));
        assert(line_views(before) + lines_from(s@, start as int, i as int) =~= line_views(lines@));
    } else {
        assert(line_views(lines@) + lines_from(s@, start as int, i as int) =~= line_views(lines@));
    }
    lines
}

/// The bytes of `s` from `start` to `end`, without a carriage return that
/// ends them.
fn copy_line(s: &Vec<u8>, start: usize, end: usize) -> (r: Vec<u8>)
    requires
        start <= end <= s@.len(),
    ensures
        r@ == strip_cr(s@.subrange(start as int, end as int)),
{
    let mut line: Vec<u8> = Vec::new();
    let mut k: usize = start;
    while k < end
        invariant
            start <= k <= end <= s@.len(),
            line@ == s@.subrange(start as int, k as int),
        decreases end - k,
    {
        line.push(s[k]);
        proof {
            assert(line@ =~= s@.subrange(start as int, k + 1));
        }
        k = k + 1;
    }
    if end > start && s[end - 1] == CARRIAGE_RETURN {
        line.pop();
        assert(line@ =~= s@.subrange(start as int, end as int).drop_last());
    }
    line
}

} // verus!
