//! The runner's own annotations on the maze, apart from the real walls.

use vstd::prelude::*;

use crate::maze::{lemma_cell_index, updated_bits, Cell, CellState, Maze, ALL_CELL_FLAGS};

verus! {

/// The runner's own notes on the maze: wall and visited flags and an optional
/// value per cell, kept apart from the real walls.
pub struct RunnerContext<const R: usize, const C: usize> {
    maze: Maze<R, C>,
    values: Vec<Option<i32>>,
}

impl<const R: usize, const C: usize> RunnerContext<R, C> {
    /// The noted flags.
    pub closed spec fn notes(&self) -> Maze<R, C> {
        self.maze
    }

    /// The noted value of cell (`x`, `y`).
    pub closed spec fn value_at(&self, x: int, y: int) -> Option<i32> {
        self.values@[x * R + y]
    }

    /// The notes hold one value per cell and well-formed flags.
    pub closed spec fn inv(&self) -> bool {
        &&& 0 < R
        &&& 0 < C
        &&& R * C <= usize::MAX
        &&& self.maze.wf()
        &&& self.values@.len() == R * C
    }

    /// No note on any cell.
    pub fn new() -> (r: Self)
        requires
            0 < R,
            0 < C,
            R * C <= usize::MAX,
        ensures
            r.inv(),
            forall|x: int, y: int|
                0 <= x < C && 0 <= y < R ==> #[trigger] r.notes().bits_at(x, y) == 0,
            forall|x: int, y: int|
                0 <= x < C && 0 <= y < R ==> (#[trigger] r.value_at(x, y) is None),
    {
        let n: usize = R * C;
        let mut values: Vec<Option<i32>> = Vec::new();
        while values.len() < n
            invariant
                values@.len() <= n,
                forall|i: int| 0 <= i < values@.len() ==> #[trigger] values@[i] is None,
            decreases n - values@.len(),
        {
            values.push(None);
        }
        let r = RunnerContext { maze: Maze::new(), values };
        assert forall|x: int, y: int| 0 <= x < C && 0 <= y < R implies (#[trigger] r.value_at(
            x,
            y,
        ) is None) by {
            lemma_cell_index::<R, C>(x, y, x, y);
            assert(r.values@[x * R + y] is None);
        }
        r
    }

    /// Forgets the value of `cell` and clears all its flags, with the walls
    /// mirrored onto its neighbours.
    pub fn clear_cell(&mut self, cell: Cell<R, C>)
        requires
            old(self).inv(),
            cell.wf(),
        ensures
            final(self).inv(),
            forall|x: int, y: int|
                0 <= x < C && 0 <= y < R ==> #[trigger] final(self).notes().bits_at(x, y)
                    == updated_bits(&old(self).notes(), cell, ALL_CELL_FLAGS, false, x, y),
            forall|x: int, y: int|
                0 <= x < C && 0 <= y < R ==> #[trigger] final(self).value_at(x, y) == (if x
                    == cell.x && y == cell.y {
                    None
                } else {
                    old(self).value_at(x, y)
                }),
    {
        self.set_value(cell, None);
        let ghost between = *self;
        self.maze.update_cell_state(cell, CellState::all(), false);
        assert(forall|x: int, y: int| #[trigger] self.value_at(x, y) == between.value_at(x, y));
    }

    /// Raises the flags `cell_state` on `cell`, with the walls mirrored onto
    /// its neighbours.
    pub fn set_cell_state(&mut self, cell: Cell<R, C>, cell_state: CellState)
        requires
            old(self).inv(),
            cell.wf(),
        ensures
            final(self).inv(),
            forall|x: int, y: int|
                0 <= x < C && 0 <= y < R ==> #[trigger] final(self).notes().bits_at(x, y)
                    == updated_bits(&old(self).notes(), cell, cell_state@, true, x, y),
            forall|x: int, y: int| #[trigger]
                final(self).value_at(x, y) == old(self).value_at(x, y),
    {
        self.maze.update_cell_state(cell, cell_state, true);
    }

    /// Notes `value` on `cell`.
    pub fn set_cell_value(&mut self, cell: Cell<R, C>, value: i32)
        requires
            old(self).inv(),
            cell.wf(),
        ensures
            final(self).inv(),
            final(self).notes() == old(self).notes(),
            forall|x: int, y: int|
                0 <= x < C && 0 <= y < R ==> #[trigger] final(self).value_at(x, y) == (if x
                    == cell.x && y == cell.y {
                    Some(value)
                } else {
                    old(self).value_at(x, y)
                }),
    {
        self.set_value(cell, Some(value));
    }

    /// The noted value of `cell`.
    pub fn get_cell_value(&self, cell: Cell<R, C>) -> (r: Option<i32>)
        requires
            self.inv(),
            cell.wf(),
        ensures
            r == self.value_at(cell.x as int, cell.y as int),
    {
        proof {
            lemma_cell_index::<R, C>(cell.x as int, cell.y as int, 0, 0);
        }
        self.values[cell.x * R + cell.y]
    }

    /// The noted flags of `cell`.
    pub fn get_cell_state(&self, cell: Cell<R, C>) -> (r: CellState)
        requires
            self.inv(),
            cell.wf(),
        ensures
            r@ == self.notes().bits_at(cell.x as int, cell.y as int),
    {
        self.maze.get_cell_state(cell)
    }

    fn set_value(&mut self, cell: Cell<R, C>, value: Option<i32>)
        requires
            old(self).inv(),
            cell.wf(),
        ensures
            final(self).inv(),
            final(self).notes() == old(self).notes(),
            forall|x: int, y: int|
                0 <= x < C && 0 <= y < R ==> #[trigger] final(self).value_at(x, y) == (if x
                    == cell.x && y == cell.y {
                    value
                } else {
                    old(self).value_at(x, y)
                }),
    {
        proof {
            lemma_cell_index::<R, C>(cell.x as int, cell.y as int, 0, 0);
        }
        let i = cell.x * R + cell.y;
        self.values.set(i, value);
        proof {
            assert forall|x: int, y: int| 0 <= x < C && 0 <= y < R implies #[trigger] self.value_at(
                x,
                y,
            ) == (if x == cell.x && y == cell.y {
                value
            } else {
                old(self).value_at(x, y)
            }) by {
                lemma_cell_index::<R, C>(x, y, cell.x as int, cell.y as int);
            }
        }
    }
}

} // verus!
