//! The runner's logical state machine: the cell it occupies and the
//! cardinal direction it faces, moved and turned against the maze's walls.

use vstd::prelude::*;

use crate::maze::{
    has_flag, Cell, CellState, Maze, EAST_WALL, NORTH_WALL, SOUTH_WALL, WEST_WALL,
};
use crate::position::{Angle, Position};
use crate::simulator::{CELL_SIZE_UM, MAX_MAZE_SIDE};

verus! {

/// The cardinal direction the runner faces.
#[derive(Clone, Copy, Debug, PartialEq, Eq, Structural)]
pub enum MazeOrientation {
    North,
    East,
    South,
    West,
}

/// A wall sensor, relative to the runner's orientation.
#[derive(Clone, Copy, Debug, PartialEq, Eq, Structural)]
pub enum SensorDirection {
    Front,
    Left,
    Right,
}

/// A quarter turn.
#[derive(Clone, Copy, Debug, PartialEq, Eq, Structural)]
pub enum RotationDirection {
    Left,
    Right,
}

/// What the runner refuses to do.
#[derive(Clone, Copy, Debug, PartialEq, Eq, Structural)]
pub enum RunnerError {
    /// Every edge of the start cell is walled.
    StartBlocked,
    /// A wall stands in front of the runner.
    WallAhead,
    /// The runner faces the border of the maze.
    MazeEdge,
}

/// The wall flag of the edge that faces `o`.
pub open spec fn wall_flag_of(o: MazeOrientation) -> u8 {
    match o {
        MazeOrientation::North => NORTH_WALL,
        MazeOrientation::East => EAST_WALL,
        MazeOrientation::South => SOUTH_WALL,
        MazeOrientation::West => WEST_WALL,
    }
}

/// The orientation after a quarter turn towards `d`.
pub open spec fn rotated(o: MazeOrientation, d: RotationDirection) -> MazeOrientation {
    match d {
        RotationDirection::Left => match o {
            MazeOrientation::East => MazeOrientation::North,
            MazeOrientation::North => MazeOrientation::West,
            MazeOrientation::West => MazeOrientation::South,
            MazeOrientation::South => MazeOrientation::East,
        },
        RotationDirection::Right => match o {
            MazeOrientation::East => MazeOrientation::South,
            MazeOrientation::North => MazeOrientation::East,
            MazeOrientation::West => MazeOrientation::North,
            MazeOrientation::South => MazeOrientation::West,
        },
    }
}

/// The absolute direction of the sensor `d` for a runner facing `o`.
pub open spec fn sensed_orientation(o: MazeOrientation, d: SensorDirection) -> MazeOrientation {
    match d {
        SensorDirection::Front => o,
        SensorDirection::Left => rotated(o, RotationDirection::Left),
        SensorDirection::Right => rotated(o, RotationDirection::Right),
    }
}

/// The first open edge of a cell with flags `bits`, checked in the order
/// north, east, south, west.
pub open spec fn first_open_edge(bits: u8) -> Option<MazeOrientation> {
    if !has_flag(bits, NORTH_WALL) {
        Some(MazeOrientation::North)
    } else if !has_flag(bits, EAST_WALL) {
        Some(MazeOrientation::East)
    } else if !has_flag(bits, SOUTH_WALL) {
        Some(MazeOrientation::South)
    } else if !has_flag(bits, WEST_WALL) {
        Some(MazeOrientation::West)
    } else {
        None
    }
}

/// The coordinates one cell away from (`x`, `y`) towards `o`.
pub open spec fn step_towards(x: int, y: int, o: MazeOrientation) -> (int, int) {
    match o {
        MazeOrientation::North => (x, y + 1),
        MazeOrientation::East => (x + 1, y),
        MazeOrientation::South => (x, y - 1),
        MazeOrientation::West => (x - 1, y),
    }
}

/// The coordinate, in micrometers, of the centre of the cell of index `i`.
pub open spec fn cell_center(i: int) -> int {
    i * CELL_SIZE_UM + CELL_SIZE_UM / 2
}

/// The heading, in microdegrees, of a runner facing `o`.
pub open spec fn heading_of(o: MazeOrientation) -> int {
    match o {
        MazeOrientation::North => 90_000_000,
        MazeOrientation::East => 0,
        MazeOrientation::South => -90_000_000,
        MazeOrientation::West => 180_000_000,
    }
}

/// The runner's logical state: the cell it occupies and the direction it faces.
#[derive(Clone, Copy, Debug)]
pub struct MazerRunner<const R: usize, const C: usize> {
    cell: Cell<R, C>,
    orientation: MazeOrientation,
}

impl<const R: usize, const C: usize> MazerRunner<R, C> {
    /// The cell the runner occupies.
    pub closed spec fn at(&self) -> Cell<R, C> {
        self.cell
    }

    /// The direction the runner faces.
    pub closed spec fn facing(&self) -> MazeOrientation {
        self.orientation
    }

    /// Whether a runner can start in `maze`: its start cell has an open edge.
    pub open spec fn new_ok(maze: &Maze<R, C>) -> bool {
        first_open_edge(maze.bits_at(maze.start().x as int, maze.start().y as int)) is Some
    }

    /// Whether `runner` is the runner that starts in `maze`: on the start
    /// cell, facing its first open edge.
    pub open spec fn starts(maze: &Maze<R, C>, runner: Self) -> bool {
        runner.at() == maze.start() && Some(runner.facing()) == first_open_edge(
            maze.bits_at(maze.start().x as int, maze.start().y as int),
        )
    }

    /// Whether the runner wall in `d` is set in `maze`.
    pub open spec fn sees_wall(&self, maze: &Maze<R, C>, d: SensorDirection) -> bool {
        has_flag(
            maze.bits_at(self.at().x as int, self.at().y as int),
            wall_flag_of(sensed_orientation(self.facing(), d)),
        )
    }

    /// A runner on the start cell of `maze`, facing its first open edge;
    /// fails when every edge of the start cell is walled.
    pub fn new(maze: &Maze<R, C>) -> (r: Result<Self, RunnerError>)
        requires
            maze.inv(),
        ensures
            r is Ok <==> Self::new_ok(maze),
            r is Ok ==> Self::starts(maze, r->Ok_0),
            r is Ok ==> r->Ok_0.at().wf(),
            r is Err ==> r->Err_0 == RunnerError::StartBlocked,
    {
        let start_cell = maze.get_start_cell();
        let start_cell_state = maze.get_cell_state(start_cell);

        let orientation = if !start_cell_state.contains(CellState::north_wall()) {
            MazeOrientation::North
        } else if !start_cell_state.contains(CellState::east_wall()) {
            MazeOrientation::East
        } else if !start_cell_state.contains(CellState::south_wall()) {
            MazeOrientation::South
        } else if !start_cell_state.contains(CellState::west_wall()) {
            MazeOrientation::West
        } else {
            return Err(RunnerError::StartBlocked);
        };

        Ok(MazerRunner { cell: start_cell, orientation })
    }

    /// The cell the runner occupies.
    pub fn cell(&self) -> (r: Cell<R, C>)
        ensures
            r == self.at(),
    {
        self.cell
    }

    /// The direction the runner faces.
    pub fn orientation(&self) -> (r: MazeOrientation)
        ensures
            r == self.facing(),
    {
        self.orientation
    }

    /// The pose of the runner: the centre of its cell, heading the way it faces.
    pub fn get_real_position(&self) -> (r: Position)
        requires
            self.at().wf(),
            R <= MAX_MAZE_SIDE,
            C <= MAX_MAZE_SIDE,
        ensures
            r.x == cell_center(self.at().x as int),
            r.y == cell_center(self.at().y as int),
            r.theta@ == heading_of(self.facing()),
            r.wf(),
    {
        let x = self.cell.x as i64 * CELL_SIZE_UM + CELL_SIZE_UM / 2;
        let y = self.cell.y as i64 * CELL_SIZE_UM + CELL_SIZE_UM / 2;
        let theta = match self.orientation {
            MazeOrientation::North => Angle::degrees(90),
            MazeOrientation::East => Angle::degrees(0),
            MazeOrientation::South => Angle::degrees(-90),
            MazeOrientation::West => Angle::degrees(180),
        };
        proof {
            crate::position::lemma_normalized(heading_of(self.orientation));
        }
        Position::new(x, y, theta)
    }

    /// Whether the wall on the side `direction` of the runner is set in `maze`.
    pub fn is_wall_detected(&self, maze: &Maze<R, C>, direction: SensorDirection) -> (r: bool)
        requires
            maze.inv(),
            self.at().wf(),
        ensures
            r == self.sees_wall(maze, direction),
    {
        let cell_state = maze.get_cell_state(self.cell);
        let flag = match direction {
            SensorDirection::Front => match self.orientation {
                MazeOrientation::East => CellState::east_wall(),
                MazeOrientation::North => CellState::north_wall(),
                MazeOrientation::West => CellState::west_wall(),
                MazeOrientation::South => CellState::south_wall(),
            },
            SensorDirection::Left => match self.orientation {
                MazeOrientation::East => CellState::north_wall(),
                MazeOrientation::North => CellState::west_wall(),
                MazeOrientation::West => CellState::south_wall(),
                MazeOrientation::South => CellState::east_wall(),
            },
            SensorDirection::Right => match self.orientation {
                MazeOrientation::East => CellState::south_wall(),
                MazeOrientation::North => CellState::east_wall(),
                MazeOrientation::West => CellState::north_wall(),
                MazeOrientation::South => CellState::west_wall(),
            },
        };
        cell_state.contains(flag)
    }

    /// Moves one cell forward; fails, with nothing changed, when a wall or the
    /// border of the maze is in front.
    pub fn move_forward(&mut self, maze: &Maze<R, C>) -> (r: Result<(), RunnerError>)
        requires
            maze.inv(),
            old(self).at().wf(),
        ensures
            final(self).at().wf(),
            final(self).facing() == old(self).facing(),
            old(self).sees_wall(maze, SensorDirection::Front) ==> r == Err::<(), RunnerError>(
                RunnerError::WallAhead,
            ),
            ({
                let (nx, ny) = step_towards(
                    old(self).at().x as int,
                    old(self).at().y as int,
                    old(self).facing(),
                );
                &&& !old(self).sees_wall(maze, SensorDirection::Front) && (nx < 0 || nx >= C
                    || ny < 0 || ny >= R) ==> r == Err::<(), RunnerError>(RunnerError::MazeEdge)
                &&& r is Ok <==> (!old(self).sees_wall(maze, SensorDirection::Front) && 0 <= nx
                    < C && 0 <= ny < R)
                &&& r is Ok ==> final(self).at().x == nx && final(self).at().y == ny
            }),
            r is Err ==> *final(self) == *old(self),
    {
        if self.is_wall_detected(maze, SensorDirection::Front) {
            return Err(RunnerError::WallAhead);
        }
        match self.orientation {
            MazeOrientation::North => {
                if self.cell.y + 1 >= R {
                    return Err(RunnerError::MazeEdge);
                }
                self.cell.y = self.cell.y + 1;
            },
            MazeOrientation::East => {
                if self.cell.x + 1 >= C {
                    return Err(RunnerError::MazeEdge);
                }
                self.cell.x = self.cell.x + 1;
            },
            MazeOrientation::South => {
                if self.cell.y == 0 {
                    return Err(RunnerError::MazeEdge);
                }
                self.cell.y = self.cell.y - 1;
            },
            MazeOrientation::West => {
                if self.cell.x == 0 {
                    return Err(RunnerError::MazeEdge);
                }
                self.cell.x = self.cell.x - 1;
            },
        }
        Ok(())
    }

    /// Turns a quarter turn towards `direction`, staying on the same cell.
    pub fn rotate(&mut self, direction: RotationDirection)
        ensures
            final(self).at() == old(self).at(),
            final(self).facing() == rotated(old(self).facing(), direction),
    {
        self.orientation = match direction {
            RotationDirection::Left => match self.orientation {
                MazeOrientation::East => MazeOrientation::North,
                MazeOrientation::North => MazeOrientation::West,
                MazeOrientation::West => MazeOrientation::South,
                MazeOrientation::South => MazeOrientation::East,
            },
            RotationDirection::Right => match self.orientation {
                MazeOrientation::East => MazeOrientation::South,
                MazeOrientation::North => MazeOrientation::East,
                MazeOrientation::West => MazeOrientation::North,
                MazeOrientation::South => MazeOrientation::West,
            },
        };
    }
}

/// Four quarter turns the same way bring the runner back to where it faced.
pub proof fn lemma_four_rotations(o: MazeOrientation, d: RotationDirection)
    ensures
        rotated(rotated(rotated(rotated(o, d), d), d), d) == o,
{
}

/// A start cell with exactly one open edge makes the runner face that edge,
/// and a start cell walled on all four edges admits no runner.
pub proof fn lemma_start_orientation(bits: u8, o: MazeOrientation)
    ensures
        (forall|p: MazeOrientation| #[trigger] has_flag(bits, wall_flag_of(p)) == (p != o))
            ==> first_open_edge(bits) == Some(o),
        (forall|p: MazeOrientation| #[trigger] has_flag(bits, wall_flag_of(p)))
            ==> first_open_edge(bits) is None,
{
    if forall|p: MazeOrientation| #[trigger] has_flag(bits, wall_flag_of(p)) == (p != o) {
        assert(has_flag(bits, wall_flag_of(MazeOrientation::North)) == (MazeOrientation::North != o));
        assert(has_flag(bits, wall_flag_of(MazeOrientation::East)) == (MazeOrientation::East != o));
        assert(has_flag(bits, wall_flag_of(MazeOrientation::South)) == (MazeOrientation::South != o));
        assert(has_flag(bits, wall_flag_of(MazeOrientation::West)) == (MazeOrientation::West != o));
    }
    if forall|p: MazeOrientation| #[trigger] has_flag(bits, wall_flag_of(p)) {
        assert(has_flag(bits, wall_flag_of(MazeOrientation::North)));
        assert(has_flag(bits, wall_flag_of(MazeOrientation::East)));
        assert(has_flag(bits, wall_flag_of(MazeOrientation::South)));
        assert(has_flag(bits, wall_flag_of(MazeOrientation::West)));
    }
}

} // verus!
