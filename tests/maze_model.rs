use micromouse_sim::maze::{Cell, CellState, Goal, Maze, MazeError};

#[test]
fn cell_new_accepts_cells_inside_the_maze() {
    for x in 0..4 {
        for y in 0..3 {
            let c = Cell::<3, 4>::new(x, y).unwrap();
            assert_eq!((c.x, c.y), (x, y));
        }
    }
}

#[test]
fn cell_new_rejects_cells_outside_the_maze() {
    assert_eq!(Cell::<3, 4>::new(4, 0), Err(MazeError::OutOfBounds));
    assert_eq!(Cell::<3, 4>::new(0, 3), Err(MazeError::OutOfBounds));
    assert_eq!(Cell::<3, 4>::new(usize::MAX, usize::MAX), Err(MazeError::OutOfBounds));
}

#[test]
fn fifth_goal_fails_and_first_four_are_targets() {
    let mut g = Goal::<4, 4>::new();
    let cells: Vec<Cell<4, 4>> = (0..4).map(|i| Cell::new(i, 3 - i).unwrap()).collect();
    for c in &cells {
        assert!(g.set(*c).is_ok());
    }
    assert_eq!(g.set(Cell::new(1, 1).unwrap()), Err(MazeError::GoalsFull));
    for c in &cells {
        assert!(g.is_target(*c));
    }
    assert!(!g.is_target(Cell::new(1, 1).unwrap()));
    assert!(!g.is_target(Cell::new(0, 0).unwrap()));
}

#[test]
fn maze_goal_cells() {
    let mut m = Maze::<2, 2>::new();
    let c = Cell::new(1, 1).unwrap();
    assert!(!m.is_goal_cell(c));
    m.set_goal_cell(c).unwrap();
    assert!(m.is_goal_cell(c));
}

#[test]
fn start_cell_defaults_to_origin_and_can_be_moved() {
    let mut m = Maze::<3, 3>::new();
    let s = m.get_start_cell();
    assert_eq!((s.x, s.y), (0, 0));
    m.set_start_cell(Cell::new(2, 1).unwrap());
    let s = m.get_start_cell();
    assert_eq!((s.x, s.y), (2, 1));
}

#[test]
fn wall_is_mirrored_on_every_neighbour() {
    let mut m = Maze::<3, 3>::new();
    let centre = Cell::new(1, 1).unwrap();
    let walls = CellState::from_bits_retain(0b1111);
    m.update_cell_state(centre, walls, true);
    assert_eq!(m.get_cell_state(centre).bits(), 0b1111);
    assert!(m.get_cell_state(Cell::new(1, 2).unwrap()).contains(CellState::south_wall()));
    assert!(m.get_cell_state(Cell::new(1, 0).unwrap()).contains(CellState::north_wall()));
    assert!(m.get_cell_state(Cell::new(2, 1).unwrap()).contains(CellState::west_wall()));
    assert!(m.get_cell_state(Cell::new(0, 1).unwrap()).contains(CellState::east_wall()));
    assert_eq!(m.get_cell_state(Cell::new(0, 0).unwrap()).bits(), 0);
    assert_eq!(m.get_cell_state(Cell::new(2, 2).unwrap()).bits(), 0);
    assert_eq!(m.get_cell_state(Cell::new(1, 2).unwrap()).bits(), CellState::south_wall().bits());

    m.update_cell_state(centre, CellState::north_wall(), false);
    assert!(!m.get_cell_state(centre).contains(CellState::north_wall()));
    assert!(m.get_cell_state(centre).contains(CellState::east_wall()));
    assert_eq!(m.get_cell_state(Cell::new(1, 2).unwrap()).bits(), 0);
    assert!(m.get_cell_state(Cell::new(2, 1).unwrap()).contains(CellState::west_wall()));
}

#[test]
fn wall_from_the_neighbour_side_mirrors_back() {
    let mut m = Maze::<2, 2>::new();
    m.update_cell_state(Cell::new(0, 1).unwrap(), CellState::south_wall(), true);
    assert!(m.get_cell_state(Cell::new(0, 0).unwrap()).contains(CellState::north_wall()));
    m.update_cell_state(Cell::new(0, 0).unwrap(), CellState::north_wall(), false);
    assert!(!m.get_cell_state(Cell::new(0, 1).unwrap()).contains(CellState::south_wall()));
}

#[test]
fn border_walls_touch_only_the_cell() {
    let mut m = Maze::<2, 2>::new();
    let corner = Cell::new(0, 0).unwrap();
    m.update_cell_state(corner, CellState::from_bits_retain(0b1100), true);
    assert_eq!(m.get_cell_state(corner).bits(), 0b1100);
    for (x, y) in [(0, 1), (1, 0), (1, 1)] {
        assert_eq!(m.get_cell_state(Cell::new(x, y).unwrap()).bits(), 0);
    }
    let top = Cell::new(1, 1).unwrap();
    m.update_cell_state(top, CellState::from_bits_retain(0b0011), true);
    assert_eq!(m.get_cell_state(top).bits(), 0b0011);
    assert_eq!(m.get_cell_state(Cell::new(0, 1).unwrap()).bits(), 0);
    assert_eq!(m.get_cell_state(Cell::new(1, 0).unwrap()).bits(), 0);
}

#[test]
fn visited_flag_is_not_mirrored() {
    let mut m = Maze::<2, 2>::new();
    m.update_cell_state(Cell::new(0, 0).unwrap(), CellState::visited(), true);
    assert!(m.get_cell_state(Cell::new(0, 0).unwrap()).contains(CellState::visited()));
    assert_eq!(m.get_cell_state(Cell::new(0, 1).unwrap()).bits(), 0);
    assert_eq!(m.get_cell_state(Cell::new(1, 0).unwrap()).bits(), 0);
}

#[test]
fn cell_state_set_and_contains() {
    let mut s = CellState::empty();
    s.set(CellState::all(), true);
    assert_eq!(s.bits(), 0b1_1111);
    s.set(CellState::east_wall(), false);
    assert!(!s.contains(CellState::east_wall()));
    assert!(s.contains(CellState::from_bits_retain(0b1_0101)));
}
