use micromouse_sim::maze::{Cell, CellState, Maze};
use micromouse_sim::runner::{
    MazeOrientation, MazerRunner, RotationDirection, RunnerError, SensorDirection,
};

fn walled(bits: u8) -> Maze<3, 3> {
    let mut m = Maze::<3, 3>::new();
    m.set_start_cell(Cell::new(1, 1).unwrap());
    m.update_cell_state(Cell::new(1, 1).unwrap(), CellState::from_bits_retain(bits), true);
    m
}

#[test]
fn start_with_one_open_edge_faces_it() {
    let cases = [
        (0b1110, MazeOrientation::North),
        (0b1101, MazeOrientation::East),
        (0b1011, MazeOrientation::South),
        (0b0111, MazeOrientation::West),
    ];
    for (bits, o) in cases {
        let r = MazerRunner::new(&walled(bits)).unwrap();
        assert_eq!(r.orientation(), o);
        assert_eq!((r.cell().x, r.cell().y), (1, 1));
    }
}

#[test]
fn start_with_first_open_edge_in_order() {
    let r = MazerRunner::new(&walled(0b0001)).unwrap();
    assert_eq!(r.orientation(), MazeOrientation::East);
    let r = MazerRunner::new(&walled(0)).unwrap();
    assert_eq!(r.orientation(), MazeOrientation::North);
}

#[test]
fn start_walled_on_all_sides_fails() {
    assert_eq!(MazerRunner::new(&walled(0b1111)).err(), Some(RunnerError::StartBlocked));
}

#[test]
fn wall_sensing_is_relative_to_orientation() {
    // Only the north wall is open: the runner faces north.
    let m = walled(0b1110);
    let mut r = MazerRunner::new(&m).unwrap();
    assert!(!r.is_wall_detected(&m, SensorDirection::Front));
    assert!(r.is_wall_detected(&m, SensorDirection::Left));
    assert!(r.is_wall_detected(&m, SensorDirection::Right));
    r.rotate(RotationDirection::Right);
    assert_eq!(r.orientation(), MazeOrientation::East);
    assert!(r.is_wall_detected(&m, SensorDirection::Front));
    assert!(!r.is_wall_detected(&m, SensorDirection::Left));
    assert!(r.is_wall_detected(&m, SensorDirection::Right));
}

#[test]
fn move_forward_into_wall_fails_and_stays() {
    let m = walled(0b1101);
    let mut r = MazerRunner::new(&m).unwrap();
    r.rotate(RotationDirection::Left);
    assert_eq!(r.orientation(), MazeOrientation::North);
    assert_eq!(r.move_forward(&m), Err(RunnerError::WallAhead));
    assert_eq!((r.cell().x, r.cell().y), (1, 1));
}

#[test]
fn move_forward_advances_one_cell() {
    let m = walled(0);
    let mut r = MazerRunner::new(&m).unwrap();
    assert_eq!(r.move_forward(&m), Ok(()));
    assert_eq!((r.cell().x, r.cell().y), (1, 2));
    r.rotate(RotationDirection::Left);
    r.rotate(RotationDirection::Left);
    assert_eq!(r.move_forward(&m), Ok(()));
    assert_eq!(r.move_forward(&m), Ok(()));
    assert_eq!((r.cell().x, r.cell().y), (1, 0));
    r.rotate(RotationDirection::Left);
    assert_eq!(r.orientation(), MazeOrientation::East);
    assert_eq!(r.move_forward(&m), Ok(()));
    assert_eq!((r.cell().x, r.cell().y), (2, 0));
}

#[test]
fn move_forward_at_the_border_fails() {
    let m = walled(0);
    let mut r = MazerRunner::new(&m).unwrap();
    r.move_forward(&m).unwrap();
    assert_eq!(r.move_forward(&m), Err(RunnerError::MazeEdge));
    assert_eq!((r.cell().x, r.cell().y), (1, 2));
}

#[test]
fn four_rotations_return_to_start() {
    for dir in [RotationDirection::Left, RotationDirection::Right] {
        let m = walled(0);
        let mut r = MazerRunner::new(&m).unwrap();
        let mut seen = Vec::new();
        for _ in 0..4 {
            r.rotate(dir);
            seen.push(r.orientation());
        }
        assert_eq!(r.orientation(), MazeOrientation::North);
        assert_eq!(seen.len(), 4);
    }
}

#[test]
fn left_rotation_order() {
    let m = walled(0b1101);
    let mut r = MazerRunner::new(&m).unwrap();
    let mut seen = Vec::new();
    for _ in 0..4 {
        r.rotate(RotationDirection::Left);
        seen.push(r.orientation());
    }
    assert_eq!(
        seen,
        vec![
            MazeOrientation::North,
            MazeOrientation::West,
            MazeOrientation::South,
            MazeOrientation::East
        ]
    );
}

#[test]
fn real_position_is_cell_centre() {
    let m = walled(0b1101);
    let r = MazerRunner::new(&m).unwrap();
    let p = r.get_real_position();
    assert_eq!((p.x, p.y), (270_000, 270_000));
    assert_eq!(p.theta.as_microdegrees(), 0);
    let m = walled(0b0111);
    let p = MazerRunner::new(&m).unwrap().get_real_position();
    assert_eq!(p.theta.as_microdegrees(), 180_000_000);
}
