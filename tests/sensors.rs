use micromouse_sim::communication::DistanceSensor;
use micromouse_sim::distance_sensors::{
    Beam, DistanceSensorDiagonalLeft, DistanceSensorDiagonalRight, DistanceSensorFrontLeft,
    DistanceSensorFrontRight, DistanceSensorsEnvironment, DistanceSensorsReading, SensorError,
};
use micromouse_sim::maze::{Cell, CellState, Maze, MazeError};
use micromouse_sim::position::{Angle, Direction, Position};

const EAST: Direction = Direction { cos: 1_000_000, sin: 0 };
const NORTH: Direction = Direction { cos: 0, sin: 1_000_000 };

fn closed_cell() -> DistanceSensorsEnvironment<1, 1> {
    let mut m = Maze::<1, 1>::new();
    m.update_cell_state(Cell::new(0, 0).unwrap(), CellState::from_bits_retain(0b1111), true);
    DistanceSensorsEnvironment::new(m)
}

#[test]
fn front_sensors_see_the_facing_wall() {
    let env = closed_cell();
    let pose = Position::new(90_000, 90_000, Angle::degrees(0));
    let fl = DistanceSensor::FrontLeft.mount();
    let (d, beam) = env.estimate_measured_distance(&pose, &fl, &EAST, &EAST).unwrap();
    // The sensor sits 30 mm ahead of the centre, at x = 120 mm; the east wall
    // starts 6 mm before the cell edge at 180 mm.
    assert_eq!(d, 54);
    assert_eq!(beam, Beam { x1: 120_000, y1: 118_000, x2: 174_000, y2: 118_000 });
    let fr = DistanceSensor::FrontRight.mount();
    let (d, beam) = env.estimate_measured_distance(&pose, &fr, &EAST, &EAST).unwrap();
    assert_eq!(d, 54);
    assert_eq!(beam, Beam { x1: 120_000, y1: 62_000, x2: 174_000, y2: 62_000 });
}

#[test]
fn front_sensor_facing_north() {
    let env = closed_cell();
    let pose = Position::new(90_000, 90_000, Angle::degrees(90));
    let fl = DistanceSensor::FrontLeft.mount();
    let (d, _) = env.estimate_measured_distance(&pose, &fl, &NORTH, &NORTH).unwrap();
    assert_eq!(d, 54);
}

#[test]
fn open_space_beyond_range_reads_minus_one() {
    let env = DistanceSensorsEnvironment::new(Maze::<16, 16>::new());
    let pose = Position::new(1_530_000, 1_530_000, Angle::degrees(0));
    let fl = DistanceSensor::FrontLeft.mount();
    let (d, beam) = env.estimate_measured_distance(&pose, &fl, &EAST, &EAST).unwrap();
    assert_eq!(d, -1);
    assert_eq!(beam, Beam { x1: 1_560_000, y1: 1_558_000, x2: 1_560_000, y2: 1_558_000 });
}

#[test]
fn long_range_uses_five_millimeter_steps() {
    let mut m = Maze::<1, 4>::new();
    m.update_cell_state(Cell::new(2, 0).unwrap(), CellState::east_wall(), true);
    let env = DistanceSensorsEnvironment::new(m);
    let pose = Position::new(90_000, 90_000, Angle::degrees(0));
    let fl = DistanceSensor::FrontLeft.mount();
    // The wall face is at 534 mm, 414 mm from the sensor: the first probe
    // past it is at 415 mm.
    let (d, _) = env.estimate_measured_distance(&pose, &fl, &EAST, &EAST).unwrap();
    assert_eq!(d, 415);
}

#[test]
fn beam_leaving_the_maze_fails() {
    let env = DistanceSensorsEnvironment::new(Maze::<1, 1>::new());
    let pose = Position::new(90_000, 90_000, Angle::degrees(0));
    let fl = DistanceSensor::FrontLeft.mount();
    assert_eq!(
        env.estimate_measured_distance(&pose, &fl, &EAST, &EAST),
        Err(SensorError::OutOfMaze)
    );
}

#[test]
fn wall_test_at_offsets() {
    let env = closed_cell();
    assert_eq!(env.is_wall_at(0, 0, 90, 90), Ok(false));
    assert_eq!(env.is_wall_at(0, 0, 90, 174), Ok(true));
    assert_eq!(env.is_wall_at(0, 0, 90, 173), Ok(false));
    assert_eq!(env.is_wall_at(0, 0, 6, 90), Ok(true));
    assert_eq!(env.is_wall_at(0, 0, 7, 90), Ok(false));
    assert_eq!(env.is_wall_at(0, 0, 90, 6), Ok(true));
    assert_eq!(env.is_wall_at(0, 0, 174, 90), Ok(true));
    assert_eq!(env.is_wall_at(1, 0, 90, 90), Err(MazeError::OutOfBounds));
}

#[test]
fn sensor_mounts() {
    assert_eq!(DistanceSensorFrontLeft::alpha().as_microdegrees(), 0);
    assert_eq!(DistanceSensorFrontLeft::position_x_offset(), 28_000);
    assert_eq!(DistanceSensorFrontRight::position_x_offset(), -28_000);
    assert_eq!(DistanceSensorDiagonalLeft::alpha().as_microdegrees(), 60_000_000);
    assert_eq!(DistanceSensorDiagonalRight::alpha().as_microdegrees(), -60_000_000);
    assert_eq!(DistanceSensorDiagonalRight::position_y_offset(), 33_000);
}

#[test]
fn sensing_cycle_fills_every_reading() {
    let env = closed_cell();
    let pose = Position::new(90_000, 90_000, Angle::degrees(0));
    let r = env.sense(&pose, &EAST, &EAST, &EAST, &NORTH, &EAST).unwrap();
    assert_eq!((r.fl, r.fr), (54, 54));
    // The diagonal-right sensor, pointed east for the test, sits 33 mm ahead.
    assert_eq!(r.dr, 51);
    // The diagonal-left sensor, pointed north for the test, sits at
    // (123, 110) mm: the north wall starts at 174 mm.
    assert_eq!(r.dl, 64);
    assert_eq!(r.distance(DistanceSensor::DiagonalLeft), 64);
}

#[test]
fn readings_start_empty() {
    let r = DistanceSensorsReading::new();
    assert_eq!((r.fl, r.fr, r.dl, r.dr), (-1, -1, -1, -1));
    assert_eq!(r.fl_beam, Beam { x1: -1, y1: -1, x2: -1, y2: -1 });
}
