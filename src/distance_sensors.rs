//! The distance-sensor engine: each sensor's beam is probed against the
//! maze walls at fixed steps, and the first wall met gives the reading.

use vstd::prelude::*;

use crate::communication::DistanceSensor;
use crate::maze::{
    has_flag, Cell, Maze, MazeError, EAST_WALL, NORTH_WALL, SOUTH_WALL, WEST_WALL,
};
use crate::position::{abs_int, floor_div, Angle, Direction, Position, TRIG_ONE};
use crate::simulator::{CELL_SIZE_MM, WALL_WIDTH_MM};

verus! {

/// Beam coordinates are kept in micrometers times `TRIG_ONE`, so that a point
/// on a beam is exact: this many of them make a millimeter.
pub const FINE_PER_MM: i64 = 1_000_000_000;

/// Side of a maze cell in beam coordinates.
pub const CELL_SIZE_FINE: i64 = 180_000_000_000;

/// Number of points probed along a beam: 100 at every millimeter, then 79
/// more every 5 millimeters.
pub const SCAN_STEPS: usize = 179;

/// The largest mounting offset of a sensor, in micrometers.
pub const MOUNT_LIMIT: i64 = 1_000_000;

/// How far from the robot centre a sensor probes at step `i`, in millimeters.
pub open spec fn step_distance(i: int) -> int {
    if i < 100 {
        i + 1
    } else {
        100 + (i - 99) * 5
    }
}

/// Whether a point at offset (`xo`, `yo`) millimeters inside a cell with flags
/// `bits` touches one of its walls: a wall covers half its thickness on the
/// cell's side of the edge.
pub open spec fn wall_at_offset(bits: u8, xo: int, yo: int) -> bool {
    (has_flag(bits, NORTH_WALL) && yo >= CELL_SIZE_MM - WALL_WIDTH_MM / 2) || (has_flag(
        bits,
        SOUTH_WALL,
    ) && yo <= WALL_WIDTH_MM / 2) || (has_flag(bits, EAST_WALL) && xo >= CELL_SIZE_MM
        - WALL_WIDTH_MM / 2) || (has_flag(bits, WEST_WALL) && xo <= WALL_WIDTH_MM / 2)
}

/// What a probe finds at a point.
pub enum Probe {
    Outside,
    Wall,
    Open,
}

/// What a probe finds at the point (`px`, `py`), in beam coordinates.
pub open spec fn probe_at<const R: usize, const C: usize>(m: &Maze<R, C>, px: int, py: int) -> Probe {
    let cell = CELL_SIZE_FINE as int;
    let mm = FINE_PER_MM as int;
    if px < 0 || py < 0 || px / cell >= C || py / cell >= R {
        Probe::Outside
    } else if wall_at_offset(
        m.bits_at(px / cell, py / cell),
        (px % cell) / mm,
        (py % cell) / mm,
    ) {
        Probe::Wall
    } else {
        Probe::Open
    }
}

/// The point `d` millimeters from `s` along the fixed-point unit component
/// `dir`, in beam coordinates.
pub open spec fn beam_point(s: int, dir: int, d: int) -> int {
    s + d * 1000 * dir
}

/// What a beam from (`sx`, `sy`) along (`bc`, `bs`) meets from step `i` on:
/// `Some(Some(d))` for a wall at `d` millimeters, `Some(None)` for none within
/// range, `None` for a point outside the maze met first.
pub open spec fn scan_from<const R: usize, const C: usize>(
    m: &Maze<R, C>,
    sx: int,
    sy: int,
    bc: int,
    bs: int,
    i: int,
) -> Option<Option<int>>
    decreases SCAN_STEPS - i,
{
    if i < 0 || i >= SCAN_STEPS {
        Some(None)
    } else {
        let d = step_distance(i);
        match probe_at(m, beam_point(sx, bc, d), beam_point(sy, bs, d)) {
            Probe::Outside => None,
            Probe::Wall => Some(Some(d)),
            Probe::Open => scan_from(m, sx, sy, bc, bs, i + 1),
        }
    }
}

/// Where a sensor sits on the robot and where it looks: `x_offset`
/// micrometers to the left of the centre line, `y_offset` micrometers ahead of
/// the centre, and `alpha` from the heading.
#[derive(Clone, Copy, Debug, PartialEq, Eq, Structural)]
pub struct SensorMount {
    pub alpha: Angle,
    pub x_offset: i64,
    pub y_offset: i64,
}

impl SensorMount {
    /// Whether both offsets lie within `MOUNT_LIMIT`.
    pub open spec fn wf(&self) -> bool {
        abs_int(self.x_offset as int) <= MOUNT_LIMIT && abs_int(self.y_offset as int)
            <= MOUNT_LIMIT
    }
}

/// The x coordinate of a sensor mounted at `mount` on a robot at `pose`
/// heading along `heading`, in beam coordinates.
pub open spec fn sensor_origin_x(pose: Position, mount: SensorMount, heading: Direction) -> int {
    pose.x * TRIG_ONE + mount.y_offset * heading.cos - mount.x_offset * heading.sin
}

/// The y coordinate of a sensor mounted at `mount` on a robot at `pose`
/// heading along `heading`, in beam coordinates.
pub open spec fn sensor_origin_y(pose: Position, mount: SensorMount, heading: Direction) -> int {
    pose.y * TRIG_ONE + mount.y_offset * heading.sin + mount.x_offset * heading.cos
}

/// A beam segment in micrometers, for display.
#[derive(Clone, Copy, Debug, PartialEq, Eq, Structural)]
pub struct Beam {
    pub x1: i64,
    pub y1: i64,
    pub x2: i64,
    pub y2: i64,
}

/// The reading of a beam from (`sx`, `sy`) along `beam`, in beam
/// coordinates: the distance of the wall it meets and the beam segment, in
/// micrometers, up to that wall; or -1 with a beam of no length at the
/// sensor; `None` when the beam leaves the maze first.
pub open spec fn scan_reading<const R: usize, const C: usize>(
    m: &Maze<R, C>,
    sx: int,
    sy: int,
    beam: Direction,
) -> Option<(i32, Beam)> {
    let one = TRIG_ONE as int;
    match scan_from(m, sx, sy, beam.cos as int, beam.sin as int, 0) {
        None => None,
        Some(None) => Some(
            (
                -1i32,
                Beam {
                    x1: (sx / one) as i64,
                    y1: (sy / one) as i64,
                    x2: (sx / one) as i64,
                    y2: (sy / one) as i64,
                },
            ),
        ),
        Some(Some(d)) => Some(
            (
                d as i32,
                Beam {
                    x1: (sx / one) as i64,
                    y1: (sy / one) as i64,
                    x2: (beam_point(sx, beam.cos as int, d) / one) as i64,
                    y2: (beam_point(sy, beam.sin as int, d) / one) as i64,
                },
            ),
        ),
    }
}

/// The reading of the sensor at `mount` on a robot at `pose` heading along
/// `heading`, its beam along `beam`.
pub open spec fn expected_reading<const R: usize, const C: usize>(
    m: &Maze<R, C>,
    pose: Position,
    mount: SensorMount,
    heading: Direction,
    beam: Direction,
) -> Option<(i32, Beam)> {
    scan_reading(m, sensor_origin_x(pose, mount, heading), sensor_origin_y(pose, mount, heading), beam)
}

/// The x coordinate, in beam coordinates, of `sensor` on a robot at `pose`
/// heading along `heading`.
pub open spec fn mounted_origin_x(sensor: DistanceSensor, pose: Position, heading: Direction) -> int {
    let (_, x_offset, y_offset) = mount_of(sensor);
    pose.x * TRIG_ONE + y_offset * heading.cos - x_offset * heading.sin
}

/// The y coordinate, in beam coordinates, of `sensor` on a robot at `pose`
/// heading along `heading`.
pub open spec fn mounted_origin_y(sensor: DistanceSensor, pose: Position, heading: Direction) -> int {
    let (_, x_offset, y_offset) = mount_of(sensor);
    pose.y * TRIG_ONE + y_offset * heading.sin + x_offset * heading.cos
}

/// What can go wrong when a sensor probes the maze.
#[derive(Clone, Copy, Debug, PartialEq, Eq, Structural)]
pub enum SensorError {
    /// The beam left the maze before it met a wall.
    OutOfMaze,
}

/// The front-left sensor: looking ahead, left of the centre line.
pub struct DistanceSensorFrontLeft;

/// The front-right sensor: looking ahead, right of the centre line.
pub struct DistanceSensorFrontRight;

/// The diagonal-left sensor: looking 60 degrees to the left.
pub struct DistanceSensorDiagonalLeft;

/// The diagonal-right sensor: looking 60 degrees to the right.
pub struct DistanceSensorDiagonalRight;

impl DistanceSensorFrontLeft {
    /// Beam direction relative to the heading.
    pub fn alpha() -> (r: Angle)
        ensures
            r@ == 0,
    {
        Angle::degrees(0)
    }

    /// Lateral offset, in micrometers to the left.
    pub fn position_x_offset() -> (r: i64)
        ensures
            r == 28_000,
    {
        28_000
    }

    /// Longitudinal offset, in micrometers ahead.
    pub fn position_y_offset() -> (r: i64)
        ensures
            r == 30_000,
    {
        30_000
    }
}

impl DistanceSensorFrontRight {
    /// Beam direction relative to the heading.
    pub fn alpha() -> (r: Angle)
        ensures
            r@ == 0,
    {
        Angle::degrees(0)
    }

    /// Lateral offset, in micrometers to the left.
    pub fn position_x_offset() -> (r: i64)
        ensures
            r == -28_000,
    {
        -28_000
    }

    /// Longitudinal offset, in micrometers ahead.
    pub fn position_y_offset() -> (r: i64)
        ensures
            r == 30_000,
    {
        30_000
    }
}

impl DistanceSensorDiagonalLeft {
    /// Beam direction relative to the heading.
    pub fn alpha() -> (r: Angle)
        ensures
            r@ == 60_000_000,
    {
        proof {
            crate::position::lemma_normalized(60_000_000);
        }
        Angle::degrees(60)
    }

    /// Lateral offset, in micrometers to the left.
    pub fn position_x_offset() -> (r: i64)
        ensures
            r == 20_000,
    {
        20_000
    }

    /// Longitudinal offset, in micrometers ahead.
    pub fn position_y_offset() -> (r: i64)
        ensures
            r == 33_000,
    {
        33_000
    }
}

impl DistanceSensorDiagonalRight {
    /// Beam direction relative to the heading.
    pub fn alpha() -> (r: Angle)
        ensures
            r@ == -60_000_000,
    {
        proof {
            crate::position::lemma_normalized(-60_000_000);
        }
        Angle::degrees(-60)
    }

    /// Lateral offset, in micrometers to the left.
    pub fn position_x_offset() -> (r: i64)
        ensures
            r == -20_000,
    {
        -20_000
    }

    /// Longitudinal offset, in micrometers ahead.
    pub fn position_y_offset() -> (r: i64)
        ensures
            r == 33_000,
    {
        33_000
    }
}

/// The mounting of each sensor.
pub open spec fn mount_of(sensor: DistanceSensor) -> (int, int, int) {
    match sensor {
        DistanceSensor::FrontLeft => (0, 28_000, 30_000),
        DistanceSensor::FrontRight => (0, -28_000, 30_000),
        DistanceSensor::DiagonalLeft => (60_000_000, 20_000, 33_000),
        DistanceSensor::DiagonalRight => (-60_000_000, -20_000, 33_000),
    }
}

impl DistanceSensor {
    /// Where the sensor sits and where it looks.
    pub fn mount(self) -> (r: SensorMount)
        ensures
            (r.alpha@, r.x_offset as int, r.y_offset as int) == mount_of(self),
            r.wf(),
    {
        match self {
            DistanceSensor::FrontLeft => SensorMount {
                alpha: DistanceSensorFrontLeft::alpha(),
                x_offset: DistanceSensorFrontLeft::position_x_offset(),
                y_offset: DistanceSensorFrontLeft::position_y_offset(),
            },
            DistanceSensor::FrontRight => SensorMount {
                alpha: DistanceSensorFrontRight::alpha(),
                x_offset: DistanceSensorFrontRight::position_x_offset(),
                y_offset: DistanceSensorFrontRight::position_y_offset(),
            },
            DistanceSensor::DiagonalLeft => SensorMount {
                alpha: DistanceSensorDiagonalLeft::alpha(),
                x_offset: DistanceSensorDiagonalLeft::position_x_offset(),
                y_offset: DistanceSensorDiagonalLeft::position_y_offset(),
            },
            DistanceSensor::DiagonalRight => SensorMount {
                alpha: DistanceSensorDiagonalRight::alpha(),
                x_offset: DistanceSensorDiagonalRight::position_x_offset(),
                y_offset: DistanceSensorDiagonalRight::position_y_offset(),
            },
        }
    }
}

/// The last reading of every sensor: distances in millimeters (-1: no wall
/// within range) and the beams that measured them.
#[derive(Clone, Copy, Debug, PartialEq, Eq, Structural)]
pub struct DistanceSensorsReading {
    pub fl: i32,
    pub fr: i32,
    pub dl: i32,
    pub dr: i32,
    pub fl_beam: Beam,
    pub fr_beam: Beam,
    pub dl_beam: Beam,
    pub dr_beam: Beam,
}

impl DistanceSensorsReading {
    /// No reading yet: every distance is -1 and every beam sits at (-1, -1).
    pub fn new() -> (r: DistanceSensorsReading)
        ensures
            r.fl == -1 && r.fr == -1 && r.dl == -1 && r.dr == -1,
            r.fl_beam == (Beam { x1: -1i64, y1: -1i64, x2: -1i64, y2: -1i64 }),
            r.fr_beam == (Beam { x1: -1i64, y1: -1i64, x2: -1i64, y2: -1i64 }),
            r.dl_beam == (Beam { x1: -1i64, y1: -1i64, x2: -1i64, y2: -1i64 }),
            r.dr_beam == (Beam { x1: -1i64, y1: -1i64, x2: -1i64, y2: -1i64 }),
    {
        let none = Beam { x1: -1, y1: -1, x2: -1, y2: -1 };
        DistanceSensorsReading {
            fl: -1,
            fr: -1,
            dl: -1,
            dr: -1,
            fl_beam: none,
            fr_beam: none,
            dl_beam: none,
            dr_beam: none,
        }
    }

    /// The distance last measured by `sensor`.
    pub fn distance(&self, sensor: DistanceSensor) -> (r: i32)
        ensures
            r == (match sensor {
                DistanceSensor::FrontLeft => self.fl,
                DistanceSensor::FrontRight => self.fr,
                DistanceSensor::DiagonalLeft => self.dl,
                DistanceSensor::DiagonalRight => self.dr,
            }),
    {
        match sensor {
            DistanceSensor::FrontLeft => self.fl,
            DistanceSensor::FrontRight => self.fr,
            DistanceSensor::DiagonalLeft => self.dl,
            DistanceSensor::DiagonalRight => self.dr,
        }
    }
}

/// The sensors' view of the maze: it casts their beams against its walls.
pub struct DistanceSensorsEnvironment<const R: usize, const C: usize> {
    maze: Maze<R, C>,
}

impl<const R: usize, const C: usize> DistanceSensorsEnvironment<R, C> {
    /// The maze the beams are cast against.
    pub closed spec fn maze(&self) -> Maze<R, C> {
        self.maze
    }

    /// The reading of `sensor` on a robot at `pose` heading along `heading`,
    /// its beam along `beam`: `expected_reading` at the sensor's mounting,
    /// and `OutOfMaze` when the beam leaves the maze first.
    pub open spec fn reading_of(
        &self,
        sensor: DistanceSensor,
        pose: Position,
        heading: Direction,
        beam: Direction,
    ) -> Result<(i32, Beam), SensorError> {
        match scan_reading(
            &self.maze(),
            mounted_origin_x(sensor, pose, heading),
            mounted_origin_y(sensor, pose, heading),
            beam,
        ) {
            None => Err(SensorError::OutOfMaze),
            Some(reading) => Ok(reading),
        }
    }

    /// Sensors probing `maze`.
    pub fn new(maze: Maze<R, C>) -> (r: Self)
        ensures
            r.maze() == maze,
    {
        DistanceSensorsEnvironment { maze }
    }

    /// Whether the point at offset (`x_offset`, `y_offset`) millimeters in
    /// cell (`x_index`, `y_index`) touches one of the cell's walls; fails
    /// outside the maze.
    pub fn is_wall_at(&self, x_index: usize, y_index: usize, x_offset: i32, y_offset: i32) -> (r:
        Result<bool, MazeError>)
        requires
            self.maze().inv(),
        ensures
            r is Ok <==> (x_index < C && y_index < R),
            r is Ok ==> r->Ok_0 == wall_at_offset(
                self.maze().bits_at(x_index as int, y_index as int),
                x_offset as int,
                y_offset as int,
            ),
            r is Err ==> r->Err_0 == MazeError::OutOfBounds,
    {
        let cell = Cell::<R, C>::new(x_index, y_index)?;
        let s = self.maze.get_cell_state(cell);
        let half = (WALL_WIDTH_MM / 2) as i32;
        let far = (CELL_SIZE_MM - WALL_WIDTH_MM / 2) as i32;
        if s.bits() & NORTH_WALL == NORTH_WALL && y_offset >= far {
            return Ok(true);
        }
        if s.bits() & SOUTH_WALL == SOUTH_WALL && y_offset <= half {
            return Ok(true);
        }
        if s.bits() & EAST_WALL == EAST_WALL && x_offset >= far {
            return Ok(true);
        }
        if s.bits() & WEST_WALL == WEST_WALL && x_offset <= half {
            return Ok(true);
        }
        Ok(false)
    }

    /// What a probe finds at (`px`, `py`), in beam coordinates.
    fn probe(&self, px: i64, py: i64) -> (r: Probe)
        requires
            self.maze().inv(),
        ensures
            r == probe_at(&self.maze(), px as int, py as int),
    {
        if px < 0 || py < 0 {
            return Probe::Outside;
        }
        let xi = px / CELL_SIZE_FINE;
        let yi = py / CELL_SIZE_FINE;
        if xi as u64 >= C as u64 || yi as u64 >= R as u64 {
            return Probe::Outside;
        }
        let xo = (px % CELL_SIZE_FINE) / FINE_PER_MM;
        let yo = (py % CELL_SIZE_FINE) / FINE_PER_MM;
        assert(xo < 180 && yo < 180) by (nonlinear_arith)
            requires
                xo == (px % CELL_SIZE_FINE) / FINE_PER_MM,
                yo == (py % CELL_SIZE_FINE) / FINE_PER_MM,
                px >= 0,
                py >= 0,
        ;
        match self.is_wall_at(xi as usize, yi as usize, xo as i32, yo as i32) {
            Ok(true) => Probe::Wall,
            _ => Probe::Open,
        }
    }

    /// The reading of the sensor mounted at `mount` on a robot at `pose`,
    /// where `heading` is the unit vector of the robot's heading and `beam`
    /// that of the heading turned by the sensor's angle: the beam is probed at
    /// every millimeter up to 100, then every 5 up to 495; the first wall met
    /// gives the distance and the beam segment, and none gives -1 and a beam
    /// of no length. Fails when the beam leaves the maze first.
    pub fn estimate_measured_distance(
        &self,
        runner_position: &Position,
        mount: &SensorMount,
        heading: &Direction,
        beam: &Direction,
    ) -> (r: Result<(i32, Beam), SensorError>)
        requires
            self.maze().inv(),
            runner_position.wf(),
            mount.wf(),
            heading.wf(),
            beam.wf(),
        ensures
            match expected_reading(&self.maze(), *runner_position, *mount, *heading, *beam) {
                None => r == Err::<(i32, Beam), SensorError>(SensorError::OutOfMaze),
                Some(reading) => r == Ok::<(i32, Beam), SensorError>(reading),
            },
    {
        proof {
            lemma_origin_bounds(*runner_position, *mount, *heading);
        }
        let sx = runner_position.x * TRIG_ONE + mount.y_offset * heading.cos - mount.x_offset
            * heading.sin;
        let sy = runner_position.y * TRIG_ONE + mount.y_offset * heading.sin + mount.x_offset
            * heading.cos;
        let ghost m = self.maze();
        let ghost bc = beam.cos as int;
        let ghost bs = beam.sin as int;
        let mut i: usize = 0;
        while i < SCAN_STEPS
            invariant
                self.maze().inv(),
                m == self.maze(),
                bc == beam.cos,
                bs == beam.sin,
                sx == sensor_origin_x(*runner_position, *mount, *heading),
                sy == sensor_origin_y(*runner_position, *mount, *heading),
                beam.wf(),
                abs_int(sx as int) <= 1_100_000_000_000_000_000,
                abs_int(sy as int) <= 1_100_000_000_000_000_000,
                i <= SCAN_STEPS,
                scan_from(&m, sx as int, sy as int, bc, bs, 0) == scan_from(
                    &m,
                    sx as int,
                    sy as int,
                    bc,
                    bs,
                    i as int,
                ),
            decreases SCAN_STEPS - i,
        {
            let d: i64 = if i < 100 {
                i as i64 + 1
            } else {
                100 + (i as i64 - 99) * 5
            };
            assert(d == step_distance(i as int));
            let (px, py) = beam_point_at(sx, sy, beam, d);
            match self.probe(px, py) {
                Probe::Outside => {
                    assert(scan_from(&m, sx as int, sy as int, bc, bs, i as int) is None);
                    return Err(SensorError::OutOfMaze);
                },
                Probe::Wall => {
                    let beam_segment = Beam {
                        x1: floor_div(sx, TRIG_ONE),
                        y1: floor_div(sy, TRIG_ONE),
                        x2: floor_div(px, TRIG_ONE),
                        y2: floor_div(py, TRIG_ONE),
                    };
                    assert(scan_from(&m, sx as int, sy as int, bc, bs, i as int) == Some(
                        Some(d as int),
                    ));
                    return Ok((d as i32, beam_segment));
                },
                Probe::Open => {},
            }
            i = i + 1;
        }
        let x1 = floor_div(sx, TRIG_ONE);
        let y1 = floor_div(sy, TRIG_ONE);
        Ok((-1, Beam { x1, y1, x2: x1, y2: y1 }))
    }

    /// The reading of `sensor` on a robot at `runner_position`; `heading` and
    /// `beam` as for `estimate_measured_distance`.
    pub fn measure(
        &self,
        sensor: DistanceSensor,
        runner_position: &Position,
        heading: &Direction,
        beam: &Direction,
    ) -> (r: Result<(i32, Beam), SensorError>)
        requires
            self.maze().inv(),
            runner_position.wf(),
            heading.wf(),
            beam.wf(),
        ensures
            r == self.reading_of(sensor, *runner_position, *heading, *beam),
    {
        let mount = sensor.mount();
        let r = self.estimate_measured_distance(runner_position, &mount, heading, beam);
        assert(sensor_origin_x(*runner_position, mount, *heading) == mounted_origin_x(
            sensor,
            *runner_position,
            *heading,
        ));
        assert(sensor_origin_y(*runner_position, mount, *heading) == mounted_origin_y(
            sensor,
            *runner_position,
            *heading,
        ));
        r
    }
}

impl<const R: usize, const C: usize> DistanceSensorsEnvironment<R, C> {
    /// The reading of the front-left sensor; see `measure`.
    pub fn front_left(&self, runner_position: &Position, heading: &Direction, beam: &Direction) -> (r:
        Result<(i32, Beam), SensorError>)
        requires
            self.maze().inv(),
            runner_position.wf(),
            heading.wf(),
            beam.wf(),
        ensures
            r == self.reading_of(DistanceSensor::FrontLeft, *runner_position, *heading, *beam),
    {
        self.measure(DistanceSensor::FrontLeft, runner_position, heading, beam)
    }

    /// The reading of the front-right sensor; see `measure`.
    pub fn front_right(&self, runner_position: &Position, heading: &Direction, beam: &Direction) -> (r:
        Result<(i32, Beam), SensorError>)
        requires
            self.maze().inv(),
            runner_position.wf(),
            heading.wf(),
            beam.wf(),
        ensures
            r == self.reading_of(DistanceSensor::FrontRight, *runner_position, *heading, *beam),
    {
        self.measure(DistanceSensor::FrontRight, runner_position, heading, beam)
    }

    /// The reading of the diagonal-left sensor; see `measure`.
    pub fn diagonal_left(&self, runner_position: &Position, heading: &Direction, beam: &Direction) -> (r:
        Result<(i32, Beam), SensorError>)
        requires
            self.maze().inv(),
            runner_position.wf(),
            heading.wf(),
            beam.wf(),
        ensures
            r == self.reading_of(DistanceSensor::DiagonalLeft, *runner_position, *heading, *beam),
    {
        self.measure(DistanceSensor::DiagonalLeft, runner_position, heading, beam)
    }

    /// The reading of the diagonal-right sensor; see `measure`.
    pub fn diagonal_right(&self, runner_position: &Position, heading: &Direction, beam: &Direction) -> (r:
        Result<(i32, Beam), SensorError>)
        requires
            self.maze().inv(),
            runner_position.wf(),
            heading.wf(),
            beam.wf(),
        ensures
            r == self.reading_of(DistanceSensor::DiagonalRight, *runner_position, *heading, *beam),
    {
        self.measure(DistanceSensor::DiagonalRight, runner_position, heading, beam)
    }

    /// One sensing cycle: the readings of all four sensors on a robot at
    /// `runner_position`, where `heading` is the unit vector of its heading
    /// and `fl`, `fr`, `dl`, `dr` those of each sensor's beam. Fails when a
    /// beam leaves the maze before it meets a wall.
    pub fn sense(
        &self,
        runner_position: &Position,
        heading: &Direction,
        fl: &Direction,
        fr: &Direction,
        dl: &Direction,
        dr: &Direction,
    ) -> (r: Result<DistanceSensorsReading, SensorError>)
        requires
            self.maze().inv(),
            runner_position.wf(),
            heading.wf(),
            fl.wf(),
            fr.wf(),
            dl.wf(),
            dr.wf(),
        ensures
            r is Ok ==> {
                let rd = r->Ok_0;
                &&& self.reading_of(DistanceSensor::FrontLeft, *runner_position, *heading, *fl)
                    == Ok::<(i32, Beam), SensorError>((rd.fl, rd.fl_beam))
                &&& self.reading_of(DistanceSensor::FrontRight, *runner_position, *heading, *fr)
                    == Ok::<(i32, Beam), SensorError>((rd.fr, rd.fr_beam))
                &&& self.reading_of(DistanceSensor::DiagonalLeft, *runner_position, *heading, *dl)
                    == Ok::<(i32, Beam), SensorError>((rd.dl, rd.dl_beam))
                &&& self.reading_of(DistanceSensor::DiagonalRight, *runner_position, *heading, *dr)
                    == Ok::<(i32, Beam), SensorError>((rd.dr, rd.dr_beam))
            },
            r is Err <==> (self.reading_of(DistanceSensor::FrontLeft, *runner_position, *heading, *fl) is Err
                || self.reading_of(DistanceSensor::FrontRight, *runner_position, *heading, *fr) is Err
                || self.reading_of(DistanceSensor::DiagonalLeft, *runner_position, *heading, *dl) is Err
                || self.reading_of(DistanceSensor::DiagonalRight, *runner_position, *heading, *dr) is Err),
            r is Err ==> r->Err_0 == SensorError::OutOfMaze,
    {
        let (fl_d, fl_b) = self.measure(DistanceSensor::FrontLeft, runner_position, heading, fl)?;
        let (fr_d, fr_b) = self.measure(DistanceSensor::FrontRight, runner_position, heading, fr)?;
        let (dl_d, dl_b) = self.measure(DistanceSensor::DiagonalLeft, runner_position, heading, dl)?;
        let (dr_d, dr_b) = self.measure(
            DistanceSensor::DiagonalRight,
            runner_position,
            heading,
            dr,
        )?;
        Ok(
            DistanceSensorsReading {
                fl: fl_d,
                fr: fr_d,
                dl: dl_d,
                dr: dr_d,
                fl_beam: fl_b,
                fr_beam: fr_b,
                dl_beam: dl_b,
                dr_beam: dr_b,
            },
        )
    }
}

/// The point `d` millimeters from (`sx`, `sy`) along `beam`, in beam
/// coordinates.
fn beam_point_at(sx: i64, sy: i64, beam: &Direction, d: i64) -> (r: (i64, i64))
    requires
        beam.wf(),
        1 <= d <= 495,
        abs_int(sx as int) <= 1_100_000_000_000_000_000,
        abs_int(sy as int) <= 1_100_000_000_000_000_000,
    ensures
        r.0 == beam_point(sx as int, beam.cos as int, d as int),
        r.1 == beam_point(sy as int, beam.sin as int, d as int),
{
    assert(abs_int(d * 1000 * beam.cos) <= 495_000_000_000) by (nonlinear_arith)
        requires
            1 <= d <= 495,
            abs_int(beam.cos as int) <= TRIG_ONE,
    ;
    assert(abs_int(d * 1000 * beam.sin) <= 495_000_000_000) by (nonlinear_arith)
        requires
            1 <= d <= 495,
            abs_int(beam.sin as int) <= TRIG_ONE,
    ;
    (sx + d * 1000 * beam.cos, sy + d * 1000 * beam.sin)
}

/// The sensor origin stays well inside the range of `i64`.
proof fn lemma_origin_bounds(pose: Position, mount: SensorMount, heading: Direction)
    requires
        pose.wf(),
        mount.wf(),
        heading.wf(),
    ensures
        abs_int(sensor_origin_x(pose, mount, heading)) <= 1_100_000_000_000_000_000,
        abs_int(sensor_origin_y(pose, mount, heading)) <= 1_100_000_000_000_000_000,
        abs_int(pose.x * TRIG_ONE) <= 1_000_000_000_000_000_000,
        abs_int(pose.y * TRIG_ONE) <= 1_000_000_000_000_000_000,
        abs_int(mount.y_offset * heading.cos) <= 1_000_000_000_000,
        abs_int(mount.x_offset * heading.sin) <= 1_000_000_000_000,
        abs_int(mount.y_offset * heading.sin) <= 1_000_000_000_000,
        abs_int(mount.x_offset * heading.cos) <= 1_000_000_000_000,
{
    assert(abs_int(pose.x * TRIG_ONE) <= 1_000_000_000_000_000_000) by (nonlinear_arith)
        requires
            abs_int(pose.x as int) <= 1_000_000_000_000,
    ;
    assert(abs_int(pose.y * TRIG_ONE) <= 1_000_000_000_000_000_000) by (nonlinear_arith)
        requires
            abs_int(pose.y as int) <= 1_000_000_000_000,
    ;
    assert(abs_int(mount.y_offset * heading.cos) <= 1_000_000_000_000) by (nonlinear_arith)
        requires
            abs_int(mount.y_offset as int) <= MOUNT_LIMIT,
            abs_int(heading.cos as int) <= TRIG_ONE,
    ;
    assert(abs_int(mount.x_offset * heading.sin) <= 1_000_000_000_000) by (nonlinear_arith)
        requires
            abs_int(mount.x_offset as int) <= MOUNT_LIMIT,
            abs_int(heading.sin as int) <= TRIG_ONE,
    ;
    assert(abs_int(mount.y_offset * heading.sin) <= 1_000_000_000_000) by (nonlinear_arith)
        requires
            abs_int(mount.y_offset as int) <= MOUNT_LIMIT,
            abs_int(heading.sin as int) <= TRIG_ONE,
    ;
    assert(abs_int(mount.x_offset * heading.cos) <= 1_000_000_000_000) by (nonlinear_arith)
        requires
            abs_int(mount.x_offset as int) <= MOUNT_LIMIT,
            abs_int(heading.cos as int) <= TRIG_ONE,
    ;
}

} // verus!
