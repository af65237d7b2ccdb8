//! The command processor: it answers each protocol request by updating the
//! runner, the annotations and the shared pose, velocity and buttons, and
//! hands motions that take time back to its caller to await.

use vstd::prelude::*;

use crate::communication::{
    ButtonsState, DistanceSensor, MazeRunnerRequest, MazeRunnerResponse, MotionReadout,
};
use crate::context::RunnerContext;
use crate::distance_sensors::DistanceSensorsReading;
use crate::maze::{updated_bits, Cell, Maze, ALL_CELL_FLAGS};
use crate::position::{
    abs_int, clamped, floor_div, POSITION_LIMIT, normalized, Angle, Position, Velocity, VELOCITY_LIMIT,
};
use crate::runner::{
    heading_of, rotated, MazerRunner, RotationDirection, RunnerError, SensorDirection,
};
use crate::simulator::{MAX_MAZE_SIDE, UM_PER_MM};

verus! {

/// Speed of a forward move, in micrometers per second.
pub const TRANSLATIONAL_VELOCITY: i64 = 400_000;

/// Speed of a quarter turn, in microdegrees per second.
pub const ROTATIONAL_VELOCITY: i64 = 400_000_000;

/// A forward move is complete once both coordinates are this close to the
/// target, in micrometers.
pub const MOVE_TOLERANCE_UM: i64 = 2_000;

/// A quarter turn is complete once the heading is this close to the target,
/// in degrees.
pub const ROTATE_TOLERANCE_DEG: i32 = 1;

/// A distance as the protocol carries it: the low 16 bits, so that -1 reads
/// as 65535.
pub open spec fn wire_distance(d: int) -> u16 {
    (d % 65536) as u16
}

/// The motion that a request set going and that must complete before the
/// answer.
#[derive(Clone, Copy, Debug, PartialEq, Eq, Structural)]
pub enum MotionTarget {
    /// Drive until the position is at (`x`, `y`) micrometers.
    Translation { x: i64, y: i64 },
    /// Turn until the heading is `theta`.
    Rotation { theta: Angle },
}

/// What the command processor asks for after a request.
#[derive(Clone, Copy, Debug, PartialEq, Eq, Structural)]
pub enum Outcome {
    /// Send this response now.
    Respond(MazeRunnerResponse),
    /// Let the pose move until `MotionTarget::poll` reports completion, then
    /// answer `Ack`.
    AwaitMotion(MotionTarget),
}

impl MotionTarget {
    /// Checks one step of a motion: once the pose is within tolerance of the
    /// target it is snapped onto it, the speed that drove it is zeroed, and
    /// the motion is complete.
    pub fn poll(&self, pose: &mut Position, velocity: &mut Velocity) -> (done: bool)
        requires
            old(pose).wf(),
            old(velocity).wf(),
            self.wf(),
        ensures
            final(pose).wf(),
            final(velocity).wf(),
            match *self {
                MotionTarget::Translation { x, y } => {
                    &&& done == (abs_int(old(pose).x - x) < MOVE_TOLERANCE_UM && abs_int(
                        old(pose).y - y,
                    ) < MOVE_TOLERANCE_UM)
                    &&& done ==> *final(pose) == (Position { x, y, theta: old(pose).theta })
                        && *final(velocity) == (Velocity {
                        translational: 0,
                        rotational: old(velocity).rotational,
                    })
                },
                MotionTarget::Rotation { theta } => {
                    &&& done == (abs_int(normalized(old(pose).theta@ - theta@)) < 1_000_000)
                    &&& done ==> *final(pose) == (Position {
                        x: old(pose).x,
                        y: old(pose).y,
                        theta,
                    }) && *final(velocity) == (Velocity {
                        translational: old(velocity).translational,
                        rotational: 0,
                    })
                },
            },
            !done ==> *final(pose) == *old(pose) && *final(velocity) == *old(velocity),
    {
        match *self {
            MotionTarget::Translation { x, y } => {
                let dx = pose.x as i128 - x as i128;
                let dy = pose.y as i128 - y as i128;
                let tol = MOVE_TOLERANCE_UM as i128;
                if -tol < dx && dx < tol && -tol < dy && dy < tol {
                    pose.x = x;
                    pose.y = y;
                    velocity.translational = 0;
                    true
                } else {
                    false
                }
            },
            MotionTarget::Rotation { theta } => {
                let tolerance = Angle::degrees(ROTATE_TOLERANCE_DEG);
                proof {
                    crate::position::lemma_normalized(1_000_000);
                }
                if pose.theta.is_within(&theta, tolerance) {
                    pose.theta = theta;
                    velocity.rotational = 0;
                    true
                } else {
                    false
                }
            },
        }
    }

    /// Whether a translation target is a position a pose can take.
    pub open spec fn wf(&self) -> bool {
        match *self {
            MotionTarget::Translation { x, y } => abs_int(x as int) <= POSITION_LIMIT && abs_int(
                y as int,
            ) <= POSITION_LIMIT,
            MotionTarget::Rotation { .. } => true,
        }
    }
}

/// The command processor: the real maze and the runner's logical state; the
/// shared pose, velocity, buttons, notes and sensor readings are handed to
/// each request.
pub struct SimEnvironment<const R: usize, const C: usize> {
    maze: Maze<R, C>,
    runner: MazerRunner<R, C>,
}

impl<const R: usize, const C: usize> SimEnvironment<R, C> {
    /// The real maze.
    pub closed spec fn maze(&self) -> Maze<R, C> {
        self.maze
    }

    /// The runner's logical state.
    pub closed spec fn runner(&self) -> MazerRunner<R, C> {
        self.runner
    }

    /// The maze is well formed, the runner is inside it, and every cell
    /// centre is a position a pose can take.
    pub open spec fn wf(&self) -> bool {
        &&& self.maze().wf()
        &&& self.runner().at().wf()
        &&& R <= MAX_MAZE_SIDE
        &&& C <= MAX_MAZE_SIDE
    }

    /// A processor for `maze` with the runner on its start cell; fails when
    /// every edge of the start cell is walled.
    pub fn new(maze: Maze<R, C>) -> (r: Result<Self, RunnerError>)
        requires
            maze.wf(),
            R <= MAX_MAZE_SIDE,
            C <= MAX_MAZE_SIDE,
        ensures
            r is Ok <==> MazerRunner::<R, C>::new_ok(&maze),
            r is Ok ==> r->Ok_0.wf() && r->Ok_0.maze() == maze && MazerRunner::<R, C>::starts(
                &maze,
                r->Ok_0.runner(),
            ),
            r is Err ==> r->Err_0 == RunnerError::StartBlocked,
    {
        let runner = MazerRunner::new(&maze)?;
        Ok(SimEnvironment { maze, runner })
    }

    /// The pose the shared state starts with: (270, 270) millimeters, heading
    /// along +x.
    pub fn initial_position() -> (r: Position)
        ensures
            r.x == 270_000 && r.y == 270_000 && r.theta@ == 0,
            r.wf(),
    {
        Position::new(270_000, 270_000, Angle::degrees(0))
    }

    /// Answers `request`, updating the runner, the real maze and the shared
    /// state handed in. A forward move or a turn sets the velocity going and
    /// asks the caller to await the motion; every other request is answered
    /// at once. Only a failed `Initialize` fails, as the runner cannot start.
    pub fn process_request(
        &mut self,
        request: MazeRunnerRequest,
        pose: &mut Position,
        velocity: &mut Velocity,
        buttons: &mut ButtonsState,
        context: &mut RunnerContext<R, C>,
        readings: &DistanceSensorsReading,
    ) -> (r: Result<Outcome, RunnerError>)
        requires
            old(self).wf(),
            old(pose).wf(),
            old(velocity).wf(),
            old(context).inv(),
        ensures
            final(self).wf(),
            final(self).maze() == old(self).maze(),
            final(pose).wf(),
            final(velocity).wf(),
            final(context).inv(),
            r is Ok ==> match r->Ok_0 {
                Outcome::AwaitMotion(t) => t.wf(),
                _ => true,
            },
            request != MazeRunnerRequest::Initialize ==> r is Ok,
            !(request is Initialize || request is MoveForward || request is RotateLeft90
                || request is RotateRight90) ==> final(self).runner() == old(self).runner(),
            !(request is Initialize) ==> *final(pose) == *old(pose),
            !(request is MoveForward || request is RotateLeft90 || request is RotateRight90
                || request is SetVelocity) ==> *final(velocity) == *old(velocity),
            !(request is GetButtonsState) ==> *final(buttons) == *old(buttons),
            !(request is UpdateCellState || request is ClearCell || request is UpdateCellValue)
                ==> *final(context) == *old(context),
            match request {
                MazeRunnerRequest::Initialize => {
                    &&& r is Ok <==> MazerRunner::<R, C>::new_ok(&old(self).maze())
                    &&& r is Ok ==> r == Ok::<Outcome, RunnerError>(
                        Outcome::Respond(MazeRunnerResponse::Ack),
                    ) && MazerRunner::<R, C>::starts(&old(self).maze(), final(self).runner())
                        && final(pose).x == crate::runner::cell_center(
                        final(self).runner().at().x as int,
                    ) && final(pose).y == crate::runner::cell_center(
                        final(self).runner().at().y as int,
                    ) && final(pose).theta@ == heading_of(final(self).runner().facing())
                    &&& r is Err ==> r->Err_0 == RunnerError::StartBlocked && final(self).runner()
                        == old(self).runner() && *final(pose) == *old(pose)
                },
                MazeRunnerRequest::GetWallFront => r == Ok::<Outcome, RunnerError>(
                    Outcome::Respond(
                        MazeRunnerResponse::WallDetected(
                            old(self).runner().sees_wall(&old(self).maze(), SensorDirection::Front),
                        ),
                    ),
                ),
                MazeRunnerRequest::GetWallLeft => r == Ok::<Outcome, RunnerError>(
                    Outcome::Respond(
                        MazeRunnerResponse::WallDetected(
                            old(self).runner().sees_wall(&old(self).maze(), SensorDirection::Left),
                        ),
                    ),
                ),
                MazeRunnerRequest::GetWallRight => r == Ok::<Outcome, RunnerError>(
                    Outcome::Respond(
                        MazeRunnerResponse::WallDetected(
                            old(self).runner().sees_wall(&old(self).maze(), SensorDirection::Right),
                        ),
                    ),
                ),
                MazeRunnerRequest::MoveForward => {
                    let (nx, ny) = crate::runner::step_towards(
                        old(self).runner().at().x as int,
                        old(self).runner().at().y as int,
                        old(self).runner().facing(),
                    );
                    let free = !old(self).runner().sees_wall(
                        &old(self).maze(),
                        SensorDirection::Front,
                    ) && 0 <= nx < C && 0 <= ny < R;
                    &&& !free ==> r == Ok::<Outcome, RunnerError>(
                        Outcome::Respond(MazeRunnerResponse::Error),
                    ) && final(self).runner() == old(self).runner() && *final(velocity) == *old(velocity)
                    &&& free ==> final(self).runner().at().x == nx && final(self).runner().at().y
                        == ny && final(self).runner().facing() == old(self).runner().facing()
                        && *final(velocity) == (Velocity {
                        translational: TRANSLATIONAL_VELOCITY,
                        rotational: 0,
                    }) && r == Ok::<Outcome, RunnerError>(
                        Outcome::AwaitMotion(
                            MotionTarget::Translation {
                                x: crate::runner::cell_center(nx) as i64,
                                y: crate::runner::cell_center(ny) as i64,
                            },
                        ),
                    )
                },
                MazeRunnerRequest::RotateLeft90 => {
                    &&& final(self).runner().at() == old(self).runner().at()
                    &&& final(self).runner().facing() == rotated(
                        old(self).runner().facing(),
                        RotationDirection::Left,
                    )
                    &&& *final(velocity) == (Velocity {
                        translational: 0,
                        rotational: ROTATIONAL_VELOCITY,
                    })
                    &&& r is Ok
                    &&& (r->Ok_0 matches Outcome::AwaitMotion(MotionTarget::Rotation { theta })
                        && theta@ == heading_of(final(self).runner().facing()))
                },
                MazeRunnerRequest::RotateRight90 => {
                    &&& final(self).runner().at() == old(self).runner().at()
                    &&& final(self).runner().facing() == rotated(
                        old(self).runner().facing(),
                        RotationDirection::Right,
                    )
                    &&& *final(velocity) == (Velocity {
                        translational: 0,
                        rotational: (-ROTATIONAL_VELOCITY) as i64,
                    })
                    &&& r is Ok
                    &&& (r->Ok_0 matches Outcome::AwaitMotion(MotionTarget::Rotation { theta })
                        && theta@ == heading_of(final(self).runner().facing()))
                },
                MazeRunnerRequest::GetButtonsState => {
                    &&& r == Ok::<Outcome, RunnerError>(
                        Outcome::Respond(MazeRunnerResponse::Buttons(*old(buttons))),
                    )
                    &&& final(buttons)@ == 0
                },
                MazeRunnerRequest::UpdateCellState { x, y, state } => {
                    &&& !(x < C && y < R) ==> r == Ok::<Outcome, RunnerError>(
                        Outcome::Respond(MazeRunnerResponse::Error),
                    ) && *final(context) == *old(context)
                    &&& (x < C && y < R) ==> r == Ok::<Outcome, RunnerError>(
                        Outcome::Respond(MazeRunnerResponse::Ack),
                    ) && (forall|i: int, j: int|
                        0 <= i < C && 0 <= j < R ==> #[trigger] final(context).notes().bits_at(i, j)
                            == updated_bits(
                            &old(context).notes(),
                            Cell::<R, C> { x, y },
                            state@,
                            true,
                            i,
                            j,
                        )) && (forall|i: int, j: int| #[trigger]
                        final(context).value_at(i, j) == old(context).value_at(i, j))
                },
                MazeRunnerRequest::ClearCell { x, y } => {
                    &&& !(x < C && y < R) ==> r == Ok::<Outcome, RunnerError>(
                        Outcome::Respond(MazeRunnerResponse::Error),
                    ) && *final(context) == *old(context)
                    &&& (x < C && y < R) ==> r == Ok::<Outcome, RunnerError>(
                        Outcome::Respond(MazeRunnerResponse::Ack),
                    ) && (forall|i: int, j: int|
                        0 <= i < C && 0 <= j < R ==> #[trigger] final(context).notes().bits_at(i, j)
                            == updated_bits(
                            &old(context).notes(),
                            Cell::<R, C> { x, y },
                            ALL_CELL_FLAGS,
                            false,
                            i,
                            j,
                        )) && (forall|i: int, j: int|
                        0 <= i < C && 0 <= j < R ==> #[trigger] final(context).value_at(i, j) == (
                        if i == x && j == y {
                            None
                        } else {
                            old(context).value_at(i, j)
                        }))
                },
                MazeRunnerRequest::UpdateCellValue { x, y, value } => {
                    &&& !(x < C && y < R) ==> r == Ok::<Outcome, RunnerError>(
                        Outcome::Respond(MazeRunnerResponse::Error),
                    ) && *final(context) == *old(context)
                    &&& (x < C && y < R) ==> r == Ok::<Outcome, RunnerError>(
                        Outcome::Respond(MazeRunnerResponse::Ack),
                    ) && final(context).notes() == old(context).notes() && (forall|i: int, j: int|
                        0 <= i < C && 0 <= j < R ==> #[trigger] final(context).value_at(i, j) == (
                        if i == x && j == y {
                            Some(value)
                        } else {
                            old(context).value_at(i, j)
                        }))
                },
                MazeRunnerRequest::GetDistanceReadout { sensor } => r == Ok::<
                    Outcome,
                    RunnerError,
                >(
                    Outcome::Respond(
                        MazeRunnerResponse::Distance(
                            wire_distance(
                                match sensor {
                                    DistanceSensor::FrontLeft => readings.fl,
                                    DistanceSensor::FrontRight => readings.fr,
                                    DistanceSensor::DiagonalLeft => readings.dl,
                                    DistanceSensor::DiagonalRight => readings.dr,
                                } as int,
                            ),
                        ),
                    ),
                ),
                MazeRunnerRequest::GetMotionReadout => r == Ok::<Outcome, RunnerError>(
                    Outcome::Respond(
                        MazeRunnerResponse::Motion(
                            MotionReadout {
                                x: (old(pose).x as int / UM_PER_MM as int) as i32,
                                y: (old(pose).y as int / UM_PER_MM as int) as i32,
                                theta: old(pose).theta@ as i64,
                                velocity_translational: old(velocity).translational,
                                velocity_rotational: old(velocity).rotational,
                            },
                        ),
                    ),
                ),
                MazeRunnerRequest::SetVelocity { translational, rotational } => {
                    &&& r == Ok::<Outcome, RunnerError>(
                        Outcome::Respond(MazeRunnerResponse::Ack),
                    )
                    &&& final(velocity).translational == clamped(
                        translational as int,
                        VELOCITY_LIMIT as int,
                    )
                    &&& final(velocity).rotational == clamped(
                        rotational as int,
                        VELOCITY_LIMIT as int,
                    )
                },
            },
    {
        match request {
            MazeRunnerRequest::Initialize => {
                let runner = MazerRunner::new(&self.maze)?;
                self.runner = runner;
                *pose = self.runner.get_real_position();
                Ok(Outcome::Respond(MazeRunnerResponse::Ack))
            },
            MazeRunnerRequest::GetWallFront => Ok(
                Outcome::Respond(
                    MazeRunnerResponse::WallDetected(
                        self.runner.is_wall_detected(&self.maze, SensorDirection::Front),
                    ),
                ),
            ),
            MazeRunnerRequest::GetWallLeft => Ok(
                Outcome::Respond(
                    MazeRunnerResponse::WallDetected(
                        self.runner.is_wall_detected(&self.maze, SensorDirection::Left),
                    ),
                ),
            ),
            MazeRunnerRequest::GetWallRight => Ok(
                Outcome::Respond(
                    MazeRunnerResponse::WallDetected(
                        self.runner.is_wall_detected(&self.maze, SensorDirection::Right),
                    ),
                ),
            ),
            MazeRunnerRequest::MoveForward => Ok(self.process_move_forward(velocity)),
            MazeRunnerRequest::RotateLeft90 => Ok(
                self.process_rotate(RotationDirection::Left, velocity),
            ),
            MazeRunnerRequest::RotateRight90 => Ok(
                self.process_rotate(RotationDirection::Right, velocity),
            ),
            MazeRunnerRequest::GetButtonsState => Ok(
                Outcome::Respond(process_buttons(buttons)),
            ),
            MazeRunnerRequest::UpdateCellState { x, y, state } => {
                match Cell::<R, C>::new(x, y) {
                    Ok(cell) => {
                        context.set_cell_state(cell, state);
                        Ok(Outcome::Respond(MazeRunnerResponse::Ack))
                    },
                    Err(_) => Ok(Outcome::Respond(MazeRunnerResponse::Error)),
                }
            },
            MazeRunnerRequest::ClearCell { x, y } => {
                match Cell::<R, C>::new(x, y) {
                    Ok(cell) => {
                        context.clear_cell(cell);
                        Ok(Outcome::Respond(MazeRunnerResponse::Ack))
                    },
                    Err(_) => Ok(Outcome::Respond(MazeRunnerResponse::Error)),
                }
            },
            MazeRunnerRequest::UpdateCellValue { x, y, value } => {
                match Cell::<R, C>::new(x, y) {
                    Ok(cell) => {
                        context.set_cell_value(cell, value);
                        Ok(Outcome::Respond(MazeRunnerResponse::Ack))
                    },
                    Err(_) => Ok(Outcome::Respond(MazeRunnerResponse::Error)),
                }
            },
            MazeRunnerRequest::GetDistanceReadout { sensor } => Ok(
                Outcome::Respond(process_distance_readout(readings, sensor)),
            ),
            MazeRunnerRequest::GetMotionReadout => Ok(
                Outcome::Respond(process_motion_readout(pose, velocity)),
            ),
            MazeRunnerRequest::SetVelocity { translational, rotational } => Ok(
                Outcome::Respond(process_set_velocity(velocity, translational, rotational)),
            ),
        }
    }

    /// Moves the runner one cell forward and sets the forward speed, or
    /// answers `Error` when the way is blocked.
    fn process_move_forward(&mut self, velocity: &mut Velocity) -> (r: Outcome)
        requires
            old(self).wf(),
            old(velocity).wf(),
        ensures
            final(self).wf(),
            final(self).maze() == old(self).maze(),
            final(velocity).wf(),
            match r {
                Outcome::AwaitMotion(t) => t.wf(),
                _ => true,
            },
            ({
                let (nx, ny) = crate::runner::step_towards(
                    old(self).runner().at().x as int,
                    old(self).runner().at().y as int,
                    old(self).runner().facing(),
                );
                let free = !old(self).runner().sees_wall(
                    &old(self).maze(),
                    SensorDirection::Front,
                ) && 0 <= nx < C && 0 <= ny < R;
                &&& !free ==> r == Outcome::Respond(MazeRunnerResponse::Error) && final(self).runner() == old(self).runner() && *final(velocity) == *old(velocity)
                &&& free ==> final(self).runner().at().x == nx && final(self).runner().at().y
                    == ny && final(self).runner().facing() == old(self).runner().facing()
                    && *final(velocity) == (Velocity {
                    translational: TRANSLATIONAL_VELOCITY,
                    rotational: 0,
                }) && r == Outcome::AwaitMotion(
                    MotionTarget::Translation {
                        x: crate::runner::cell_center(nx) as i64,
                        y: crate::runner::cell_center(ny) as i64,
                    },
                )
            }),
    {
        if self.runner.move_forward(&self.maze).is_err() {
            return Outcome::Respond(MazeRunnerResponse::Error);
        }
        let next_position = self.runner.get_real_position();
        velocity.translational = TRANSLATIONAL_VELOCITY;
        velocity.rotational = 0;
        Outcome::AwaitMotion(MotionTarget::Translation { x: next_position.x, y: next_position.y })
    }

    /// Turns the runner a quarter turn towards `direction` and sets the
    /// turning speed.
    fn process_rotate(&mut self, direction: RotationDirection, velocity: &mut Velocity) -> (r:
        Outcome)
        requires
            old(self).wf(),
        ensures
            final(self).wf(),
            final(self).maze() == old(self).maze(),
            final(velocity).wf(),
            final(self).runner().at() == old(self).runner().at(),
            final(self).runner().facing() == rotated(old(self).runner().facing(), direction),
            *final(velocity) == (Velocity {
                translational: 0,
                rotational: match direction {
                    RotationDirection::Left => ROTATIONAL_VELOCITY,
                    RotationDirection::Right => (-ROTATIONAL_VELOCITY) as i64,
                },
            }),
            r matches Outcome::AwaitMotion(MotionTarget::Rotation { theta }) && theta@
                == heading_of(final(self).runner().facing()),
    {
        self.runner.rotate(direction);
        let next_position = self.runner.get_real_position();
        velocity.translational = 0;
        velocity.rotational = match direction {
            RotationDirection::Left => ROTATIONAL_VELOCITY,
            RotationDirection::Right => -ROTATIONAL_VELOCITY,
        };
        Outcome::AwaitMotion(MotionTarget::Rotation { theta: next_position.theta })
    }
}

/// Reads and clears the buttons.
pub fn process_buttons(buttons: &mut ButtonsState) -> (r: MazeRunnerResponse)
    ensures
        r == MazeRunnerResponse::Buttons(*old(buttons)),
        final(buttons)@ == 0,
{
    let response = *buttons;
    *buttons = ButtonsState::empty();
    MazeRunnerResponse::Buttons(response)
}

/// The last distance measured by `sensor`, as the protocol carries it.
pub fn process_distance_readout(readings: &DistanceSensorsReading, sensor: DistanceSensor) -> (r:
    MazeRunnerResponse)
    ensures
        r == MazeRunnerResponse::Distance(
            wire_distance(
                match sensor {
                    DistanceSensor::FrontLeft => readings.fl,
                    DistanceSensor::FrontRight => readings.fr,
                    DistanceSensor::DiagonalLeft => readings.dl,
                    DistanceSensor::DiagonalRight => readings.dr,
                } as int,
            ),
        ),
{
    let d = readings.distance(sensor) as i64;
    let q = floor_div(d, 65536);
    proof {
        vstd::arithmetic::div_mod::lemma_fundamental_div_mod(d as int, 65536);
    }
    let m = d - q * 65536;
    MazeRunnerResponse::Distance(m as u16)
}

/// A snapshot of `pose` and `velocity`, with the position in whole
/// millimeters rounded down.
pub fn process_motion_readout(pose: &Position, velocity: &Velocity) -> (r: MazeRunnerResponse)
    requires
        pose.wf(),
    ensures
        r == MazeRunnerResponse::Motion(
            MotionReadout {
                x: (pose.x as int / UM_PER_MM as int) as i32,
                y: (pose.y as int / UM_PER_MM as int) as i32,
                theta: pose.theta@ as i64,
                velocity_translational: velocity.translational,
                velocity_rotational: velocity.rotational,
            },
        ),
{
    let x = floor_div(pose.x, UM_PER_MM);
    let y = floor_div(pose.y, UM_PER_MM);
    assert(-2_000_000_000 <= x <= 2_000_000_000) by (nonlinear_arith)
        requires
            x == pose.x as int / 1000,
            -1_000_000_000_000 <= pose.x <= 1_000_000_000_000,
    ;
    assert(-2_000_000_000 <= y <= 2_000_000_000) by (nonlinear_arith)
        requires
            y == pose.y as int / 1000,
            -1_000_000_000_000 <= pose.y <= 1_000_000_000_000,
    ;
    MazeRunnerResponse::Motion(
        MotionReadout {
            x: x as i32,
            y: y as i32,
            theta: pose.theta.as_microdegrees(),
            velocity_translational: velocity.translational,
            velocity_rotational: velocity.rotational,
        },
    )
}

/// Overwrites the velocity, each speed held within `VELOCITY_LIMIT`.
pub fn process_set_velocity(velocity: &mut Velocity, translational: i64, rotational: i64) -> (r:
    MazeRunnerResponse)
    ensures
        r == MazeRunnerResponse::Ack,
        final(velocity).translational == clamped(translational as int, VELOCITY_LIMIT as int),
        final(velocity).rotational == clamped(rotational as int, VELOCITY_LIMIT as int),
        final(velocity).wf(),
{
    velocity.translational = clamp_speed(translational);
    velocity.rotational = clamp_speed(rotational);
    MazeRunnerResponse::Ack
}

/// `v` held within `[-VELOCITY_LIMIT, VELOCITY_LIMIT]`.
fn clamp_speed(v: i64) -> (r: i64)
    ensures
        r == clamped(v as int, VELOCITY_LIMIT as int),
{
    if v > VELOCITY_LIMIT {
        VELOCITY_LIMIT
    } else if v < -VELOCITY_LIMIT {
        -VELOCITY_LIMIT
    } else {
        v
    }
}

} // verus!
