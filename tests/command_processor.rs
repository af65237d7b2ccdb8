use micromouse_sim::communication::{
    ButtonsState, DistanceSensor, MazeRunnerRequest, MazeRunnerResponse, MotionReadout,
};
use micromouse_sim::context::RunnerContext;
use micromouse_sim::distance_sensors::DistanceSensorsReading;
use micromouse_sim::environment::{
    process_buttons, process_distance_readout, process_motion_readout, process_set_velocity,
    MotionTarget, Outcome, SimEnvironment,
};
use micromouse_sim::maze::{Cell, CellState, Maze};
use micromouse_sim::position::{Angle, Position, Velocity};
use micromouse_sim::runner::RunnerError;

struct Shared {
    pose: Position,
    velocity: Velocity,
    buttons: ButtonsState,
    context: RunnerContext<2, 2>,
    readings: DistanceSensorsReading,
}

impl Shared {
    fn new() -> Self {
        Shared {
            pose: SimEnvironment::<2, 2>::initial_position(),
            velocity: Velocity::new(),
            buttons: ButtonsState::empty(),
            context: RunnerContext::new(),
            readings: DistanceSensorsReading::new(),
        }
    }
}

fn ask(env: &mut SimEnvironment<2, 2>, s: &mut Shared, req: MazeRunnerRequest) -> Outcome {
    env.process_request(
        req,
        &mut s.pose,
        &mut s.velocity,
        &mut s.buttons,
        &mut s.context,
        &s.readings,
    )
    .unwrap()
}

/// The start cell (0, 0) is walled on the east, south and west: the runner
/// faces north.
fn corridor() -> Maze<2, 2> {
    let mut m = Maze::<2, 2>::new();
    m.update_cell_state(Cell::new(0, 0).unwrap(), CellState::from_bits_retain(0b1110), true);
    m.update_cell_state(Cell::new(0, 1).unwrap(), CellState::north_wall(), true);
    m
}

#[test]
fn end_to_end_session() {
    let mut env = SimEnvironment::new(corridor()).unwrap();
    let mut s = Shared::new();
    assert_eq!(
        ask(&mut env, &mut s, MazeRunnerRequest::Initialize),
        Outcome::Respond(MazeRunnerResponse::Ack)
    );
    assert_eq!((s.pose.x, s.pose.y), (90_000, 90_000));
    assert_eq!(s.pose.theta.as_microdegrees(), 90_000_000);
    assert_eq!(
        ask(&mut env, &mut s, MazeRunnerRequest::GetWallFront),
        Outcome::Respond(MazeRunnerResponse::WallDetected(false))
    );
    assert_eq!(
        ask(&mut env, &mut s, MazeRunnerRequest::GetWallRight),
        Outcome::Respond(MazeRunnerResponse::WallDetected(true))
    );
    // Turning right faces the east wall: moving forward is refused.
    let turn = ask(&mut env, &mut s, MazeRunnerRequest::RotateRight90);
    assert_eq!(
        turn,
        Outcome::AwaitMotion(MotionTarget::Rotation { theta: Angle::degrees(0) })
    );
    assert_eq!(s.velocity.rotational, -400_000_000);
    assert_eq!(
        ask(&mut env, &mut s, MazeRunnerRequest::MoveForward),
        Outcome::Respond(MazeRunnerResponse::Error)
    );

    s.buttons.set(ButtonsState::button1(), true);
    assert_eq!(
        ask(&mut env, &mut s, MazeRunnerRequest::GetButtonsState),
        Outcome::Respond(MazeRunnerResponse::Buttons(ButtonsState::button1()))
    );
    assert_eq!(
        ask(&mut env, &mut s, MazeRunnerRequest::GetButtonsState),
        Outcome::Respond(MazeRunnerResponse::Buttons(ButtonsState::empty()))
    );
}

#[test]
fn forward_move_completes_when_pose_arrives() {
    let mut env = SimEnvironment::new(corridor()).unwrap();
    let mut s = Shared::new();
    ask(&mut env, &mut s, MazeRunnerRequest::Initialize);
    let out = ask(&mut env, &mut s, MazeRunnerRequest::MoveForward);
    let target = match out {
        Outcome::AwaitMotion(t) => t,
        other => panic!("unexpected {:?}", other),
    };
    assert_eq!(target, MotionTarget::Translation { x: 90_000, y: 270_000 });
    assert_eq!((s.velocity.translational, s.velocity.rotational), (400_000, 0));
    assert!(!target.poll(&mut s.pose, &mut s.velocity));
    s.pose.y = 268_500;
    assert!(target.poll(&mut s.pose, &mut s.velocity));
    assert_eq!((s.pose.x, s.pose.y), (90_000, 270_000));
    assert_eq!(s.velocity.translational, 0);
    // The north wall of (0, 1) now stands in front.
    assert_eq!(
        ask(&mut env, &mut s, MazeRunnerRequest::MoveForward),
        Outcome::Respond(MazeRunnerResponse::Error)
    );
}

#[test]
fn rotation_completes_within_a_degree() {
    let target = MotionTarget::Rotation { theta: Angle::degrees(90) };
    let mut pose = Position::new(0, 0, Angle::microdegrees(88_900_000));
    let mut velocity = Velocity { translational: 0, rotational: 400_000_000 };
    assert!(!target.poll(&mut pose, &mut velocity));
    pose.theta = Angle::microdegrees(89_000_001);
    assert!(target.poll(&mut pose, &mut velocity));
    assert_eq!(pose.theta.as_microdegrees(), 90_000_000);
    assert_eq!(velocity.rotational, 0);
}

#[test]
fn blocked_start_fails_initialization() {
    let mut m = Maze::<2, 2>::new();
    m.update_cell_state(Cell::new(0, 0).unwrap(), CellState::from_bits_retain(0b1111), true);
    assert_eq!(SimEnvironment::new(m).err(), Some(RunnerError::StartBlocked));
}

#[test]
fn annotations_are_checked_and_applied() {
    let mut env = SimEnvironment::new(corridor()).unwrap();
    let mut s = Shared::new();
    assert_eq!(
        ask(&mut env, &mut s, MazeRunnerRequest::UpdateCellValue { x: 1, y: 1, value: -7 }),
        Outcome::Respond(MazeRunnerResponse::Ack)
    );
    assert_eq!(s.context.get_cell_value(Cell::new(1, 1).unwrap()), Some(-7));
    assert_eq!(
        ask(
            &mut env,
            &mut s,
            MazeRunnerRequest::UpdateCellState { x: 1, y: 0, state: CellState::north_wall() }
        ),
        Outcome::Respond(MazeRunnerResponse::Ack)
    );
    assert!(s.context.get_cell_state(Cell::new(1, 1).unwrap()).contains(CellState::south_wall()));
    assert_eq!(
        ask(&mut env, &mut s, MazeRunnerRequest::ClearCell { x: 1, y: 1 }),
        Outcome::Respond(MazeRunnerResponse::Ack)
    );
    assert_eq!(s.context.get_cell_value(Cell::new(1, 1).unwrap()), None);
    assert_eq!(s.context.get_cell_state(Cell::new(1, 0).unwrap()).bits(), 0);
    for req in [
        MazeRunnerRequest::UpdateCellValue { x: 2, y: 0, value: 1 },
        MazeRunnerRequest::ClearCell { x: 0, y: 2 },
        MazeRunnerRequest::UpdateCellState { x: 5, y: 5, state: CellState::all() },
    ] {
        assert_eq!(ask(&mut env, &mut s, req), Outcome::Respond(MazeRunnerResponse::Error));
    }
}

#[test]
fn readouts() {
    let mut readings = DistanceSensorsReading::new();
    assert_eq!(
        process_distance_readout(&readings, DistanceSensor::FrontLeft),
        MazeRunnerResponse::Distance(65535)
    );
    readings.dr = 123;
    assert_eq!(
        process_distance_readout(&readings, DistanceSensor::DiagonalRight),
        MazeRunnerResponse::Distance(123)
    );
    let pose = Position::new(1_999, -1, Angle::degrees(45));
    let velocity = Velocity { translational: 5, rotational: -6 };
    assert_eq!(
        process_motion_readout(&pose, &velocity),
        MazeRunnerResponse::Motion(MotionReadout {
            x: 1,
            y: -1,
            theta: 45_000_000,
            velocity_translational: 5,
            velocity_rotational: -6,
        })
    );
}

#[test]
fn set_velocity_and_buttons() {
    let mut v = Velocity::new();
    assert_eq!(process_set_velocity(&mut v, 100, i64::MIN), MazeRunnerResponse::Ack);
    assert_eq!((v.translational, v.rotational), (100, -1_000_000_000_000));
    let mut b = ButtonsState::empty();
    b.set(ButtonsState::reset(), true);
    b.set(ButtonsState::button4(), true);
    assert_eq!(process_buttons(&mut b), MazeRunnerResponse::Buttons(ButtonsState::from_bits_retain(0b1_0001)));
    assert_eq!(b, ButtonsState::empty());
}
