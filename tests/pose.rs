use micromouse_sim::position::{floor_div, Angle, Direction, Position, Velocity};

#[test]
fn right_angles_add_to_a_half_turn() {
    let a = Angle::degrees(90).add(Angle::degrees(90));
    assert_eq!(a.as_microdegrees(), 180_000_000);
}

#[test]
fn half_turns_add_to_zero() {
    let a = Angle::degrees(180).add(Angle::degrees(180));
    assert_eq!(a.as_microdegrees(), 0);
}

#[test]
fn normalization_range() {
    assert_eq!(Angle::degrees(-180).as_microdegrees(), 180_000_000);
    assert_eq!(Angle::degrees(270).as_microdegrees(), -90_000_000);
    assert_eq!(Angle::degrees(-270).as_microdegrees(), 90_000_000);
    assert_eq!(Angle::degrees(720).as_microdegrees(), 0);
    assert_eq!(Angle::microdegrees(-1).as_microdegrees(), -1);
    assert_eq!(Angle::microdegrees(180_000_001).as_microdegrees(), -179_999_999);
    for v in [i64::MIN, i64::MAX, -360_000_000, 359_999_999, 12_345_678_901] {
        let a = Angle::microdegrees(v).as_microdegrees();
        assert!(-180_000_000 < a && a <= 180_000_000);
        assert_eq!((v as i128 - a as i128) % 360_000_000, 0);
    }
}

#[test]
fn subtraction_abs_and_within() {
    let a = Angle::degrees(170);
    let b = Angle::degrees(-170);
    assert_eq!(a.sub(b).as_microdegrees(), -20_000_000);
    assert_eq!(a.sub(b).abs().as_microdegrees(), 20_000_000);
    assert!(a.is_within(&b, Angle::degrees(21)));
    assert!(!a.is_within(&b, Angle::degrees(20)));
}

#[test]
fn division_rounds_towards_zero() {
    assert_eq!(Angle::microdegrees(-7).div(2).as_microdegrees(), -3);
    assert_eq!(Angle::degrees(90).div(-2).as_microdegrees(), -45_000_000);
    assert_eq!(Angle::degrees(-180).div(-1).as_microdegrees(), 180_000_000);
    assert_eq!(Angle::degrees(180).div(-1).as_microdegrees(), 180_000_000);
    assert_eq!(Angle::degrees(100).div(i64::MIN).as_microdegrees(), 0);
}

#[test]
fn floor_division() {
    assert_eq!(floor_div(7, 2), 3);
    assert_eq!(floor_div(-7, 2), -4);
    assert_eq!(floor_div(-8, 2), -4);
    assert_eq!(floor_div(i64::MIN, 1), i64::MIN);
}

#[test]
fn integrator_step() {
    let mut p = Position::new(90_000, 90_000, Angle::degrees(0));
    let v = Velocity { translational: 400_000, rotational: 400_000_000 };
    p.advance(&v, &Direction { cos: 1_000_000, sin: 0 });
    assert_eq!((p.x, p.y), (90_040, 90_000));
    assert_eq!(p.theta.as_microdegrees(), 40_000);
    let v = Velocity { translational: -400_000, rotational: -5 };
    p.advance(&v, &Direction { cos: 0, sin: 1_000_000 });
    assert_eq!((p.x, p.y), (90_040, 89_960));
    assert_eq!(p.theta.as_microdegrees(), 39_999);
}

#[test]
fn integrator_holds_position_within_limit() {
    let mut p = Position::new(999_999_999_990, 0, Angle::degrees(0));
    let v = Velocity { translational: 1_000_000_000_000, rotational: 0 };
    p.advance(&v, &Direction { cos: 1_000_000, sin: 0 });
    assert_eq!(p.x, 1_000_000_000_000);
}

#[test]
fn velocity_starts_at_rest() {
    let v = Velocity::new();
    assert_eq!((v.translational, v.rotational), (0, 0));
}
