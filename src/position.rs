//! Pose and kinematics in fixed point. Lengths are whole micrometers and
//! angles whole microdegrees, so that normalization into (-180, 180]
//! degrees and whole-degree conversions are exact. Trigonometry enters as
//! fixed-point unit vectors (`Direction`) computed by the caller.

use vstd::prelude::*;
use vstd::arithmetic::div_mod::{lemma_fundamental_div_mod, lemma_fundamental_div_mod_converse};

verus! {

/// Microdegrees in a degree: angles are kept in microdegrees.
pub const MICRODEGREES_PER_DEGREE: i64 = 1_000_000;

/// Half a turn (180 degrees), in microdegrees.
pub const HALF_TURN: i64 = 180_000_000;

/// A full turn (360 degrees), in microdegrees.
pub const FULL_TURN: i64 = 360_000_000;

/// The length of a unit vector in the fixed-point directions.
pub const TRIG_ONE: i64 = 1_000_000;

/// The largest coordinate, in micrometers, that a pose takes.
pub const POSITION_LIMIT: i64 = 1_000_000_000_000;

/// The largest speed, in micrometers or microdegrees per second.
pub const VELOCITY_LIMIT: i64 = 1_000_000_000_000;

/// Integrator ticks per second: one tick is 100 microseconds.
pub const TICKS_PER_SECOND: i64 = 10_000;

/// `v` brought into (-180, 180] degrees by whole turns.
pub open spec fn normalized(v: int) -> int {
    let m = v % (FULL_TURN as int);
    if m > HALF_TURN {
        m - FULL_TURN
    } else {
        m
    }
}

/// Whether `v` is a normalized angle.
pub open spec fn in_turn(v: int) -> bool {
    -HALF_TURN < v <= HALF_TURN
}

/// The absolute value of `v`.
pub open spec fn abs_int(v: int) -> int {
    if v < 0 {
        -v
    } else {
        v
    }
}

/// `a` divided by `d`, rounded towards zero.
pub open spec fn div_toward_zero(a: int, d: int) -> int {
    if (a >= 0) == (d > 0) {
        abs_int(a) / abs_int(d)
    } else {
        -(abs_int(a) / abs_int(d))
    }
}

/// `v` held within `[-limit, limit]`.
pub open spec fn clamped(v: int, limit: int) -> int {
    if v > limit {
        limit
    } else if v < -limit {
        -limit
    } else {
        v
    }
}

/// A normalized angle differs from its input by whole turns and lies in
/// (-180, 180] degrees.
pub proof fn lemma_normalized(v: int)
    ensures
        in_turn(normalized(v)),
        (v - normalized(v)) % (FULL_TURN as int) == 0,
        in_turn(v) ==> normalized(v) == v,
{
    let f = FULL_TURN as int;
    lemma_fundamental_div_mod(v, f);
    let q = v / f;
    let m = v % f;
    if m > HALF_TURN {
        lemma_fundamental_div_mod_converse(v - (m - f), f, q + 1, 0);
    } else {
        lemma_fundamental_div_mod_converse(v - m, f, q, 0);
    }
    if in_turn(v) {
        if v >= 0 {
            lemma_fundamental_div_mod_converse(v, f, 0, v);
        } else {
            lemma_fundamental_div_mod_converse(v, f, -1, v + f);
        }
    }
}

/// `a` divided by `d` rounded down, for a positive `d`.
pub fn floor_div(a: i64, d: i64) -> (r: i64)
    requires
        d > 0,
    ensures
        r == a as int / d as int,
{
    if a >= 0 {
        a / d
    } else {
        let b: i64 = -(a + 1);
        let q: i64 = b / d;
        proof {
            lemma_fundamental_div_mod(b as int, d as int);
            let s = b as int % d as int;
            assert(a == (-q - 1) * d + (d - 1 - s)) by (nonlinear_arith)
                requires
                    b == d * q + s,
                    a == -b - 1,
            ;
            lemma_fundamental_div_mod_converse(a as int, d as int, -q - 1, d - 1 - s);
        }
        -q - 1
    }
}

/// An angle in microdegrees, always normalized into (-180, 180] degrees.
/// Zero points along +x; positive angles turn counter-clockwise.
#[derive(Clone, Copy, Debug, PartialEq, Eq, Structural)]
pub struct Angle {
    value: i64,
}

impl View for Angle {
    type V = int;

    closed spec fn view(&self) -> int {
        self.value as int
    }
}

impl Angle {
    #[verifier::type_invariant]
    spec fn normalized_value(self) -> bool {
        in_turn(self.value as int)
    }

    /// The angle of `value` microdegrees, normalized.
    pub fn microdegrees(value: i64) -> (r: Angle)
        ensures
            r@ == normalized(value as int),
    {
        let m: i64 = if value >= 0 {
            value % FULL_TURN
        } else {
            let b: i64 = -(value + 1);
            proof {
                lemma_fundamental_div_mod(b as int, FULL_TURN as int);
                let q = b as int / FULL_TURN as int;
                let s = b as int % FULL_TURN as int;
                assert(value == (-q - 1) * FULL_TURN + (FULL_TURN - 1 - s)) by (nonlinear_arith)
                    requires
                        b == FULL_TURN * q + s,
                        value == -b - 1,
                ;
                lemma_fundamental_div_mod_converse(
                    value as int,
                    FULL_TURN as int,
                    -q - 1,
                    FULL_TURN - 1 - s,
                );
            }
            FULL_TURN - 1 - b % FULL_TURN
        };
        let v = if m > HALF_TURN {
            m - FULL_TURN
        } else {
            m
        };
        proof {
            lemma_normalized(value as int);
        }
        Angle { value: v }
    }

    /// The angle of `value` whole degrees, normalized.
    pub fn degrees(value: i32) -> (r: Angle)
        ensures
            r@ == normalized(value * MICRODEGREES_PER_DEGREE),
    {
        Angle::microdegrees(value as i64 * MICRODEGREES_PER_DEGREE)
    }

    /// The angle in microdegrees.
    pub fn as_microdegrees(&self) -> (r: i64)
        ensures
            r == self@,
            in_turn(r as int),
    {
        proof {
            use_type_invariant(self);
        }
        self.value
    }

    /// The absolute value of the angle.
    pub fn abs(&self) -> (r: Angle)
        ensures
            r@ == abs_int(self@),
    {
        proof {
            use_type_invariant(self);
        }
        if self.value < 0 {
            Angle { value: -self.value }
        } else {
            Angle { value: self.value }
        }
    }

    /// The sum of two angles, normalized.
    pub fn add(self, rhs: Angle) -> (r: Angle)
        ensures
            r@ == normalized(self@ + rhs@),
    {
        proof {
            use_type_invariant(self);
            use_type_invariant(rhs);
        }
        Angle::microdegrees(self.value + rhs.value)
    }

    /// The difference of two angles, normalized.
    pub fn sub(self, rhs: Angle) -> (r: Angle)
        ensures
            r@ == normalized(self@ - rhs@),
    {
        proof {
            use_type_invariant(self);
            use_type_invariant(rhs);
        }
        Angle::microdegrees(self.value - rhs.value)
    }

    /// The angle divided by `rhs`, rounded towards zero and normalized.
    pub fn div(self, rhs: i64) -> (r: Angle)
        requires
            rhs != 0,
        ensures
            r@ == normalized(div_toward_zero(self@, rhs as int)),
    {
        proof {
            use_type_invariant(self);
        }
        let a: i64 = if self.value < 0 {
            -self.value
        } else {
            self.value
        };
        let d: i64 = if rhs < 0 {
            if rhs < -HALF_TURN {
                HALF_TURN + 1
            } else {
                -rhs
            }
        } else {
            rhs
        };
        let q: i64 = a / d;
        proof {
            if rhs < -HALF_TURN {
                assert(abs_int(self@) / abs_int(rhs as int) == 0) by (nonlinear_arith)
                    requires
                        0 <= abs_int(self@) <= HALF_TURN,
                        abs_int(rhs as int) > HALF_TURN,
                ;
                assert(a as int / d as int == 0) by (nonlinear_arith)
                    requires
                        0 <= a <= HALF_TURN,
                        d > HALF_TURN,
                ;
            }
        }
        let v = if (self.value >= 0) == (rhs > 0) {
            q
        } else {
            -q
        };
        Angle::microdegrees(v)
    }

    /// Whether the two angles are less than `difference` apart.
    pub fn is_within(&self, other: &Angle, difference: Angle) -> (r: bool)
        ensures
            r == (abs_int(normalized(self@ - other@)) < difference@),
    {
        self.sub(*other).abs().as_microdegrees() < difference.as_microdegrees()
    }
}

/// A unit vector in fixed point: `cos` and `sin` of some angle, scaled by
/// `TRIG_ONE`.
#[derive(Clone, Copy, Debug, PartialEq, Eq, Structural)]
pub struct Direction {
    pub cos: i64,
    pub sin: i64,
}

impl Direction {
    /// Whether both components are at most one unit.
    pub open spec fn wf(&self) -> bool {
        abs_int(self.cos as int) <= TRIG_ONE && abs_int(self.sin as int) <= TRIG_ONE
    }
}

/// The robot pose: position in micrometers and heading.
#[derive(Clone, Copy, Debug, PartialEq, Eq, Structural)]
pub struct Position {
    pub x: i64,
    pub y: i64,
    pub theta: Angle,
}

impl Position {
    /// Whether both coordinates lie within `POSITION_LIMIT`.
    pub open spec fn wf(&self) -> bool {
        abs_int(self.x as int) <= POSITION_LIMIT && abs_int(self.y as int) <= POSITION_LIMIT
    }

    /// The pose at (`x`, `y`) micrometers with heading `theta`.
    pub fn new(x: i64, y: i64, theta: Angle) -> (r: Position)
        ensures
            r.x == x && r.y == y && r.theta == theta,
    {
        Position { x, y, theta }
    }

    /// Advances the pose by one integrator tick at `velocity`, where `heading`
    /// is the unit vector of the current heading: each coordinate moves by the
    /// speed times the heading component over one tick, rounded down and held
    /// within `POSITION_LIMIT`; the heading turns by the rotational speed over
    /// one tick, rounded down.
    pub fn advance(&mut self, velocity: &Velocity, heading: &Direction)
        requires
            velocity.wf(),
            heading.wf(),
        ensures
            final(self).wf(),
            final(self).x == clamped(
                old(self).x + (velocity.translational * heading.cos) / (TRIG_ONE * TICKS_PER_SECOND),
                POSITION_LIMIT as int,
            ),
            final(self).y == clamped(
                old(self).y + (velocity.translational * heading.sin) / (TRIG_ONE * TICKS_PER_SECOND),
                POSITION_LIMIT as int,
            ),
            final(self).theta@ == normalized(
                old(self).theta@ + normalized(velocity.rotational / TICKS_PER_SECOND),
            ),
    {
        let t = velocity.translational;
        assert(abs_int(t * heading.cos) <= VELOCITY_LIMIT * TRIG_ONE) by (nonlinear_arith)
            requires
                abs_int(t as int) <= VELOCITY_LIMIT,
                abs_int(heading.cos as int) <= TRIG_ONE,
        ;
        assert(abs_int(t * heading.sin) <= VELOCITY_LIMIT * TRIG_ONE) by (nonlinear_arith)
            requires
                abs_int(t as int) <= VELOCITY_LIMIT,
                abs_int(heading.sin as int) <= TRIG_ONE,
        ;
        let dx = floor_div(t * heading.cos, TRIG_ONE * TICKS_PER_SECOND);
        let dy = floor_div(t * heading.sin, TRIG_ONE * TICKS_PER_SECOND);
        self.x = clamp_coordinate(self.x as i128 + dx as i128);
        self.y = clamp_coordinate(self.y as i128 + dy as i128);
        let dtheta = Angle::microdegrees(floor_div(velocity.rotational, TICKS_PER_SECOND));
        self.theta = self.theta.add(dtheta);
    }
}

/// `v` held within `[-POSITION_LIMIT, POSITION_LIMIT]`.
fn clamp_coordinate(v: i128) -> (r: i64)
    ensures
        r == clamped(v as int, POSITION_LIMIT as int),
{
    if v > POSITION_LIMIT as i128 {
        POSITION_LIMIT
    } else if v < -(POSITION_LIMIT as i128) {
        -POSITION_LIMIT
    } else {
        v as i64
    }
}

/// The velocity vector: translational in micrometers per second, rotational
/// in microdegrees per second (positive turns counter-clockwise).
#[derive(Clone, Copy, Debug, PartialEq, Eq, Structural)]
pub struct Velocity {
    pub translational: i64,
    pub rotational: i64,
}

impl Velocity {
    /// Whether both speeds lie within `VELOCITY_LIMIT`.
    pub open spec fn wf(&self) -> bool {
        abs_int(self.translational as int) <= VELOCITY_LIMIT && abs_int(self.rotational as int)
            <= VELOCITY_LIMIT
    }

    /// Standing still.
    pub fn new() -> (r: Velocity)
        ensures
            r.translational == 0 && r.rotational == 0,
            r.wf(),
    {
        Velocity { translational: 0, rotational: 0 }
    }
}

} // verus!
