//! The protocol's requests and responses, and the buttons bit set.

use vstd::prelude::*;

use crate::maze::CellState;

verus! {

/// The reset button.
pub const BUTTON_RESET: u8 = 0b0000_0001;

/// The first generic button.
pub const BUTTON_1: u8 = 0b0000_0010;

/// The second generic button.
pub const BUTTON_2: u8 = 0b0000_0100;

/// The third generic button.
pub const BUTTON_3: u8 = 0b0000_1000;

/// The fourth generic button.
pub const BUTTON_4: u8 = 0b0001_0000;

/// Every button.
pub const ALL_BUTTONS: u8 = 0b0001_1111;

/// The buttons pressed since they were last read, as a bit set.
#[derive(Clone, Copy, Debug, PartialEq, Eq, Hash, Default, Structural)]
pub struct ButtonsState {
    bits: u8,
}

impl View for ButtonsState {
    type V = u8;

    closed spec fn view(&self) -> u8 {
        self.bits
    }
}

impl ButtonsState {
    /// A bit set holding exactly `bits`.
    pub fn from_bits_retain(bits: u8) -> (r: ButtonsState)
        ensures
            r@ == bits,
    {
        ButtonsState { bits }
    }

    /// The raw bits of the set.
    pub fn bits(&self) -> (r: u8)
        ensures
            r == self@,
    {
        self.bits
    }

    /// No button.
    pub fn empty() -> (r: ButtonsState)
        ensures
            r@ == 0,
    {
        ButtonsState { bits: 0 }
    }

    /// Every button.
    pub fn all() -> (r: ButtonsState)
        ensures
            r@ == ALL_BUTTONS,
    {
        ButtonsState { bits: ALL_BUTTONS }
    }

    /// The reset button alone.
    pub fn reset() -> (r: ButtonsState)
        ensures
            r@ == BUTTON_RESET,
    {
        ButtonsState { bits: BUTTON_RESET }
    }

    /// The first generic button alone.
    pub fn button1() -> (r: ButtonsState)
        ensures
            r@ == BUTTON_1,
    {
        ButtonsState { bits: BUTTON_1 }
    }

    /// The second generic button alone.
    pub fn button2() -> (r: ButtonsState)
        ensures
            r@ == BUTTON_2,
    {
        ButtonsState { bits: BUTTON_2 }
    }

    /// The third generic button alone.
    pub fn button3() -> (r: ButtonsState)
        ensures
            r@ == BUTTON_3,
    {
        ButtonsState { bits: BUTTON_3 }
    }

    /// The fourth generic button alone.
    pub fn button4() -> (r: ButtonsState)
        ensures
            r@ == BUTTON_4,
    {
        ButtonsState { bits: BUTTON_4 }
    }

    /// Whether every button of `other` is in the set.
    pub fn contains(&self, other: ButtonsState) -> (r: bool)
        ensures
            r == (self@ & other@ == other@),
    {
        self.bits & other.bits == other.bits
    }

    /// Adds (`value`) or removes the buttons of `other`.
    pub fn set(&mut self, other: ButtonsState, value: bool)
        ensures
            final(self)@ == (if value {
                old(self)@ | other@
            } else {
                old(self)@ & !other@
            }),
    {
        if value {
            self.bits = self.bits | other.bits;
        } else {
            self.bits = self.bits & !other.bits;
        }
    }
}

/// One of the four distance sensors.
#[derive(Clone, Copy, Debug, PartialEq, Eq, Structural)]
pub enum DistanceSensor {
    FrontLeft,
    FrontRight,
    DiagonalLeft,
    DiagonalRight,
}

/// A snapshot of the pose and the velocity: position in millimeters, heading
/// in microdegrees, speeds in micrometers and microdegrees per second.
#[derive(Clone, Copy, Debug, PartialEq, Eq, Structural)]
pub struct MotionReadout {
    pub x: i32,
    pub y: i32,
    pub theta: i64,
    pub velocity_translational: i64,
    pub velocity_rotational: i64,
}

/// A request of the robot protocol.
#[derive(Clone, Copy, Debug, PartialEq, Eq, Structural)]
pub enum MazeRunnerRequest {
    Initialize,
    MoveForward,
    RotateRight90,
    RotateLeft90,
    GetWallFront,
    GetWallRight,
    GetWallLeft,
    GetButtonsState,
    UpdateCellState { x: usize, y: usize, state: CellState },
    ClearCell { x: usize, y: usize },
    UpdateCellValue { x: usize, y: usize, value: i32 },
    GetDistanceReadout { sensor: DistanceSensor },
    GetMotionReadout,
    /// Speeds in micrometers and microdegrees per second.
    SetVelocity { translational: i64, rotational: i64 },
}

/// A response of the robot protocol.
#[derive(Clone, Copy, Debug, PartialEq, Eq, Structural)]
pub enum MazeRunnerResponse {
    Ack,
    Error,
    WallDetected(bool),
    Buttons(ButtonsState),
    Distance(u16),
    Motion(MotionReadout),
}

} // verus!
