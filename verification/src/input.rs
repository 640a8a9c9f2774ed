//! The event vocabulary: logical buttons and the input events a controller
//! can deliver.

use vstd::prelude::*;

verus! {

/// A logical button on a controller.
///
/// The named variants cover the fixed buttons every tracked controller
/// exposes; `L(n)` and `R(n)` index the two generic 32-wide button banks,
/// so `n` is meaningful for `n < 32`.
#[derive(Clone, Copy, PartialEq, Eq, Structural, Debug)]
pub enum Button {
    Accept,
    Cancel,
    Execute,
    Action,
    Menu,
    Controls,
    Up,
    Down,
    Left,
    Right,
    Exit,
    MoveStick,
    CamStick,
    L(u8),
    R(u8),
}

/// One input event, tagged with what it reports.
///
/// `PluggedIn`/`UnPlugged` carry the controller's stable logical id (not its
/// slot index). `Press`/`Release` are edge-triggered at the raw layer.
/// `Move`/`Camera` carry stick coordinates and `ThrottleL`/`ThrottleR` a
/// throttle scalar; these are emitted every poll and deduplicated against the
/// last delivered value just before delivery.
#[derive(Clone, Copy, PartialEq, Eq, Structural, Debug)]
pub enum Input {
    PluggedIn(i32),
    UnPlugged(i32),
    Press(Button),
    Release(Button),
    Move(i32, i32),
    Camera(i32, i32),
    ThrottleL(i32),
    ThrottleR(i32),
}

} // verus!
