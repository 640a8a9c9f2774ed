//! Remap rules: ordered, device-matched transforms applied to every candidate
//! event before the delivery-level filter.
//!
//! A rule applies when its device filter is the wildcard `0` or equals the
//! target controller's logical id. Rules are applied in list order, each one
//! seeing the previous one's output, so rules compose front to back.

use vstd::prelude::*;

use crate::input::Button;
use crate::input::Input;
use crate::state::Controller;

verus! {

/// The logical id of the well-known controller family whose canonical
/// mapping is installed as the first built-in rule.
pub const GAME_CUBE_ID: i32 = 0x0079_1844;

/// One pure, total rewrite of an event. Every transform leaves the slot and
/// any event shape it does not mention unchanged.
#[derive(Clone, Copy, PartialEq, Eq, Structural, Debug)]
pub enum Transform {
    /// Passes every event through unchanged.
    Identity,
    /// Exchanges two buttons in `Press` and `Release` events.
    SwapButtons(Button, Button),
    /// Negates the horizontal coordinate of `Move` events.
    InvertMoveX,
    /// Negates the vertical coordinate of `Move` events.
    InvertMoveY,
    /// Negates the horizontal coordinate of `Camera` events.
    InvertCamX,
    /// Negates the vertical coordinate of `Camera` events.
    InvertCamY,
}

/// One remap rule: a device filter and the transform it applies.
/// A `device_id_filter` of `0` is the wildcard and matches every controller.
#[derive(Clone, Copy, PartialEq, Eq, Structural, Debug)]
pub struct Remapper {
    pub id: i32,
    pub transform: Transform,
}

/// Axis negation, total on `i32`: the one unrepresentable negation saturates.
pub open spec fn spec_invert(v: i32) -> i32 {
    if v == i32::MIN {
        i32::MAX
    } else {
        (-(v as int)) as i32
    }
}

/// `b` with `x` and `y` exchanged.
pub open spec fn spec_swap(b: Button, x: Button, y: Button) -> Button {
    if b == x {
        y
    } else if b == y {
        x
    } else {
        b
    }
}

/// What one transform makes of one event. Total over the event vocabulary:
/// shapes a transform does not mention pass through unchanged, and the slot
/// is never altered.
pub open spec fn spec_transform(t: Transform, slot: usize, ev: Input) -> (usize, Input) {
    match t {
        Transform::Identity => (slot, ev),
        Transform::SwapButtons(x, y) => (
            slot,
            match ev {
                Input::Press(b) => Input::Press(spec_swap(b, x, y)),
                Input::Release(b) => Input::Release(spec_swap(b, x, y)),
                _ => ev,
            },
        ),
        Transform::InvertMoveX => (
            slot,
            match ev {
                Input::Move(x, y) => Input::Move(spec_invert(x), y),
                _ => ev,
            },
        ),
        Transform::InvertMoveY => (
            slot,
            match ev {
                Input::Move(x, y) => Input::Move(x, spec_invert(y)),
                _ => ev,
            },
        ),
        Transform::InvertCamX => (
            slot,
            match ev {
                Input::Camera(x, y) => Input::Camera(spec_invert(x), y),
                _ => ev,
            },
        ),
        Transform::InvertCamY => (
            slot,
            match ev {
                Input::Camera(x, y) => Input::Camera(x, spec_invert(y)),
                _ => ev,
            },
        ),
    }
}

/// Whether a rule matches a controller with logical id `dev_id`.
pub open spec fn rule_applies(r: Remapper, dev_id: i32) -> bool {
    r.id == dev_id || r.id == 0
}

/// One step of the chain: the rule's transform if its filter matches the id
/// of the controller at the event's slot, the event unchanged otherwise.
pub open spec fn rule_step(r: Remapper, controllers: Seq<Controller>, ev: (usize, Input)) -> (
    usize,
    Input,
) {
    if rule_applies(r, controllers[ev.0 as int].id) {
        spec_transform(r.transform, ev.0, ev.1)
    } else {
        ev
    }
}

/// The whole chain, applied in list order: rule `n + 1` sees rule `n`'s
/// output, not the original event.
pub open spec fn remap_chain(
    rules: Seq<Remapper>,
    controllers: Seq<Controller>,
    ev: (usize, Input),
) -> (usize, Input)
    decreases rules.len(),
{
    if rules.len() == 0 {
        ev
    } else {
        remap_chain(rules.skip(1), controllers, rule_step(rules[0], controllers, ev))
    }
}

/// No rule changes an event's slot, so the chain never does either.
pub proof fn lemma_chain_preserves_slot(
    rules: Seq<Remapper>,
    controllers: Seq<Controller>,
    ev: (usize, Input),
)
    ensures
        remap_chain(rules, controllers, ev).0 == ev.0,
    decreases rules.len(),
{
    if rules.len() > 0 {
        lemma_chain_preserves_slot(rules.skip(1), controllers, rule_step(rules[0], controllers, ev));
    }
}

/// Chains compose: running the concatenation of two rule lists is running
/// the first list, then the second on its output.
pub proof fn lemma_chain_append(
    front: Seq<Remapper>,
    back: Seq<Remapper>,
    controllers: Seq<Controller>,
    ev: (usize, Input),
)
    ensures
        remap_chain(front + back, controllers, ev) == remap_chain(
            back,
            controllers,
            remap_chain(front, controllers, ev),
        ),
    decreases front.len(),
{
    if front.len() == 0 {
        assert(front + back =~= back);
    } else {
        assert((front + back).skip(1) =~= front.skip(1) + back);
        lemma_chain_append(front.skip(1), back, controllers, rule_step(front[0], controllers, ev));
    }
}

/// The built-in device-canonical rule, prepended ahead of all user rules.
pub open spec fn spec_game_cube_rule() -> Remapper {
    Remapper { id: GAME_CUBE_ID, transform: Transform::Identity }
}

/// The built-in catch-all default rule, appended after all user rules.
pub open spec fn spec_default_rule() -> Remapper {
    Remapper { id: 0i32, transform: Transform::Identity }
}

pub fn game_cube_rule() -> (r: Remapper)
    ensures
        r == spec_game_cube_rule(),
{
    Remapper { id: GAME_CUBE_ID, transform: Transform::Identity }
}

pub fn default_rule() -> (r: Remapper)
    ensures
        r == spec_default_rule(),
{
    Remapper { id: 0, transform: Transform::Identity }
}

/// Axis negation, total on `i32`: the one unrepresentable negation saturates.
pub fn invert(v: i32) -> (r: i32)
    ensures
        r == spec_invert(v),
{
    if v == i32::MIN {
        i32::MAX
    } else {
        -v
    }
}

/// `b` with `x` and `y` exchanged.
pub fn swap_button(b: Button, x: Button, y: Button) -> (r: Button)
    ensures
        r == spec_swap(b, x, y),
{
    if b == x {
        y
    } else if b == y {
        x
    } else {
        b
    }
}

impl Transform {
    /// Applies this transform to one event.
    pub fn apply(&self, slot: usize, ev: Input) -> (r: (usize, Input))
        ensures
            r == spec_transform(*self, slot, ev),
    {
        match *self {
            Transform::Identity => (slot, ev),
            Transform::SwapButtons(x, y) => (
                slot,
                match ev {
                    Input::Press(b) => Input::Press(swap_button(b, x, y)),
                    Input::Release(b) => Input::Release(swap_button(b, x, y)),
                    _ => ev,
                },
            ),
            Transform::InvertMoveX => (
                slot,
                match ev {
                    Input::Move(x, y) => Input::Move(invert(x), y),
                    _ => ev,
                },
            ),
            Transform::InvertMoveY => (
                slot,
                match ev {
                    Input::Move(x, y) => Input::Move(x, invert(y)),
                    _ => ev,
                },
            ),
            Transform::InvertCamX => (
                slot,
                match ev {
                    Input::Camera(x, y) => Input::Camera(invert(x), y),
                    _ => ev,
                },
            ),
            Transform::InvertCamY => (
                slot,
                match ev {
                    Input::Camera(x, y) => Input::Camera(x, invert(y)),
                    _ => ev,
                },
            ),
        }
    }
}

} // verus!
