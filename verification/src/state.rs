//! Raw device snapshots and the per-slot bookkeeping around them.
//!
//! A `State` is one instantaneous raw snapshot of a controller's signals.
//! A `Controller` double-buffers two such snapshots (previous and current)
//! for edge detection, and separately remembers the last *delivered* stick
//! coordinates and throttle values for delivery-level deduplication.

use vstd::prelude::*;

verus! {

/// A raw polled snapshot of one controller's signals.
///
/// `min`/`max` are the axis bounds the device reported at connect time.
/// All boolean fields default to false and all numeric fields to zero until
/// the first poll.
#[derive(Clone, Copy)]
#[verifier::ext_equal]
pub struct State {
    pub min: i32,
    pub max: i32,
    pub accept: bool,
    pub cancel: bool,
    pub execute: bool,
    pub trigger: bool,
    pub l: [bool; 32],
    pub r: [bool; 32],
    pub menu: bool,
    pub controls: bool,
    pub up: bool,
    pub down: bool,
    pub left: bool,
    pub right: bool,
    pub exit: bool,
    pub move_stick: bool,
    pub cam_stick: bool,
    pub move_xy: (i32, i32),
    pub cam_xy: (i32, i32),
    pub left_throttle: i32,
    pub right_throttle: i32,
}

impl State {
    /// A bank of 32 unpressed buttons.
    pub open spec fn spec_empty_bank() -> [bool; 32] {
        vstd::array::spec_array_fill_for_copy_type::<bool, 32>(false)
    }

    /// The neutral snapshot: zero bounds, nothing pressed, sticks centered.
    pub open spec fn spec_empty() -> State {
        State {
            min: 0i32,
            max: 0i32,
            accept: false,
            cancel: false,
            execute: false,
            trigger: false,
            l: State::spec_empty_bank(),
            r: State::spec_empty_bank(),
            menu: false,
            controls: false,
            up: false,
            down: false,
            left: false,
            right: false,
            exit: false,
            move_stick: false,
            cam_stick: false,
            move_xy: (0i32, 0i32),
            cam_xy: (0i32, 0i32),
            left_throttle: 0i32,
            right_throttle: 0i32,
        }
    }

    pub fn empty() -> (s: State)
        ensures
            s == State::spec_empty(),
    {
        State {
            min: 0,
            max: 0,
            accept: false,
            cancel: false,
            execute: false,
            trigger: false,
            l: [false; 32],
            r: [false; 32],
            menu: false,
            controls: false,
            up: false,
            down: false,
            left: false,
            right: false,
            exit: false,
            move_stick: false,
            cam_stick: false,
            move_xy: (0, 0),
            cam_xy: (0, 0),
            left_throttle: 0,
            right_throttle: 0,
        }
    }
}

/// One tracked physical controller.
///
/// `oldstate`/`state` are the double-buffered raw snapshots used for edge
/// detection. `id` is the stable logical identifier assigned at connect time;
/// it is not the (reusable) slot index. `move_xy`, `cam_xy`, `l_throttle` and
/// `r_throttle` are the last *delivered* continuous values, tracked apart from
/// the raw snapshots so that deduplication happens after remapping.
#[derive(Clone, Copy)]
#[verifier::ext_equal]
pub struct Controller {
    pub oldstate: State,
    pub state: State,
    pub id: i32,
    pub move_xy: (i32, i32),
    pub cam_xy: (i32, i32),
    pub l_throttle: i32,
    pub r_throttle: i32,
}

impl Controller {
    /// A freshly allocated, not yet connected slot entry.
    pub open spec fn spec_empty() -> Controller {
        Controller {
            oldstate: State::spec_empty(),
            state: State::spec_empty(),
            id: 0i32,
            move_xy: (0i32, 0i32),
            cam_xy: (0i32, 0i32),
            l_throttle: 0i32,
            r_throttle: 0i32,
        }
    }

    pub fn empty() -> (c: Controller)
        ensures
            c == Controller::spec_empty(),
    {
        Controller {
            oldstate: State::empty(),
            state: State::empty(),
            id: 0,
            move_xy: (0, 0),
            cam_xy: (0, 0),
            l_throttle: 0,
            r_throttle: 0,
        }
    }
}

/// What the device collaborator reports about one slot during a poll pass.
///
/// `stale` means the slot had no entry this pass and is skipped entirely;
/// `disconnected` means the device is gone and an `UnPlugged` event is due.
/// `min`, `max` and `id` are read only for the slot that newly appeared this
/// pass; `state` is the raw snapshot the collaborator polled for the slot.
#[derive(Clone, Copy)]
pub struct SlotReport {
    pub stale: bool,
    pub disconnected: bool,
    pub min: i32,
    pub max: i32,
    pub id: i32,
    pub state: State,
}

/// The previous snapshot after the named-button half of a diff pass: the
/// thirteen named boolean fields are overwritten with the current values,
/// everything else keeps its previous contents.
pub open spec fn diffed_named(prev: State, cur: State) -> State {
    State {
        accept: cur.accept,
        cancel: cur.cancel,
        execute: cur.execute,
        trigger: cur.trigger,
        menu: cur.menu,
        left: cur.left,
        right: cur.right,
        up: cur.up,
        down: cur.down,
        controls: cur.controls,
        move_stick: cur.move_stick,
        cam_stick: cur.cam_stick,
        exit: cur.exit,
        ..prev
    }
}

/// The previous snapshot after a full diff pass: every edge-detected boolean
/// field, the named ones and both button banks, is overwritten with the
/// current value, while the bounds and the continuous fields (tracked
/// elsewhere) keep their previous contents.
pub open spec fn diffed(prev: State, cur: State) -> State {
    State { l: cur.l, r: cur.r, ..diffed_named(prev, cur) }
}

/// A controller after its current snapshot was refilled from a raw poll:
/// every signal field is taken from the poll, the axis bounds stay what the
/// device reported at connect time.
pub open spec fn polled(c: Controller, raw: State) -> Controller {
    Controller { state: State { min: c.state.min, max: c.state.max, ..raw }, ..c }
}

/// A controller just connected at a slot: both buffered snapshots take the
/// reported axis bounds, and the reported logical id is recorded.
pub open spec fn init_added(c: Controller, rep: SlotReport) -> Controller {
    Controller {
        oldstate: State { min: rep.min, max: rep.max, ..c.oldstate },
        state: State { min: rep.min, max: rep.max, ..c.state },
        id: rep.id,
        ..c
    }
}

/// A controller after the diff pass consumed its current snapshot.
pub open spec fn after_diff(c: Controller) -> Controller {
    Controller { oldstate: diffed(c.oldstate, c.state), ..c }
}

} // verus!
