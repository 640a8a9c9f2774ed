//! End-to-end tests of the event pipeline: diffing, remapping, delivery
//! deduplication and plug/unplug bookkeeping, driven through the public
//! `ControllerManager::update` pull interface.

use stick::controller_manager::ControllerManager;
use stick::controller_manager::NO_ADDED;
use stick::input::Button;
use stick::input::Input;
use stick::remap::GAME_CUBE_ID;
use stick::remap::Remapper;
use stick::remap::Transform;
use stick::state::SlotReport;
use stick::state::State;

fn live(id: i32, state: State) -> SlotReport {
    SlotReport { stale: false, disconnected: false, min: -100, max: 100, id, state }
}

fn gone() -> SlotReport {
    SlotReport { stale: false, disconnected: true, min: 0, max: 0, id: 0, state: State::empty() }
}

/// Drains the manager until it reports no event, collecting what it served.
fn drain_all(
    mgr: &mut ControllerManager,
    count: usize,
    added: usize,
    slots: &Vec<SlotReport>,
) -> Vec<(usize, Input)> {
    let mut out = Vec::new();
    while let Some(ev) = mgr.update(count, added, slots) {
        out.push(ev);
    }
    out
}

#[test]
fn plug_then_press_scenario() {
    let mut mgr = ControllerManager::new(Vec::new());
    let slots = vec![live(1, State::empty())];

    // connect pass: exactly one PluggedIn, axis candidates all deduplicated
    assert_eq!(mgr.update(1, 0, &slots), Some((0, Input::PluggedIn(1))));
    // generation drained: nothing more without a fresh rescan
    assert_eq!(mgr.update(1, 0, &slots), None);

    // raw accept goes true: one Press(Accept), then the generation is empty
    let mut pressed = State::empty();
    pressed.accept = true;
    let slots2 = vec![live(1, pressed)];
    assert_eq!(mgr.update(1, NO_ADDED, &slots2), Some((0, Input::Press(Button::Accept))));
    assert_eq!(mgr.update(1, NO_ADDED, &slots2), None);

    // identical raw state polled again: a full rescan yields nothing
    assert_eq!(mgr.update(1, NO_ADDED, &slots2), None);
}

#[test]
fn release_edge_is_single() {
    let mut mgr = ControllerManager::new(Vec::new());
    let mut pressed = State::empty();
    pressed.accept = true;
    // candidates drain newest-first: the Press edge precedes the PluggedIn
    assert_eq!(mgr.update(1, 0, &vec![live(1, pressed)]), Some((0, Input::Press(Button::Accept))));
    assert_eq!(mgr.update(1, 0, &vec![live(1, pressed)]), Some((0, Input::PluggedIn(1))));
    assert_eq!(drain_all(&mut mgr, 1, NO_ADDED, &vec![live(1, pressed)]), vec![]);

    // accept falls back to false: exactly one Release, never a Press
    let events = drain_all(&mut mgr, 1, NO_ADDED, &vec![live(1, State::empty())]);
    assert_eq!(events, vec![(0, Input::Release(Button::Accept))]);
    // and nothing on the next identical poll
    assert_eq!(drain_all(&mut mgr, 1, NO_ADDED, &vec![live(1, State::empty())]), vec![]);
}

#[test]
fn move_dedup_at_delivery() {
    let mut mgr = ControllerManager::new(Vec::new());
    assert_eq!(mgr.update(1, 0, &vec![live(1, State::empty())]), Some((0, Input::PluggedIn(1))));
    assert_eq!(mgr.update(1, 0, &vec![live(1, State::empty())]), None);

    let mut moved = State::empty();
    moved.move_xy = (5, 5);
    let events = drain_all(&mut mgr, 1, NO_ADDED, &vec![live(1, moved)]);
    assert_eq!(events, vec![(0, Input::Move(5, 5))]);

    // the same remapped value again: dropped at the delivery boundary
    assert_eq!(drain_all(&mut mgr, 1, NO_ADDED, &vec![live(1, moved)]), vec![]);

    // a genuinely new value is delivered and stored
    let mut moved2 = State::empty();
    moved2.move_xy = (5, 6);
    let events = drain_all(&mut mgr, 1, NO_ADDED, &vec![live(1, moved2)]);
    assert_eq!(events, vec![(0, Input::Move(5, 6))]);
    assert_eq!(drain_all(&mut mgr, 1, NO_ADDED, &vec![live(1, moved2)]), vec![]);
}

#[test]
fn throttle_dedup_at_delivery() {
    let mut mgr = ControllerManager::new(Vec::new());
    assert_eq!(mgr.update(1, 0, &vec![live(1, State::empty())]), Some((0, Input::PluggedIn(1))));
    assert_eq!(mgr.update(1, 0, &vec![live(1, State::empty())]), None);

    let mut throttled = State::empty();
    throttled.left_throttle = 50;
    let events = drain_all(&mut mgr, 1, NO_ADDED, &vec![live(1, throttled)]);
    assert_eq!(events, vec![(0, Input::ThrottleL(50))]);
    assert_eq!(drain_all(&mut mgr, 1, NO_ADDED, &vec![live(1, throttled)]), vec![]);
}

#[test]
fn remap_rules_compose_in_order() {
    // R1, device-specific: Accept <-> Cancel; R2, generic: Cancel <-> Execute.
    // R2 must see R1's output: Accept -> Cancel -> Execute.
    let rules = vec![
        Remapper { id: 1, transform: Transform::SwapButtons(Button::Accept, Button::Cancel) },
        Remapper { id: 0, transform: Transform::SwapButtons(Button::Cancel, Button::Execute) },
    ];
    let mut mgr = ControllerManager::new(rules);
    assert_eq!(mgr.update(1, 0, &vec![live(1, State::empty())]), Some((0, Input::PluggedIn(1))));
    assert_eq!(mgr.update(1, 0, &vec![live(1, State::empty())]), None);

    let mut pressed = State::empty();
    pressed.accept = true;
    let events = drain_all(&mut mgr, 1, NO_ADDED, &vec![live(1, pressed)]);
    assert_eq!(events, vec![(0, Input::Press(Button::Execute))]);
}

#[test]
fn wildcard_rule_covers_every_device() {
    let rules = vec![Remapper { id: 0, transform: Transform::InvertMoveX }];
    let mut mgr = ControllerManager::new(rules);

    // connect two controllers, ids 1 and 2, one enumeration pass each
    let slots1 = vec![live(1, State::empty())];
    assert_eq!(mgr.update(1, 0, &slots1), Some((0, Input::PluggedIn(1))));
    assert_eq!(mgr.update(1, 0, &slots1), None);
    let slots2 = vec![live(1, State::empty()), live(2, State::empty())];
    assert_eq!(mgr.update(2, 1, &slots2), Some((1, Input::PluggedIn(2))));
    assert_eq!(mgr.update(2, 1, &slots2), None);

    // both report the same stick move; the wildcard inverts both
    let mut moved = State::empty();
    moved.move_xy = (3, 4);
    let events = drain_all(&mut mgr, 2, NO_ADDED, &vec![live(1, moved), live(2, moved)]);
    assert_eq!(events, vec![(1, Input::Move(-3, 4)), (0, Input::Move(-3, 4))]);
}

#[test]
fn unplug_reports_the_stored_id() {
    let mut mgr = ControllerManager::new(Vec::new());
    assert_eq!(mgr.update(1, 0, &vec![live(7, State::empty())]), Some((0, Input::PluggedIn(7))));
    assert_eq!(mgr.update(1, 0, &vec![live(7, State::empty())]), None);

    // the device disappears: exactly one UnPlugged with the id from connect
    let events = drain_all(&mut mgr, 1, NO_ADDED, &vec![gone()]);
    assert_eq!(events, vec![(0, Input::UnPlugged(7))]);

    // the slot index is reused by a different physical unit
    assert_eq!(mgr.update(1, 0, &vec![live(9, State::empty())]), Some((0, Input::PluggedIn(9))));
    assert_eq!(mgr.update(1, 0, &vec![live(9, State::empty())]), None);
    let events = drain_all(&mut mgr, 1, NO_ADDED, &vec![gone()]);
    assert_eq!(events, vec![(0, Input::UnPlugged(9))]);
}

#[test]
fn bank_button_maps_to_indexed_button() {
    let mut mgr = ControllerManager::new(Vec::new());
    assert_eq!(mgr.update(1, 0, &vec![live(1, State::empty())]), Some((0, Input::PluggedIn(1))));
    assert_eq!(mgr.update(1, 0, &vec![live(1, State::empty())]), None);

    let mut banked = State::empty();
    banked.l[5] = true;
    banked.r[31] = true;
    let events = drain_all(&mut mgr, 1, NO_ADDED, &vec![live(1, banked)]);
    // bank candidates are emitted in index order, L before R, and drained
    // newest first
    assert_eq!(
        events,
        vec![(0, Input::Press(Button::R(31))), (0, Input::Press(Button::L(5)))]
    );
}

#[test]
fn builtin_rules_bound_user_rules() {
    let user = Remapper { id: 5, transform: Transform::InvertMoveY };
    let mgr = ControllerManager::new(vec![user]);
    assert_eq!(mgr.remap.len(), 3);
    assert_eq!(mgr.remap[0].id, GAME_CUBE_ID);
    assert_eq!(mgr.remap[1], user);
    assert_eq!(mgr.remap[2].id, 0);
}

#[test]
fn invert_saturates_at_extreme() {
    let (slot, ev) = Transform::InvertMoveX.apply(0, Input::Move(i32::MIN, 2));
    assert_eq!(slot, 0);
    assert_eq!(ev, Input::Move(i32::MAX, 2));
    let (_, ev) = Transform::InvertCamY.apply(3, Input::Camera(9, -4));
    assert_eq!(ev, Input::Camera(9, 4));
}

#[test]
fn swap_leaves_other_buttons_alone() {
    let t = Transform::SwapButtons(Button::Up, Button::Down);
    assert_eq!(t.apply(0, Input::Press(Button::Up)).1, Input::Press(Button::Down));
    assert_eq!(t.apply(0, Input::Release(Button::Down)).1, Input::Release(Button::Up));
    assert_eq!(t.apply(0, Input::Press(Button::Menu)).1, Input::Press(Button::Menu));
    assert_eq!(t.apply(0, Input::Move(1, 2)).1, Input::Move(1, 2));
}

#[test]
fn stale_slot_contributes_nothing() {
    let mut mgr = ControllerManager::new(Vec::new());
    assert_eq!(mgr.update(1, 0, &vec![live(1, State::empty())]), Some((0, Input::PluggedIn(1))));
    assert_eq!(mgr.update(1, 0, &vec![live(1, State::empty())]), None);
    let stale = SlotReport {
        stale: true,
        disconnected: false,
        min: 0,
        max: 0,
        id: 0,
        state: State::empty(),
    };
    assert_eq!(drain_all(&mut mgr, 1, NO_ADDED, &vec![stale]), vec![]);
}
