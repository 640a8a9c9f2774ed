//! The diff engine: turns a controller's previous and current raw snapshots
//! into the ordered sequence of candidate events for one poll pass.
//!
//! Buttons are edge-triggered here, against raw previous state: a candidate
//! `Press`/`Release` appears exactly when the raw boolean changed. Continuous
//! axes (sticks, throttles) always yield a candidate carrying the current raw
//! value; their deduplication is deferred to the delivery boundary, after
//! remapping, because a remap rule may change what "no change" means.

use vstd::prelude::*;

use crate::input::Button;
use crate::input::Input;
use crate::state::Controller;
use crate::state::State;
use crate::state::after_diff;
use crate::state::diffed;
use crate::state::diffed_named;

verus! {

/// The candidate a single edge-detected boolean field contributes: one
/// `Press` on a false-to-true edge, one `Release` on a true-to-false edge,
/// nothing when the value did not change.
pub open spec fn button_candidate(slot: usize, cur: bool, prev: bool, button: Button) -> Seq<
    (usize, Input),
> {
    if cur != prev {
        seq![(slot, if cur { Input::Press(button) } else { Input::Release(button) })]
    } else {
        Seq::empty()
    }
}

/// Sequence concatenation is associative; stated once so the emission-order
/// proofs can re-associate concatenations without elementwise reasoning.
pub proof fn lemma_concat_assoc(a: Seq<(usize, Input)>, b: Seq<(usize, Input)>, c: Seq<(usize, Input)>)
    ensures
        (a + b) + c == a + (b + c),
{
    assert((a + b) + c =~= a + (b + c));
}

/// The four unconditional continuous-axis candidates of one poll pass, in
/// emission order: left throttle, right throttle, movement stick, camera
/// stick, each carrying the current raw value.
pub open spec fn axis_candidates(slot: usize, cur: State) -> Seq<(usize, Input)> {
    seq![
        (slot, Input::ThrottleL(cur.left_throttle)),
        (slot, Input::ThrottleR(cur.right_throttle)),
        (slot, Input::Move(cur.move_xy.0, cur.move_xy.1)),
        (slot, Input::Camera(cur.cam_xy.0, cur.cam_xy.1)),
    ]
}

/// The named-button field at position `k` of the fixed emission order: its
/// current value, its previous value, and the button it maps to.
pub open spec fn named_field(cur: State, prev: State, k: int) -> (bool, bool, Button) {
    if k == 0 {
        (cur.accept, prev.accept, Button::Accept)
    } else if k == 1 {
        (cur.cancel, prev.cancel, Button::Cancel)
    } else if k == 2 {
        (cur.execute, prev.execute, Button::Execute)
    } else if k == 3 {
        (cur.trigger, prev.trigger, Button::Action)
    } else if k == 4 {
        (cur.menu, prev.menu, Button::Menu)
    } else if k == 5 {
        (cur.left, prev.left, Button::Left)
    } else if k == 6 {
        (cur.right, prev.right, Button::Right)
    } else if k == 7 {
        (cur.up, prev.up, Button::Up)
    } else if k == 8 {
        (cur.down, prev.down, Button::Down)
    } else if k == 9 {
        (cur.controls, prev.controls, Button::Controls)
    } else if k == 10 {
        (cur.move_stick, prev.move_stick, Button::MoveStick)
    } else if k == 11 {
        (cur.cam_stick, prev.cam_stick, Button::CamStick)
    } else {
        (cur.exit, prev.exit, Button::Exit)
    }
}

/// The thirteen named-button fields, in their fixed emission order.
pub open spec fn named_fields(cur: State, prev: State) -> Seq<(bool, bool, Button)> {
    Seq::new(13, |k: int| named_field(cur, prev, k))
}

/// The edge candidates of a list of boolean fields, in list order.
pub open spec fn edge_candidates(slot: usize, fields: Seq<(bool, bool, Button)>) -> Seq<
    (usize, Input),
>
    decreases fields.len(),
{
    if fields.len() == 0 {
        Seq::empty()
    } else {
        edge_candidates(slot, fields.drop_last()) + button_candidate(
            slot,
            fields.last().0,
            fields.last().1,
            fields.last().2,
        )
    }
}

/// The edge candidates of the thirteen named buttons, in their fixed
/// emission order.
pub open spec fn named_button_candidates(slot: usize, cur: State, prev: State) -> Seq<
    (usize, Input),
> {
    edge_candidates(slot, named_fields(cur, prev))
}

/// Appending one more field to an edge scan appends exactly that field's
/// candidate.
pub proof fn lemma_edge_step(slot: usize, fields: Seq<(bool, bool, Button)>, k: int)
    requires
        0 <= k < fields.len(),
    ensures
        edge_candidates(slot, fields.take(k + 1)) == edge_candidates(slot, fields.take(k))
            + button_candidate(slot, fields[k].0, fields[k].1, fields[k].2),
{
    assert(fields.take(k + 1).drop_last() =~= fields.take(k));
    assert(fields.take(k + 1).last() == fields[k]);
}

/// The edge candidates of the first `n` indices of the two generic button
/// banks, interleaved `L(b)` then `R(b)` for each index, in index order.
/// `curl`/`prevl` and `curr`/`prevr` are the current and previous contents of
/// the left and right bank.
pub open spec fn bank_candidates(
    slot: usize,
    curl: Seq<bool>,
    prevl: Seq<bool>,
    curr: Seq<bool>,
    prevr: Seq<bool>,
    n: int,
) -> Seq<(usize, Input)>
    decreases n,
{
    if n <= 0 {
        Seq::empty()
    } else {
        bank_candidates(slot, curl, prevl, curr, prevr, n - 1)
            + button_candidate(slot, curl[n - 1], prevl[n - 1], Button::L((n - 1) as u8))
            + button_candidate(slot, curr[n - 1], prevr[n - 1], Button::R((n - 1) as u8))
    }
}

/// Everything one still-connected slot contributes to the candidate buffer in
/// one poll pass, in emission order: the four axis candidates, then the named
/// button edges, then the button-bank edges.
pub open spec fn slot_candidates(slot: usize, cur: State, prev: State) -> Seq<(usize, Input)> {
    axis_candidates(slot, cur) + named_button_candidates(slot, cur, prev) + bank_candidates(
        slot,
        cur.l@,
        prev.l@,
        cur.r@,
        prev.r@,
        32,
    )
}

/// Appends the edge candidate of one boolean field (current, previous) and
/// hands back the current value, with which the caller overwrites its
/// previous-state field.
pub fn check_button(input: &mut Vec<(usize, Input)>, id: usize, i: (bool, bool), button: Button) -> (r:
    bool)
    ensures
        final(input)@ == old(input)@ + button_candidate(id, i.0, i.1, button),
        r == i.0,
{
    if i.0 != i.1 {
        input.push((id, if i.0 { Input::Press(button) } else { Input::Release(button) }));
        proof {
            assert(input@ =~= old(input)@ + button_candidate(id, i.0, i.1, button));
        }
    } else {
        proof {
            assert(input@ =~= old(input)@ + button_candidate(id, i.0, i.1, button));
        }
    }
    i.0
}

/// Appends the unconditional stick candidate of this pass: the movement stick
/// when `cam_stick` is false, the camera stick when it is true.
pub fn check_coord(input: &mut Vec<(usize, Input)>, id: usize, i: i32, j: i32, cam_stick: bool)
    ensures
        final(input)@ == old(input)@.push(
            (id, if cam_stick { Input::Camera(i, j) } else { Input::Move(i, j) }),
        ),
{
    input.push(
        (
            id,
            match cam_stick {
                false => Input::Move(i, j),
                true => Input::Camera(i, j),
            },
        ),
    );
}

/// Appends the unconditional throttle candidate of this pass: the left
/// throttle when `rthrottle` is false, the right one when it is true.
pub fn check_axis(input: &mut Vec<(usize, Input)>, id: usize, i: i32, rthrottle: bool)
    ensures
        final(input)@ == old(input)@.push(
            (id, if rthrottle { Input::ThrottleR(i) } else { Input::ThrottleL(i) }),
        ),
{
    input.push(
        (
            id,
            match rthrottle {
                false => Input::ThrottleL(i),
                true => Input::ThrottleR(i),
            },
        ),
    );
}

/// Appends the four unconditional continuous-axis candidates of one pass.
fn diff_axes(input: &mut Vec<(usize, Input)>, slot: usize, cur: &State)
    ensures
        final(input)@ == old(input)@ + axis_candidates(slot, *cur),
{
    check_axis(input, slot, cur.left_throttle, false);
    check_axis(input, slot, cur.right_throttle, true);
    check_coord(input, slot, cur.move_xy.0, cur.move_xy.1, false);
    check_coord(input, slot, cur.cam_xy.0, cur.cam_xy.1, true);
    proof {
        assert(input@ =~= old(input)@ + axis_candidates(slot, *cur));
    }
}

/// Edge-detects the thirteen named buttons against `prev` and returns `prev`
/// with those fields synced to the current values.
/// One named-button step of a diff pass: appends the field's edge candidate
/// and tracks, through the ghost arguments, how far along the field list the
/// scan has come.
fn check_named(
    input: &mut Vec<(usize, Input)>,
    slot: usize,
    i: (bool, bool),
    button: Button,
    Ghost(fs): Ghost<Seq<(bool, bool, Button)>>,
    Ghost(base): Ghost<Seq<(usize, Input)>>,
    Ghost(k): Ghost<int>,
) -> (r: bool)
    requires
        0 <= k < fs.len(),
        fs[k] == (i.0, i.1, button),
        old(input)@ == base + edge_candidates(slot, fs.take(k)),
    ensures
        final(input)@ == base + edge_candidates(slot, fs.take(k + 1)),
        r == i.0,
{
    let r = check_button(input, slot, i, button);
    proof {
        lemma_edge_step(slot, fs, k);
        lemma_concat_assoc(
            base,
            edge_candidates(slot, fs.take(k)),
            button_candidate(slot, i.0, i.1, button),
        );
    }
    r
}

/// Edge-detects the thirteen named buttons against `prev` and returns `prev`
/// with those fields synced to the current values.
#[verifier::rlimit(60)]
fn diff_named(input: &mut Vec<(usize, Input)>, slot: usize, cur: State, prev: State) -> (ns: State)
    ensures
        final(input)@ == old(input)@ + named_button_candidates(slot, cur, prev),
        ns == diffed_named(prev, cur),
{
    let ghost fs = named_fields(cur, prev);
    let ghost base = input@;
    proof {
        assert(fs.take(0) =~= Seq::empty());
        assert(base + edge_candidates(slot, fs.take(0)) =~= base);
    }
    let v_accept = check_named(
        input,
        slot,
        (cur.accept, prev.accept),
        Button::Accept,
        Ghost(fs),
        Ghost(base),
        Ghost(0),
    );
    let v_cancel = check_named(
        input,
        slot,
        (cur.cancel, prev.cancel),
        Button::Cancel,
        Ghost(fs),
        Ghost(base),
        Ghost(1),
    );
    let v_execute = check_named(
        input,
        slot,
        (cur.execute, prev.execute),
        Button::Execute,
        Ghost(fs),
        Ghost(base),
        Ghost(2),
    );
    let v_trigger = check_named(
        input,
        slot,
        (cur.trigger, prev.trigger),
        Button::Action,
        Ghost(fs),
        Ghost(base),
        Ghost(3),
    );
    let v_menu = check_named(
        input,
        slot,
        (cur.menu, prev.menu),
        Button::Menu,
        Ghost(fs),
        Ghost(base),
        Ghost(4),
    );
    let v_left = check_named(
        input,
        slot,
        (cur.left, prev.left),
        Button::Left,
        Ghost(fs),
        Ghost(base),
        Ghost(5),
    );
    let v_right = check_named(
        input,
        slot,
        (cur.right, prev.right),
        Button::Right,
        Ghost(fs),
        Ghost(base),
        Ghost(6),
    );
    let v_up = check_named(
        input,
        slot,
        (cur.up, prev.up),
        Button::Up,
        Ghost(fs),
        Ghost(base),
        Ghost(7),
    );
    let v_down = check_named(
        input,
        slot,
        (cur.down, prev.down),
        Button::Down,
        Ghost(fs),
        Ghost(base),
        Ghost(8),
    );
    let v_controls = check_named(
        input,
        slot,
        (cur.controls, prev.controls),
        Button::Controls,
        Ghost(fs),
        Ghost(base),
        Ghost(9),
    );
    let v_move_stick = check_named(
        input,
        slot,
        (cur.move_stick, prev.move_stick),
        Button::MoveStick,
        Ghost(fs),
        Ghost(base),
        Ghost(10),
    );
    let v_cam_stick = check_named(
        input,
        slot,
        (cur.cam_stick, prev.cam_stick),
        Button::CamStick,
        Ghost(fs),
        Ghost(base),
        Ghost(11),
    );
    let v_exit = check_named(
        input,
        slot,
        (cur.exit, prev.exit),
        Button::Exit,
        Ghost(fs),
        Ghost(base),
        Ghost(12),
    );
    proof {
        assert(fs.take(13) =~= fs);
    }
    State {
        accept: v_accept,
        cancel: v_cancel,
        execute: v_execute,
        trigger: v_trigger,
        menu: v_menu,
        left: v_left,
        right: v_right,
        up: v_up,
        down: v_down,
        controls: v_controls,
        move_stick: v_move_stick,
        cam_stick: v_cam_stick,
        exit: v_exit,
        ..prev
    }
}

/// Edge-detects both 32-wide generic button banks against `prev` and returns
/// `prev` with its bank contents synced to the current values.
fn diff_banks(input: &mut Vec<(usize, Input)>, slot: usize, cur: State, prev: State) -> (ns: State)
    ensures
        final(input)@ == old(input)@ + bank_candidates(
            slot,
            cur.l@,
            prev.l@,
            cur.r@,
            prev.r@,
            32,
        ),
        ns == (State { l: cur.l, r: cur.r, ..prev }),
{
    let mut l = prev.l;
    let mut r = prev.r;
    let mut b: usize = 0;
    while b < 32
        invariant
            b <= 32,
            forall|k: int| 0 <= k < b ==> l@[k] == cur.l@[k],
            forall|k: int| b <= k < 32 ==> l@[k] == prev.l@[k],
            forall|k: int| 0 <= k < b ==> r@[k] == cur.r@[k],
            forall|k: int| b <= k < 32 ==> r@[k] == prev.r@[k],
            input@ == old(input)@ + bank_candidates(slot, cur.l@, prev.l@, cur.r@, prev.r@, b as int),
        decreases 32 - b,
    {
        let ghost bank_b = bank_candidates(slot, cur.l@, prev.l@, cur.r@, prev.r@, b as int);
        let ghost cand_l = button_candidate(slot, cur.l@[b as int], prev.l@[b as int], Button::L(b as u8));
        let ghost cand_r = button_candidate(slot, cur.r@[b as int], prev.r@[b as int], Button::R(b as u8));
        l[b] = check_button(input, slot, (cur.l[b], l[b]), Button::L(b as u8));
        proof {
            lemma_concat_assoc(old(input)@, bank_b, cand_l);
            assert(input@ == old(input)@ + (bank_b + cand_l));
        }
        r[b] = check_button(input, slot, (cur.r[b], r[b]), Button::R(b as u8));
        proof {
            lemma_concat_assoc(old(input)@, bank_b + cand_l, cand_r);
            assert(input@ == old(input)@ + ((bank_b + cand_l) + cand_r));
            assert(bank_candidates(slot, cur.l@, prev.l@, cur.r@, prev.r@, b as int + 1)
                == (bank_b + cand_l) + cand_r);
        }
        b = b + 1;
    }
    proof {
        assert(l =~= cur.l);
        assert(r =~= cur.r);
    }
    State { l, r, ..prev }
}

/// One full diff pass over a controller: appends exactly the slot's candidate
/// events to the buffer, in emission order, and overwrites the previous
/// snapshot's edge-detected fields with the current values.
#[verifier::rlimit(80)]
pub fn diff_slot(input: &mut Vec<(usize, Input)>, slot: usize, c: &mut Controller)
    ensures
        final(input)@ == old(input)@ + slot_candidates(slot, old(c).state, old(c).oldstate),
        *final(c) == after_diff(*old(c)),
{
    let ghost ax = axis_candidates(slot, c.state);
    let ghost named = named_button_candidates(slot, c.state, c.oldstate);
    let ghost banks = bank_candidates(
        slot,
        c.state.l@,
        c.oldstate.l@,
        c.state.r@,
        c.oldstate.r@,
        32,
    );
    let cur = c.state;
    let prev = c.oldstate;
    diff_axes(input, slot, &cur);
    let ns = diff_named(input, slot, cur, prev);
    proof {
        lemma_concat_assoc(old(input)@, ax, named);
        assert(input@ == old(input)@ + (ax + named));
    }
    let fs = diff_banks(input, slot, cur, ns);
    proof {
        assert(ns.l@ == prev.l@ && ns.r@ == prev.r@);
        assert(bank_candidates(slot, cur.l@, ns.l@, cur.r@, ns.r@, 32) == banks);
        lemma_concat_assoc(old(input)@, ax + named, banks);
        assert(input@ == old(input)@ + ((ax + named) + banks));
        assert(slot_candidates(slot, cur, prev) == (ax + named) + banks);
        assert(fs == diffed(prev, cur));
    }
    c.oldstate = fs;
}


/// The shape every diff candidate has: it names the slot it was produced
/// for, and it is a device signal, never a plug notification.
pub open spec fn candidate_form(slot: usize, e: (usize, Input)) -> bool {
    e.0 == slot && !(e.1 is PluggedIn) && !(e.1 is UnPlugged)
}

proof fn lemma_form_concat(a: Seq<(usize, Input)>, b: Seq<(usize, Input)>, slot: usize)
    requires
        forall|k: int| 0 <= k < a.len() ==> candidate_form(slot, #[trigger] a[k]),
        forall|k: int| 0 <= k < b.len() ==> candidate_form(slot, #[trigger] b[k]),
    ensures
        forall|k: int| 0 <= k < (a + b).len() ==> candidate_form(slot, #[trigger] (a + b)[k]),
{
}

proof fn lemma_bank_candidates_form(
    slot: usize,
    curl: Seq<bool>,
    prevl: Seq<bool>,
    curr: Seq<bool>,
    prevr: Seq<bool>,
    n: int,
)
    ensures
        forall|k: int|
            0 <= k < bank_candidates(slot, curl, prevl, curr, prevr, n).len() ==> candidate_form(
                slot,
                #[trigger] bank_candidates(slot, curl, prevl, curr, prevr, n)[k],
            ),
    decreases n,
{
    if n > 0 {
        lemma_bank_candidates_form(slot, curl, prevl, curr, prevr, n - 1);
        let prefix = bank_candidates(slot, curl, prevl, curr, prevr, n - 1);
        let cl = button_candidate(slot, curl[n - 1], prevl[n - 1], Button::L((n - 1) as u8));
        let cr = button_candidate(slot, curr[n - 1], prevr[n - 1], Button::R((n - 1) as u8));
        lemma_form_concat(prefix, cl, slot);
        lemma_form_concat(prefix + cl, cr, slot);
    }
}

proof fn lemma_edge_candidates_form(slot: usize, fields: Seq<(bool, bool, Button)>)
    ensures
        forall|k: int|
            0 <= k < edge_candidates(slot, fields).len() ==> candidate_form(
                slot,
                #[trigger] edge_candidates(slot, fields)[k],
            ),
    decreases fields.len(),
{
    if fields.len() > 0 {
        lemma_edge_candidates_form(slot, fields.drop_last());
        lemma_form_concat(
            edge_candidates(slot, fields.drop_last()),
            button_candidate(slot, fields.last().0, fields.last().1, fields.last().2),
            slot,
        );
    }
}

/// Every candidate a slot's diff pass emits carries that slot's index and is
/// a device signal (button edge or axis value), never a plug notification.
pub proof fn lemma_slot_candidates_form(slot: usize, cur: State, prev: State)
    ensures
        forall|k: int|
            0 <= k < slot_candidates(slot, cur, prev).len() ==> candidate_form(
                slot,
                #[trigger] slot_candidates(slot, cur, prev)[k],
            ),
{
    let ax = axis_candidates(slot, cur);
    let named = named_button_candidates(slot, cur, prev);
    let banks = bank_candidates(slot, cur.l@, prev.l@, cur.r@, prev.r@, 32);
    assert(forall|k: int| 0 <= k < ax.len() ==> candidate_form(slot, #[trigger] ax[k]));
    lemma_edge_candidates_form(slot, named_fields(cur, prev));
    lemma_bank_candidates_form(slot, cur.l@, prev.l@, cur.r@, prev.r@, 32);
    lemma_form_concat(ax, named, slot);
    lemma_form_concat(ax + named, banks, slot);
}

} // verus!
