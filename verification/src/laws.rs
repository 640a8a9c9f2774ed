//! The pipeline's laws, stated and proved once over the spec model that the
//! executable functions are verified against.

use vstd::prelude::*;

use crate::controller_manager::slot_pass;
use crate::controller_manager::spec_change;
use crate::diff::axis_candidates;
use crate::diff::bank_candidates;
use crate::diff::button_candidate;
use crate::diff::candidate_form;
use crate::diff::edge_candidates;
use crate::diff::lemma_slot_candidates_form;
use crate::diff::named_button_candidates;
use crate::diff::named_fields;
use crate::diff::slot_candidates;
use crate::input::Button;
use crate::input::Input;
use crate::remap::Remapper;
use crate::remap::remap_chain;
use crate::remap::rule_step;
use crate::remap::spec_transform;
use crate::state::Controller;
use crate::state::SlotReport;
use crate::state::after_diff;

verus! {

/// An edge scan over fields whose current and previous values agree emits
/// nothing.
proof fn lemma_edge_no_change(slot: usize, fields: Seq<(bool, bool, Button)>)
    requires
        forall|k: int| 0 <= k < fields.len() ==> (#[trigger] fields[k]).0 == fields[k].1,
    ensures
        edge_candidates(slot, fields) == Seq::<(usize, Input)>::empty(),
    decreases fields.len(),
{
    if fields.len() > 0 {
        lemma_edge_no_change(slot, fields.drop_last());
        assert(edge_candidates(slot, fields) =~= Seq::<(usize, Input)>::empty());
    }
}

/// A bank scan against identical contents emits nothing.
proof fn lemma_bank_no_change(slot: usize, l: Seq<bool>, r: Seq<bool>, n: int)
    ensures
        bank_candidates(slot, l, l, r, r, n) == Seq::<(usize, Input)>::empty(),
    decreases n,
{
    if n > 0 {
        lemma_bank_no_change(slot, l, r, n - 1);
        assert(bank_candidates(slot, l, l, r, r, n) =~= Seq::<(usize, Input)>::empty());
    }
}

/// Idempotent no-change: diffing a snapshot against an identical previous
/// snapshot yields no button event at all — only the four unconditional
/// axis candidates of the pass.
pub proof fn lemma_no_change_no_button_events(slot: usize, s: crate::state::State)
    ensures
        named_button_candidates(slot, s, s) == Seq::<(usize, Input)>::empty(),
        bank_candidates(slot, s.l@, s.l@, s.r@, s.r@, 32) == Seq::<(usize, Input)>::empty(),
        slot_candidates(slot, s, s) == axis_candidates(slot, s),
{
    assert(forall|k: int|
        0 <= k < named_fields(s, s).len() ==> (#[trigger] named_fields(s, s)[k]).0
            == named_fields(s, s)[k].1);
    lemma_edge_no_change(slot, named_fields(s, s));
    lemma_bank_no_change(slot, s.l@, s.r@, 32);
    assert(slot_candidates(slot, s, s) =~= axis_candidates(slot, s));
}

/// Edge symmetry: a false-to-true transition yields exactly one `Press`, a
/// true-to-false transition exactly one `Release`, and no transition yields
/// nothing — never both, never duplicates.
pub proof fn lemma_edge_symmetry(slot: usize, cur: bool, prev: bool, b: Button)
    ensures
        prev == cur ==> button_candidate(slot, cur, prev, b) == Seq::<(usize, Input)>::empty(),
        !prev && cur ==> button_candidate(slot, cur, prev, b) == seq![(slot, Input::Press(b))],
        prev && !cur ==> button_candidate(slot, cur, prev, b) == seq![(slot, Input::Release(b))],
{
}

/// No duplication across consecutive identical polls: once a diff pass has
/// consumed a snapshot, polling the very same raw values again contributes
/// only the unconditional axis candidates, no button event.
pub proof fn lemma_no_repeat_after_diff(slot: usize, c: Controller)
    ensures
        slot_candidates(slot, after_diff(c).state, after_diff(c).oldstate) == axis_candidates(
            slot,
            c.state,
        ),
{
    let cur = after_diff(c).state;
    let prev = after_diff(c).oldstate;
    assert(forall|k: int|
        0 <= k < named_fields(cur, prev).len() ==> (#[trigger] named_fields(cur, prev)[k]).0
            == named_fields(cur, prev)[k].1);
    lemma_edge_no_change(slot, named_fields(cur, prev));
    lemma_bank_no_change(slot, cur.l@, cur.r@, 32);
    assert(slot_candidates(slot, cur, prev) =~= axis_candidates(slot, c.state));
}

/// Delivery deduplication: a continuous event equal to the last delivered
/// value is dropped and changes nothing; a different one is delivered and
/// stored, so delivering the same value twice in a row is impossible.
pub proof fn lemma_delivery_dedup(c: Controller, x: i32, y: i32)
    ensures
        c.move_xy == (x, y) ==> spec_change(c, Input::Move(x, y)) == (c, false),
        c.move_xy != (x, y) ==> spec_change(c, Input::Move(x, y)) == (
            Controller { move_xy: (x, y), ..c },
            true,
        ),
        !spec_change(spec_change(c, Input::Move(x, y)).0, Input::Move(x, y)).1,
        !spec_change(spec_change(c, Input::Camera(x, y)).0, Input::Camera(x, y)).1,
        !spec_change(spec_change(c, Input::ThrottleL(x)).0, Input::ThrottleL(x)).1,
        !spec_change(spec_change(c, Input::ThrottleR(x)).0, Input::ThrottleR(x)).1,
{
}

/// Discrete events are never filtered at delivery: they pass unchanged and
/// leave the stored continuous values alone.
pub proof fn lemma_discrete_always_delivered(c: Controller, ev: Input)
    requires
        !(ev is Move),
        !(ev is Camera),
        !(ev is ThrottleL),
        !(ev is ThrottleR),
    ensures
        spec_change(c, ev) == (c, true),
{
}

/// Remap ordering: a two-rule chain applies the first rule first and hands
/// its output, not the original event, to the second.
pub proof fn lemma_two_rule_order(
    r1: Remapper,
    r2: Remapper,
    controllers: Seq<Controller>,
    ev: (usize, Input),
)
    ensures
        remap_chain(seq![r1, r2], controllers, ev) == rule_step(
            r2,
            controllers,
            rule_step(r1, controllers, ev),
        ),
{
    let rules = seq![r1, r2];
    let e1 = rule_step(r1, controllers, ev);
    let e2 = rule_step(r2, controllers, e1);
    assert(rules[0] == r1);
    assert(rules.skip(1) =~= seq![r2]);
    assert(seq![r2][0] == r2);
    assert(seq![r2].skip(1) =~= Seq::<Remapper>::empty());
    assert(remap_chain(rules, controllers, ev) == remap_chain(seq![r2], controllers, e1));
    assert(remap_chain(seq![r2], controllers, e1) == remap_chain(
        Seq::<Remapper>::empty(),
        controllers,
        e2,
    ));
    assert(remap_chain(Seq::<Remapper>::empty(), controllers, e2) == e2);
}

/// Wildcard rules apply to every controller: with filter id 0 the rule's
/// transform runs regardless of which controller the event belongs to.
pub proof fn lemma_wildcard_rule(r: Remapper, controllers: Seq<Controller>, ev: (usize, Input))
    requires
        r.id == 0,
    ensures
        rule_step(r, controllers, ev) == spec_transform(r.transform, ev.0, ev.1),
{
}

/// Plug/unplug pairing: connecting a device contributes exactly one
/// `PluggedIn` carrying the reported id, which the controller entry then
/// stores; a disconnected slot contributes exactly one `UnPlugged` carrying
/// that stored id; and no other event of a poll pass is a plug notification,
/// so the pair shares one id even if the slot index is later reused.
pub proof fn lemma_plug_unplug_pairing(i: usize, added: usize, c: Controller, rep: SlotReport)
    ensures
        !rep.stale && rep.disconnected ==> slot_pass(i, added, c, rep).0 == seq![
            (i, Input::UnPlugged(c.id)),
        ],
        !rep.stale && !rep.disconnected && i == added ==> {
            let evs = slot_pass(i, added, c, rep).0;
            &&& evs.len() >= 1
            &&& evs[0] == (i, Input::PluggedIn(rep.id))
            &&& forall|k: int|
                1 <= k < evs.len() ==> !((#[trigger] evs[k]).1 is PluggedIn) && !(evs[k].1
                    is UnPlugged)
            &&& slot_pass(i, added, c, rep).1.id == rep.id
        },
        !rep.stale && !rep.disconnected && i != added ==> {
            let evs = slot_pass(i, added, c, rep).0;
            &&& forall|k: int|
                0 <= k < evs.len() ==> !((#[trigger] evs[k]).1 is PluggedIn) && !(evs[k].1
                    is UnPlugged)
            &&& slot_pass(i, added, c, rep).1.id == c.id
        },
{
    if !rep.stale && !rep.disconnected {
        let c0 = if i == added {
            crate::state::init_added(c, rep)
        } else {
            c
        };
        let c1 = crate::state::polled(c0, rep.state);
        lemma_slot_candidates_form(i, c1.state, c1.oldstate);
        let evs = slot_pass(i, added, c, rep).0;
        let cands = slot_candidates(i, c1.state, c1.oldstate);
        if i == added {
            assert(forall|k: int|
                1 <= k < evs.len() ==> evs[k] == cands[k - 1] && candidate_form(i, #[trigger] evs[k]));
        } else {
            assert(evs =~= cands);
            assert(forall|k: int|
                0 <= k < evs.len() ==> candidate_form(i, #[trigger] evs[k]));
        }
    }
}

} // verus!
