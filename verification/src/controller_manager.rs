//! The driver loop: a pull-based manager that drains buffered candidate
//! events through remap and filter, and refills the buffer with one poll
//! pass across all device slots when it runs dry.
//!
//! The device collaborator's work (enumeration, polling, releasing handles)
//! happens outside; each call to [`ControllerManager::update`] receives what
//! that pass observed and decides, per the pipeline's rules, which event the
//! consumer sees next.

use vstd::prelude::*;

use crate::diff::diff_slot;
use crate::diff::lemma_concat_assoc;
use crate::diff::lemma_slot_candidates_form;
use crate::diff::slot_candidates;
use crate::input::Input;
use crate::remap::Remapper;
use crate::remap::default_rule;
use crate::remap::game_cube_rule;
use crate::remap::remap_chain;
use crate::remap::spec_default_rule;
use crate::remap::spec_game_cube_rule;
use crate::state::Controller;
use crate::state::SlotReport;
use crate::state::after_diff;
use crate::state::init_added;
use crate::state::polled;

verus! {

/// The device collaborator's sentinel for "no slot was newly added this
/// pass".
pub const NO_ADDED: usize = usize::MAX;

/// What the delivery-level filter makes of one event for one controller:
/// the controller afterwards, and whether the event is delivered.
///
/// Continuous events (`Move`, `Camera`, `ThrottleL`, `ThrottleR`) are
/// compared against the last *delivered* value for that signal: dropped when
/// equal, stored and delivered when different. Everything else is always
/// delivered and changes nothing.
pub open spec fn spec_change(c: Controller, ev: Input) -> (Controller, bool) {
    match ev {
        Input::Move(x, y) => if c.move_xy != (x, y) {
            (Controller { move_xy: (x, y), ..c }, true)
        } else {
            (c, false)
        },
        Input::Camera(x, y) => if c.cam_xy != (x, y) {
            (Controller { cam_xy: (x, y), ..c }, true)
        } else {
            (c, false)
        },
        Input::ThrottleL(x) => if c.l_throttle != x {
            (Controller { l_throttle: x, ..c }, true)
        } else {
            (c, false)
        },
        Input::ThrottleR(x) => if c.r_throttle != x {
            (Controller { r_throttle: x, ..c }, true)
        } else {
            (c, false)
        },
        _ => (c, true),
    }
}

/// What one poll pass does at one slot: the candidate events it appends and
/// the controller entry afterwards.
///
/// A stale slot contributes nothing. A disconnected slot contributes exactly
/// one `UnPlugged` with the controller's stored logical id. A connected slot
/// is first initialised if it was the newly added one (bounds and id
/// recorded, one `PluggedIn` with the new id), then polled and diffed.
pub open spec fn slot_pass(i: usize, added: usize, c: Controller, rep: SlotReport) -> (
    Seq<(usize, Input)>,
    Controller,
) {
    if rep.stale {
        (Seq::empty(), c)
    } else if rep.disconnected {
        (seq![(i, Input::UnPlugged(c.id))], c)
    } else {
        let c0 = if i == added {
            init_added(c, rep)
        } else {
            c
        };
        let plug: Seq<(usize, Input)> = if i == added {
            seq![(i, Input::PluggedIn(c0.id))]
        } else {
            Seq::empty()
        };
        let c1 = polled(c0, rep.state);
        (plug + slot_candidates(i, c1.state, c1.oldstate), after_diff(c1))
    }
}

/// One poll pass over the first `n` slots, in slot order: all appended
/// candidates and the controller list afterwards.
pub open spec fn scan_pass(
    cs: Seq<Controller>,
    slots: Seq<SlotReport>,
    added: usize,
    n: int,
) -> (Seq<(usize, Input)>, Seq<Controller>)
    decreases n,
{
    if n <= 0 {
        (Seq::empty(), cs)
    } else {
        let prev = scan_pass(cs, slots, added, n - 1);
        let sp = slot_pass((n - 1) as usize, added, prev.1[n - 1], slots[n - 1]);
        (prev.0 + sp.0, prev.1.update(n - 1, sp.1))
    }
}

/// The controller list resized to `n` entries: truncated, or padded with
/// fresh empty entries.
pub open spec fn resize_model(cs: Seq<Controller>, n: int) -> Seq<Controller> {
    if n <= cs.len() {
        cs.take(n)
    } else {
        cs + Seq::new((n - cs.len()) as nat, |j: int| Controller::spec_empty())
    }
}

/// The controller list after the enumeration step: resized to the reported
/// count when a slot was newly added, untouched otherwise.
pub open spec fn resized(cs: Seq<Controller>, device_count: usize, added: usize) -> Seq<
    Controller,
> {
    if added == NO_ADDED {
        cs
    } else {
        resize_model(cs, device_count as int)
    }
}

/// Draining the candidate buffer, newest first: each candidate is remapped,
/// then filtered; the first one the filter delivers is the result, the rest
/// of the buffer is kept for later calls. Returns the controller list and
/// buffer afterwards and the delivered event, if any.
pub open spec fn drain(
    cs: Seq<Controller>,
    rules: Seq<Remapper>,
    buf: Seq<(usize, Input)>,
) -> (Seq<Controller>, Seq<(usize, Input)>, Option<(usize, Input)>)
    decreases buf.len(),
{
    if buf.len() == 0 {
        (cs, buf, None)
    } else {
        let cand = buf.last();
        let rest = buf.drop_last();
        let remapped = remap_chain(rules, cs, cand);
        let ch = spec_change(cs[remapped.0 as int], remapped.1);
        let cs2 = cs.update(remapped.0 as int, ch.0);
        if ch.1 {
            (cs2, rest, Some(remapped))
        } else {
            drain(cs2, rules, rest)
        }
    }
}

/// One whole "next event" call: drain the buffer; if nothing was delivered
/// and no refill happened yet (the reset flag is clear), run the poll pass
/// the arguments describe and drain what it produced. Returns the controller
/// list, buffer and reset flag afterwards, and the delivered event, if any.
pub open spec fn spec_update(
    cs: Seq<Controller>,
    rules: Seq<Remapper>,
    buf: Seq<(usize, Input)>,
    reset: bool,
    device_count: usize,
    added: usize,
    slots: Seq<SlotReport>,
) -> (Seq<Controller>, Seq<(usize, Input)>, bool, Option<(usize, Input)>) {
    let d1 = drain(cs, rules, buf);
    if d1.2 is Some {
        (d1.0, d1.1, reset, d1.2)
    } else if reset {
        (d1.0, d1.1, false, None)
    } else {
        let cr = resized(d1.0, device_count, added);
        let sc = scan_pass(cr, slots, added, device_count as int);
        let d2 = drain(sc.1, rules, sc.0);
        if d2.2 is Some {
            (d2.0, d2.1, true, d2.2)
        } else {
            (d2.0, d2.1, false, None)
        }
    }
}

/// A manager for controllers: the tracked controller entries, the remap rule
/// chain, the buffered candidate events, and the flag that limits the driver
/// loop to one device rescan per drained generation.
pub struct ControllerManager {
    pub controllers: Vec<Controller>,
    pub remap: Vec<Remapper>,
    pub input: Vec<(usize, Input)>,
    pub reset: bool,
}

/// Every event a slot pass appends names the slot it came from.
proof fn lemma_slot_pass_form(i: usize, added: usize, c: Controller, rep: SlotReport)
    ensures
        forall|k: int|
            0 <= k < slot_pass(i, added, c, rep).0.len() ==> (#[trigger] slot_pass(
                i,
                added,
                c,
                rep,
            ).0[k]).0 == i,
{
    if !rep.stale && !rep.disconnected {
        let c0 = if i == added {
            init_added(c, rep)
        } else {
            c
        };
        let c1 = polled(c0, rep.state);
        lemma_slot_candidates_form(i, c1.state, c1.oldstate);
    }
}

/// A scan pass keeps the controller count and only emits events for slots it
/// visited, so every buffered slot index stays within the controller list.
proof fn lemma_scan_pass_form(cs: Seq<Controller>, slots: Seq<SlotReport>, added: usize, n: int)
    requires
        n <= cs.len(),
    ensures
        scan_pass(cs, slots, added, n).1.len() == cs.len(),
        forall|k: int|
            0 <= k < scan_pass(cs, slots, added, n).0.len() ==> (#[trigger] scan_pass(
                cs,
                slots,
                added,
                n,
            ).0[k]).0 < cs.len(),
    decreases n,
{
    if n > 0 {
        lemma_scan_pass_form(cs, slots, added, n - 1);
        let prev = scan_pass(cs, slots, added, n - 1);
        lemma_slot_pass_form((n - 1) as usize, added, prev.1[n - 1], slots[n - 1]);
    }
}

impl ControllerManager {
    /// Every buffered candidate names a slot the controller list covers, so
    /// draining never meets a slot without a tracked controller.
    pub open spec fn wf(self) -> bool {
        forall|k: int|
            0 <= k < self.input@.len() ==> (#[trigger] self.input@[k]).0
                < self.controllers@.len()
    }

    /// Builds a manager around the given user rules, bounded by the two
    /// built-ins: the device-canonical rule first, the catch-all default
    /// last, so device-specific fixups run closest to the hardware and the
    /// generic fallback closest to delivery.
    pub fn new(remap: Vec<Remapper>) -> (r: ControllerManager)
        ensures
            r.controllers@ == Seq::<Controller>::empty(),
            r.input@ == Seq::<(usize, Input)>::empty(),
            r.reset == false,
            r.remap@ == seq![spec_game_cube_rule()] + remap@ + seq![spec_default_rule()],
            r.wf(),
    {
        let ghost user = remap@;
        let mut remap = remap;
        remap.insert(0, game_cube_rule());
        remap.push(default_rule());
        proof {
            assert(remap@ =~= seq![spec_game_cube_rule()] + user + seq![spec_default_rule()]);
        }
        ControllerManager { controllers: Vec::new(), remap, input: Vec::new(), reset: false }
    }

    /// Applies the rule chain to one candidate event, in list order; each
    /// rule applies when its filter is the wildcard or matches the logical
    /// id of the controller at the event's current slot.
    fn remap(&self, input: (usize, Input)) -> (r: (usize, Input))
        requires
            input.0 < self.controllers@.len(),
        ensures
            r == remap_chain(self.remap@, self.controllers@, input),
            r.0 == input.0,
    {
        let mut cur = input;
        let mut j: usize = 0;
        proof {
            assert(self.remap@.skip(0) =~= self.remap@);
        }
        while j < self.remap.len()
            invariant
                j <= self.remap@.len(),
                cur.0 == input.0,
                input.0 < self.controllers@.len(),
                remap_chain(self.remap@, self.controllers@, input) == remap_chain(
                    self.remap@.skip(j as int),
                    self.controllers@,
                    cur,
                ),
            decreases self.remap@.len() - j,
        {
            let ghost cur0 = cur;
            let rule = self.remap[j];
            if rule.id == self.controllers[cur.0].id || rule.id == 0 {
                cur = rule.transform.apply(cur.0, cur.1);
            }
            proof {
                assert(cur == crate::remap::rule_step(rule, self.controllers@, cur0));
                assert(self.remap@.skip(j as int).skip(1) =~= self.remap@.skip(j as int + 1));
                assert(self.remap@.skip(j as int)[0] == rule);
            }
            j = j + 1;
        }
        proof {
            assert(self.remap@.skip(self.remap@.len() as int) =~= Seq::<Remapper>::empty());
        }
        cur
    }

    /// The delivery-level filter: drops a continuous event equal to the last
    /// delivered value for its signal, stores and delivers it otherwise;
    /// discrete events always pass.
    fn change(&mut self, input: (usize, Input)) -> (r: Option<(usize, Input)>)
        requires
            input.0 < old(self).controllers@.len(),
        ensures
            final(self).remap == old(self).remap,
            final(self).input == old(self).input,
            final(self).reset == old(self).reset,
            final(self).controllers@ == old(self).controllers@.update(
                input.0 as int,
                spec_change(old(self).controllers@[input.0 as int], input.1).0,
            ),
            r == (if spec_change(old(self).controllers@[input.0 as int], input.1).1 {
                Some(input)
            } else {
                None::<(usize, Input)>
            }),
    {
        let i: usize = input.0;
        let mut c = self.controllers[i];
        let mut deliver: bool = true;
        match input.1 {
            Input::Move(x, y) => {
                if x != c.move_xy.0 || y != c.move_xy.1 {
                    c.move_xy = (x, y);
                } else {
                    deliver = false;
                }
            },
            Input::Camera(x, y) => {
                if x != c.cam_xy.0 || y != c.cam_xy.1 {
                    c.cam_xy = (x, y);
                } else {
                    deliver = false;
                }
            },
            Input::ThrottleL(x) => {
                if x != c.l_throttle {
                    c.l_throttle = x;
                } else {
                    deliver = false;
                }
            },
            Input::ThrottleR(x) => {
                if x != c.r_throttle {
                    c.r_throttle = x;
                } else {
                    deliver = false;
                }
            },
            _ => {},
        }
        self.controllers[i] = c;
        if deliver {
            Some(input)
        } else {
            None
        }
    }

    /// One poll pass at one slot, exactly as `slot_pass` describes it.
    fn pass_slot(&mut self, i: usize, added: usize, rep: SlotReport)
        requires
            i < old(self).controllers@.len(),
        ensures
            final(self).remap == old(self).remap,
            final(self).reset == old(self).reset,
            final(self).controllers@ == old(self).controllers@.update(
                i as int,
                slot_pass(i, added, old(self).controllers@[i as int], rep).1,
            ),
            final(self).input@ == old(self).input@ + slot_pass(
                i,
                added,
                old(self).controllers@[i as int],
                rep,
            ).0,
    {
        let ghost c_init = self.controllers@[i as int];
        let ghost sp = slot_pass(i, added, c_init, rep);
        if rep.stale {
            proof {
                assert(self.controllers@ =~= self.controllers@.update(i as int, c_init));
                assert(self.input@ =~= self.input@ + sp.0);
            }
            return ;
        }
        if rep.disconnected {
            let unplug_id = self.controllers[i].id;
            self.input.push((i, Input::UnPlugged(unplug_id)));
            proof {
                assert(self.input@ =~= old(self).input@ + sp.0);
                assert(self.controllers@ =~= self.controllers@.update(i as int, c_init));
            }
            return ;
        }
        let mut c = self.controllers[i];
        if i == added {
            c = Controller {
                oldstate: crate::state::State { min: rep.min, max: rep.max, ..c.oldstate },
                state: crate::state::State { min: rep.min, max: rep.max, ..c.state },
                id: rep.id,
                ..c
            };
            self.input.push((i, Input::PluggedIn(c.id)));
        }
        let ghost c0 = if i == added {
            init_added(c_init, rep)
        } else {
            c_init
        };
        let ghost plug: Seq<(usize, Input)> = if i == added {
            seq![(i, Input::PluggedIn(c0.id))]
        } else {
            Seq::empty()
        };
        proof {
            assert(c == c0);
            assert(self.input@ =~= old(self).input@ + plug);
        }
        c = Controller {
            state: crate::state::State { min: c.state.min, max: c.state.max, ..rep.state },
            ..c
        };
        proof {
            assert(c == polled(c0, rep.state));
        }
        let ghost c1 = polled(c0, rep.state);
        diff_slot(&mut self.input, i, &mut c);
        self.controllers[i] = c;
        proof {
            assert(c == after_diff(c1));
            lemma_concat_assoc(
                old(self).input@,
                plug,
                slot_candidates(i, c1.state, c1.oldstate),
            );
            assert(self.input@ == old(self).input@ + (plug + slot_candidates(
                i,
                c1.state,
                c1.oldstate,
            )));
            assert(sp.0 == plug + slot_candidates(i, c1.state, c1.oldstate));
        }
    }

    /// The refill half of the driver loop: resize the tracked list when the
    /// enumeration reported an added slot, then run the poll pass over every
    /// slot, appending all candidates the pass produces.
    fn refill(&mut self, device_count: usize, added: usize, slots: &Vec<SlotReport>)
        requires
            old(self).input@.len() == 0,
            slots@.len() >= device_count,
            added == NO_ADDED ==> device_count <= old(self).controllers@.len(),
        ensures
            final(self).remap == old(self).remap,
            final(self).reset == old(self).reset,
            final(self).controllers@ == scan_pass(
                resized(old(self).controllers@, device_count, added),
                slots@,
                added,
                device_count as int,
            ).1,
            final(self).input@ == scan_pass(
                resized(old(self).controllers@, device_count, added),
                slots@,
                added,
                device_count as int,
            ).0,
            final(self).controllers@.len() >= device_count,
            forall|k: int|
                0 <= k < final(self).input@.len() ==> (#[trigger] final(self).input@[k]).0
                    < final(self).controllers@.len(),
    {
        let ghost cs_orig = self.controllers@;
        if added != NO_ADDED {
            proof {
                assert(self.controllers@ =~= cs_orig.take(self.controllers@.len() as int));
            }
            while self.controllers.len() > device_count
                invariant
                    self.controllers@.len() <= cs_orig.len(),
                    self.controllers@.len() >= device_count || self.controllers@.len()
                        == cs_orig.len(),
                    self.controllers@ == cs_orig.take(self.controllers@.len() as int),
                    self.input == old(self).input,
                    self.remap == old(self).remap,
                    self.reset == old(self).reset,
                decreases self.controllers@.len(),
            {
                let dropped = self.controllers.pop();
                proof {
                    assert(self.controllers@ =~= cs_orig.take(self.controllers@.len() as int));
                }
            }
            proof {
                assert(self.controllers@ =~= resize_model(
                    cs_orig,
                    self.controllers@.len() as int,
                ));
            }
            while self.controllers.len() < device_count
                invariant
                    self.controllers@.len() <= device_count,
                    self.controllers@.len() >= cs_orig.len() || self.controllers@.len()
                        >= device_count,
                    self.controllers@ == resize_model(cs_orig, self.controllers@.len() as int),
                    self.input == old(self).input,
                    self.remap == old(self).remap,
                    self.reset == old(self).reset,
                decreases device_count - self.controllers@.len(),
            {
                self.controllers.push(Controller::empty());
                proof {
                    assert(self.controllers@ =~= resize_model(
                        cs_orig,
                        self.controllers@.len() as int,
                    ));
                }
            }
            proof {
                assert(self.controllers@.len() == device_count);
            }
        }
        let ghost cr = resized(cs_orig, device_count, added);
        proof {
            assert(self.controllers@ == cr);
            assert(cr.len() >= device_count);
            lemma_scan_pass_form(cr, slots@, added, device_count as int);
            assert(self.input@ =~= self.input@ + scan_pass(cr, slots@, added, 0).0);
        }
        let mut i: usize = 0;
        while i < device_count
            invariant
                i <= device_count,
                slots@.len() >= device_count,
                device_count <= cr.len(),
                self.remap == old(self).remap,
                self.reset == old(self).reset,
                self.controllers@.len() == cr.len(),
                self.controllers@ == scan_pass(cr, slots@, added, i as int).1,
                self.input@ == old(self).input@ + scan_pass(cr, slots@, added, i as int).0,
            decreases device_count - i,
        {
            let ghost pre = scan_pass(cr, slots@, added, i as int);
            let rep = slots[i];
            self.pass_slot(i, added, rep);
            proof {
                let sp = slot_pass(i, added, pre.1[i as int], rep);
                lemma_concat_assoc(old(self).input@, pre.0, sp.0);
                assert(scan_pass(cr, slots@, added, i as int + 1).0 == pre.0 + sp.0);
                assert(scan_pass(cr, slots@, added, i as int + 1).1 == pre.1.update(
                    i as int,
                    sp.1,
                ));
            }
            i = i + 1;
        }
        proof {
            lemma_scan_pass_form(cr, slots@, added, device_count as int);
            assert(self.input@ =~= scan_pass(cr, slots@, added, device_count as int).0);
        }
    }

    /// Serves the next input event, as `spec_update` describes: drains the
    /// buffered candidates through remap and filter, refilling the buffer
    /// with at most one poll pass (the one the arguments describe) per
    /// drained generation; returns `None` when this generation is exhausted.
    ///
    /// `device_count` and `added` are what the device collaborator's
    /// enumeration reported (`added` is `NO_ADDED` or the newly appeared
    /// slot), and `slots[i]` what it observed at slot `i` this pass.
    #[verifier::rlimit(100)]
    pub fn update(&mut self, device_count: usize, added: usize, slots: &Vec<SlotReport>) -> (r:
        Option<(usize, Input)>)
        requires
            old(self).wf(),
            slots@.len() >= device_count,
            added == NO_ADDED ==> device_count <= old(self).controllers@.len(),
        ensures
            final(self).wf(),
            final(self).remap == old(self).remap,
            ({
                let m = spec_update(
                    old(self).controllers@,
                    old(self).remap@,
                    old(self).input@,
                    old(self).reset,
                    device_count,
                    added,
                    slots@,
                );
                &&& final(self).controllers@ == m.0
                &&& final(self).input@ == m.1
                &&& final(self).reset == m.2
                &&& r == m.3
            }),
    {
        let ghost m0 = spec_update(
            old(self).controllers@,
            old(self).remap@,
            old(self).input@,
            old(self).reset,
            device_count,
            added,
            slots@,
        );
        loop
            invariant
                m0 == spec_update(
                    old(self).controllers@,
                    old(self).remap@,
                    old(self).input@,
                    old(self).reset,
                    device_count,
                    added,
                    slots@,
                ),
                self.wf(),
                self.remap == old(self).remap,
                slots@.len() >= device_count,
                added == NO_ADDED ==> device_count <= self.controllers@.len(),
                spec_update(
                    self.controllers@,
                    self.remap@,
                    self.input@,
                    self.reset,
                    device_count,
                    added,
                    slots@,
                ) == m0,
            decreases (if self.reset {
                0int
            } else {
                1int
            }), self.input@.len(),
        {
            let ghost cs0 = self.controllers@;
            let ghost buf0 = self.input@;
            let popped = self.input.pop();
            if let Some(cand) = popped {
                proof {
                    assert(cand == buf0.last());
                    assert(self.input@ == buf0.drop_last());
                    assert(cand == buf0[buf0.len() - 1]);
                    assert(cand.0 < cs0.len());
                }
                let remapped = self.remap(cand);
                let delivered = self.change(remapped);
                proof {
                    assert forall|k: int|
                        0 <= k < self.input@.len() implies (#[trigger] self.input@[k]).0
                        < self.controllers@.len() by {
                        assert(self.input@[k] == buf0[k]);
                    }
                }
                if let Some(out) = delivered {
                    proof {
                        assert(drain(cs0, self.remap@, buf0) == (
                            self.controllers@,
                            self.input@,
                            Some(remapped),
                        ));
                        assert(m0 == (self.controllers@, self.input@, self.reset, Some(out)));
                    }
                    return Some(out);
                }
                proof {
                    assert(drain(cs0, self.remap@, buf0) == drain(
                        self.controllers@,
                        self.remap@,
                        self.input@,
                    ));
                    assert(spec_update(
                        self.controllers@,
                        self.remap@,
                        self.input@,
                        self.reset,
                        device_count,
                        added,
                        slots@,
                    ) == m0);
                }
            } else if self.reset {
                self.reset = false;
                proof {
                    assert(buf0.len() == 0);
                    assert(drain(cs0, self.remap@, buf0) == (
                        cs0,
                        buf0,
                        None::<(usize, Input)>,
                    ));
                    assert(m0 == (self.controllers@, self.input@, false, None::<(usize, Input)>));
                }
                return None;
            } else {
                self.reset = true;
                self.refill(device_count, added, slots);
                proof {
                    assert(buf0.len() == 0);
                    assert(drain(cs0, self.remap@, buf0) == (
                        cs0,
                        buf0,
                        None::<(usize, Input)>,
                    ));
                    assert(spec_update(
                        self.controllers@,
                        self.remap@,
                        self.input@,
                        self.reset,
                        device_count,
                        added,
                        slots@,
                    ) == m0);
                }
            }
        }
    }
}

} // verus!
