use vstd::prelude::*;
use std::collections::VecDeque;
use crate::adapter::{ingest, ingested, Filter};
use crate::event::{is_quit, quit_key, Event, Key};
use crate::record::Record;
use crate::view_model::{newest, next_selection, prev_selection, ViewModel};

verus! {

/// The render loop's state: it runs until the quit key, then stays terminated.
#[derive(Clone, Copy, Debug, PartialEq, Eq, Structural)]
pub enum Phase {
    Running,
    Terminated,
}

/// What the loop around the dashboard must do after an event.
#[derive(Clone, Copy, Debug, PartialEq, Eq, Structural)]
pub enum Action {
    /// Draw the current snapshot.
    Redraw,
    /// Restore the terminal and leave the loop.
    RestoreAndExit,
    /// Nothing to do.
    Idle,
}

pub open spec fn is_quit_event(ev: Event) -> bool {
    ev matches Event::Input(k) && k == quit_key()
}

pub open spec fn phase_after(p: Phase, ev: Event) -> Phase {
    if p == Phase::Running && is_quit_event(ev) {
        Phase::Terminated
    } else {
        p
    }
}

pub open spec fn action_for(p: Phase, ev: Event) -> Action {
    match p {
        Phase::Terminated => Action::Idle,
        Phase::Running => match ev {
            Event::Tick => Action::Redraw,
            Event::Input(k) => if k == quit_key() {
                Action::RestoreAndExit
            } else if k == Key::Up || k == Key::Down {
                Action::Redraw
            } else {
                Action::Idle
            },
            Event::Fetched(_) => Action::Idle,
        },
    }
}

/// The records after an event: only a lookup outcome while running changes them.
pub open spec fn records_after(p: Phase, rs: Seq<Record>, ev: Event, filter: Filter, cap: nat) -> Seq<
    Record,
> {
    match ev {
        Event::Fetched(item) => if p == Phase::Running {
            ingested(rs, item, filter, cap)
        } else {
            rs
        },
        _ => rs,
    }
}

/// The selection after an event.
pub open spec fn selection_after(
    p: Phase,
    rs: Seq<Record>,
    sel: Option<usize>,
    ev: Event,
    filter: Filter,
    cap: nat,
) -> Option<usize> {
    if p == Phase::Terminated {
        sel
    } else {
        match ev {
            Event::Input(Key::Down) => next_selection(sel, rs.len()),
            Event::Input(Key::Up) => prev_selection(sel),
            Event::Fetched(Some(r)) => if filter.admits(r) {
                newest(ingested(rs, Some(r), filter, cap))
            } else {
                sel
            },
            _ => sel,
        }
    }
}

/// The phase after each of `evs` in turn.
pub open spec fn phase_after_all(p: Phase, evs: Seq<Event>) -> Phase
    decreases evs.len(),
{
    if evs.len() == 0 {
        p
    } else {
        phase_after(phase_after_all(p, evs.drop_last()), evs.last())
    }
}

/// How many times the events `evs` ask for the terminal to be restored.
pub open spec fn restore_count(p: Phase, evs: Seq<Event>) -> nat
    decreases evs.len(),
{
    if evs.len() == 0 {
        0
    } else {
        let before = restore_count(p, evs.drop_last());
        if action_for(phase_after_all(p, evs.drop_last()), evs.last()) == Action::RestoreAndExit {
            before + 1
        } else {
            before
        }
    }
}

/// The render loop's decisions: the view model, the phase, and the stream's filter.
pub struct Dashboard {
    pub view: ViewModel,
    pub phase: Phase,
    pub filter: Filter,
}

impl Dashboard {
    pub open spec fn inv(&self) -> bool {
        self.view.inv()
    }

    pub fn new(capacity: usize, filter: Filter) -> (r: Dashboard)
        ensures
            r.inv(),
            r.phase == Phase::Running,
            r.filter == filter,
            r.view.records() == Seq::<Record>::empty(),
            r.view.selection() is None,
            r.view.capacity() == capacity,
    {
        Dashboard { view: ViewModel::new(capacity), phase: Phase::Running, filter }
    }

    /// Consumes one event and says what to do next. Once terminated, every event is ignored.
    pub fn handle(&mut self, ev: Event) -> (a: Action)
        requires
            old(self).inv(),
        ensures
            final(self).inv(),
            a == action_for(old(self).phase, ev),
            final(self).phase == phase_after(old(self).phase, ev),
            final(self).filter == old(self).filter,
            final(self).view.capacity() == old(self).view.capacity(),
            final(self).view.records() == records_after(
                old(self).phase,
                old(self).view.records(),
                ev,
                old(self).filter,
                old(self).view.capacity(),
            ),
            final(self).view.selection() == selection_after(
                old(self).phase,
                old(self).view.records(),
                old(self).view.selection(),
                ev,
                old(self).filter,
                old(self).view.capacity(),
            ),
    {
        if self.phase == Phase::Terminated {
            return Action::Idle;
        }
        match ev {
            Event::Tick => Action::Redraw,
            Event::Input(k) => {
                if is_quit(k) {
                    self.phase = Phase::Terminated;
                    Action::RestoreAndExit
                } else if k == Key::Down {
                    self.view.select_next();
                    Action::Redraw
                } else if k == Key::Up {
                    self.view.select_prev();
                    Action::Redraw
                } else {
                    Action::Idle
                }
            },
            Event::Fetched(item) => {
                let _ = ingest(&mut self.view, item, self.filter);
                Action::Idle
            },
        }
    }
}

/// Pressing quit ends a running session exactly once: after any events that
/// hold a quit key the session is terminated and has asked for the terminal to
/// be restored once, and without one it is still running and has asked for nothing.
pub proof fn lemma_quit_exactly_once(evs: Seq<Event>)
    ensures
        (exists|i: int| 0 <= i < evs.len() && is_quit_event(#[trigger] evs[i])) ==> (
        phase_after_all(Phase::Running, evs) == Phase::Terminated && restore_count(
            Phase::Running,
            evs,
        ) == 1),
        (forall|i: int| 0 <= i < evs.len() ==> !is_quit_event(#[trigger] evs[i])) ==> (
        phase_after_all(Phase::Running, evs) == Phase::Running && restore_count(
            Phase::Running,
            evs,
        ) == 0),
    decreases evs.len(),
{
    if evs.len() > 0 {
        let p = evs.drop_last();
        lemma_quit_exactly_once(p);
        if exists|i: int| 0 <= i < p.len() && is_quit_event(#[trigger] p[i]) {
            let i = choose|i: int| 0 <= i < p.len() && is_quit_event(#[trigger] p[i]);
            assert(evs[i] == p[i]);
        } else {
            assert forall|i: int| 0 <= i < p.len() implies !is_quit_event(#[trigger] evs[i]) by {
                assert(evs[i] == p[i]);
            }
            if is_quit_event(evs.last()) {
                assert(is_quit_event(evs[evs.len() - 1]));
            } else {
                assert forall|i: int| 0 <= i < evs.len() implies !is_quit_event(#[trigger] evs[i]) by {
                    if i < p.len() {
                        assert(evs[i] == p[i]);
                    }
                }
            }
        }
    }
}

/// A backlog of events with each run of consecutive ticks reduced to one tick.
pub open spec fn coalesced(s: Seq<Event>) -> Seq<Event>
    decreases s.len(),
{
    if s.len() == 0 {
        s
    } else {
        let p = coalesced(s.drop_last());
        if s.last() is Tick && s.len() >= 2 && s[s.len() - 2] is Tick {
            p
        } else {
            p.push(s.last())
        }
    }
}

/// Reduces each run of consecutive pending ticks to one, so a backlog causes one redraw.
pub fn coalesce_ticks(pending: VecDeque<Event>) -> (r: Vec<Event>)
    ensures
        r@ == coalesced(pending@),
{
    let ghost orig = pending@;
    let mut pending = pending;
    let mut out: Vec<Event> = Vec::new();
    let mut prev_tick = false;
    let n: usize = pending.len();
    let mut i: usize = 0;
    while pending.len() > 0
        invariant
            n == orig.len(),
            i <= orig.len(),
            pending@ == orig.skip(i as int),
            out@ == coalesced(orig.take(i as int)),
            prev_tick == (i > 0 && orig[i - 1] is Tick),
        decreases pending@.len(),
    {
        let ghost s = orig.take(i + 1);
        assert(s.drop_last() =~= orig.take(i as int));
        match pending.pop_front() {
            Some(e) => {
                assert(e == orig[i as int]);
                let is_tick = matches!(e, Event::Tick);
                if !(is_tick && prev_tick) {
                    out.push(e);
                }
                prev_tick = is_tick;
            },
            None => {},
        }
        i = i + 1;
        assert(pending@ =~= orig.skip(i as int));
    }
    assert(orig.take(i as int) =~= orig);
    out
}

} // verus!
