use vstd::prelude::*;
use crate::event::{Event, Key};

verus! {

/// A tick is due once `interval` has elapsed since the last one.
pub open spec fn tick_due(interval: int, last: int, now: int) -> bool {
    now >= last + interval
}

/// How long to wait for input before the next tick is due.
pub open spec fn wait_budget(interval: int, last: int, now: int) -> int {
    if tick_due(interval, last, now) {
        0
    } else if now < last {
        interval
    } else {
        last + interval - now
    }
}

/// The events emitted by one wake-up at `now`: the input first, then a tick if due.
pub open spec fn wake_events(interval: int, last: int, now: int, input: Option<Key>) -> Seq<
    Event,
> {
    let head = match input {
        Some(k) => seq![Event::Input(k)],
        None => Seq::<Event>::empty(),
    };
    if tick_due(interval, last, now) {
        head.push(Event::Tick)
    } else {
        head
    }
}

/// The time of the last tick after a wake-up at `now`.
pub open spec fn last_after(interval: int, last: int, now: int) -> int {
    if tick_due(interval, last, now) {
        now
    } else {
        last
    }
}

/// Ticks emitted by a run of wake-ups without input, at the times in `wakes`.
pub open spec fn idle_ticks(interval: int, last: int, wakes: Seq<int>) -> nat
    decreases wakes.len(),
{
    if wakes.len() == 0 {
        0
    } else {
        let now = wakes[0];
        let rest = idle_ticks(interval, last_after(interval, last, now), wakes.drop_first());
        if tick_due(interval, last, now) {
            rest + 1
        } else {
            rest
        }
    }
}

/// Ticks emitted by `n` wake-ups without input, each at the end of its wait budget.
pub open spec fn punctual_ticks(interval: int, last: int, now: int, n: nat) -> nat
    decreases n,
{
    if n == 0 {
        0
    } else {
        let wake = now + wait_budget(interval, last, now);
        let rest = punctual_ticks(interval, last_after(interval, last, wake), wake, (n - 1) as nat);
        if tick_due(interval, last, wake) {
            rest + 1
        } else {
            rest
        }
    }
}

/// The time of the last of `n` wake-ups without input, each at the end of its wait budget.
pub open spec fn punctual_end(interval: int, last: int, now: int, n: nat) -> int
    decreases n,
{
    if n == 0 {
        now
    } else {
        let wake = now + wait_budget(interval, last, now);
        punctual_end(interval, last_after(interval, last, wake), wake, (n - 1) as nat)
    }
}

/// Without input, however the wake-ups fall, the span of `k` intervals that
/// follows a tick holds at most `k` more ticks: ticks never come closer
/// together than the interval.
pub proof fn lemma_idle_ticks_at_most(interval: int, last: int, wakes: Seq<int>, k: nat)
    requires
        interval > 0,
        forall|i: int| 0 <= i < wakes.len() ==> last <= #[trigger] wakes[i] <= last + k * interval,
        forall|i: int, j: int| 0 <= i <= j < wakes.len() ==> wakes[i] <= wakes[j],
    ensures
        idle_ticks(interval, last, wakes) <= k,
    decreases wakes.len(),
{
    if wakes.len() > 0 {
        let now = wakes[0];
        let rest = wakes.drop_first();
        assert forall|i: int, j: int| 0 <= i <= j < rest.len() implies rest[i] <= rest[j] by {
            assert(rest[i] == wakes[i + 1] && rest[j] == wakes[j + 1]);
        }
        if tick_due(interval, last, now) {
            assert(k >= 1) by {
                if k == 0 {
                    assert(k * interval == 0);
                }
            }
            let k1 = (k - 1) as nat;
            assert(k1 * interval == k * interval - interval) by (nonlinear_arith)
                requires
                    k1 == k - 1,
            ;
            assert forall|i: int| 0 <= i < rest.len() implies now <= #[trigger] rest[i] <= now + k1
                * interval by {
                assert(rest[i] == wakes[i + 1]);
            }
            lemma_idle_ticks_at_most(interval, now, rest, k1);
        } else {
            assert forall|i: int| 0 <= i < rest.len() implies last <= #[trigger] rest[i] <= last + k
                * interval by {
                assert(rest[i] == wakes[i + 1]);
            }
            lemma_idle_ticks_at_most(interval, last, rest, k);
        }
    }
}

/// Without input, however the wake-ups fall, any span of `k` intervals holds
/// at most `k + 1` ticks.
pub proof fn lemma_idle_ticks_in_window(
    interval: int,
    last: int,
    wakes: Seq<int>,
    start: int,
    k: nat,
)
    requires
        interval > 0,
        forall|i: int| 0 <= i < wakes.len() ==> start <= #[trigger] wakes[i] <= start + k * interval,
        forall|i: int, j: int| 0 <= i <= j < wakes.len() ==> wakes[i] <= wakes[j],
    ensures
        idle_ticks(interval, last, wakes) <= k + 1,
    decreases wakes.len(),
{
    if wakes.len() > 0 {
        let now = wakes[0];
        let rest = wakes.drop_first();
        assert forall|i: int, j: int| 0 <= i <= j < rest.len() implies rest[i] <= rest[j] by {
            assert(rest[i] == wakes[i + 1] && rest[j] == wakes[j + 1]);
        }
        if tick_due(interval, last, now) {
            assert forall|i: int| 0 <= i < rest.len() implies now <= #[trigger] rest[i] <= now + k
                * interval by {
                assert(rest[i] == wakes[i + 1]);
            }
            lemma_idle_ticks_at_most(interval, now, rest, k);
        } else {
            assert forall|i: int| 0 <= i < rest.len() implies start <= #[trigger] rest[i] <= start
                + k * interval by {
                assert(rest[i] == wakes[i + 1]);
            }
            lemma_idle_ticks_in_window(interval, last, rest, start, k);
        }
    }
}

/// Without input, when each wait ends at its deadline, `n` wake-ups starting
/// at a tick span exactly `n` intervals and emit exactly `n` ticks.
pub proof fn lemma_punctual_cadence(interval: int, last: int, n: nat)
    requires
        interval > 0,
    ensures
        punctual_ticks(interval, last, last, n) == n,
        punctual_end(interval, last, last, n) == last + n * interval,
    decreases n,
{
    if n > 0 {
        let n1 = (n - 1) as nat;
        assert(wait_budget(interval, last, last) == interval);
        let wake = last + interval;
        assert(tick_due(interval, last, wake));
        lemma_punctual_cadence(interval, wake, n1);
        assert(wake + n1 * interval == last + n * interval) by (nonlinear_arith)
            requires
                wake == last + interval,
                n1 == n - 1,
        ;
    } else {
        assert(n * interval == 0) by (nonlinear_arith)
            requires
                n == 0,
        ;
    }
}

/// The timing decisions of the event multiplexer.
///
/// The poller asks `timeout` how long to wait for input, waits, and hands
/// `wake` the time and the key (if one came); `wake` returns what to send to
/// the render loop, in order. Times are milliseconds on a monotonic clock.
pub struct Ticker {
    pub interval: u64,
    pub last_tick: u64,
}

impl Ticker {
    pub fn new(interval: u64, now: u64) -> (r: Ticker)
        ensures
            r.interval == interval,
            r.last_tick == now,
    {
        Ticker { interval, last_tick: now }
    }

    pub fn timeout(&self, now: u64) -> (r: u64)
        ensures
            r == wait_budget(self.interval as int, self.last_tick as int, now as int),
    {
        if now >= self.last_tick {
            let elapsed = now - self.last_tick;
            if elapsed >= self.interval {
                0
            } else {
                self.interval - elapsed
            }
        } else {
            self.interval
        }
    }

    /// One wake-up of the poller: an input that came is sent at once, ahead of
    /// any tick; a tick is sent when one is due, and restarts the interval.
    pub fn wake(&mut self, now: u64, input: Option<Key>) -> (r: Vec<Event>)
        ensures
            r@ == wake_events(old(self).interval as int, old(self).last_tick as int, now as int, input),
            final(self).interval == old(self).interval,
            final(self).last_tick == last_after(old(self).interval as int, old(self).last_tick as int, now as int),
    {
        let mut out: Vec<Event> = Vec::new();
        if let Some(k) = input {
            out.push(Event::Input(k));
        }
        let due = now >= self.last_tick && now - self.last_tick >= self.interval;
        if due {
            out.push(Event::Tick);
            self.last_tick = now;
        }
        proof {
            let head = match input {
                Some(k) => seq![Event::Input(k)],
                None => Seq::<Event>::empty(),
            };
            if due {
                assert(out@ =~= head.push(Event::Tick));
            } else {
                assert(out@ =~= head);
            }
        }
        out
    }
}

} // verus!
