//! The admission loop's decisions: which items start at each tick.

use vstd::prelude::*;
use crate::admission::{AdmissionController, TickDecision, TIME_LIMIT};

verus! {

/// What a tick asks of the loop: pause for `wait` milliseconds, then start
/// the `count` items from index `first` on, in input order.
#[derive(Clone, Copy, Debug, PartialEq, Eq, Structural)]
pub struct Dispatch {
    pub wait: u64,
    pub first: usize,
    pub count: usize,
}

/// The queue of items not yet started, taken in input order, and the controller
/// that paces it.
#[derive(Clone, Copy, Debug, PartialEq, Eq, Structural)]
pub struct Dispatcher {
    pub next: usize,
    pub total: usize,
    pub controller: AdmissionController,
}

impl Dispatcher {
    pub open spec fn wf(self) -> bool {
        &&& self.next <= self.total
        &&& self.controller.wf()
    }

    pub open spec fn pending_spec(self) -> usize {
        (self.total - self.next) as usize
    }

    /// The dispatcher after a tick at `now`.
    pub open spec fn after_tick(self, now: u64) -> Dispatcher {
        let (c, d) = self.controller.next(now, self.pending_spec());
        Dispatcher { next: (self.next + d.start_count) as usize, total: self.total, controller: c }
    }

    /// The dispatcher after ticks at each of `nows`, in turn.
    pub open spec fn after_ticks(self, nows: Seq<u64>) -> Dispatcher
        decreases nows.len(),
    {
        if nows.len() == 0 {
            self
        } else {
            self.after_tick(nows[0]).after_ticks(nows.drop_first())
        }
    }

    /// Ticks at `nows` that `on_tick` accepts, one after the other.
    pub open spec fn accepts(self, nows: Seq<u64>) -> bool
        decreases nows.len(),
    {
        nows.len() > 0 ==> {
            &&& self.controller.window_start <= nows[0] <= TIME_LIMIT
            &&& self.after_tick(nows[0]).accepts(nows.drop_first())
        }
    }

    /// A queue of `total` items, none started, whose controller opens at `now`.
    pub fn new(total: usize, now: u64) -> (r: Dispatcher)
        requires
            now <= TIME_LIMIT,
        ensures
            r.next == 0,
            r.total == total,
            r.controller.window_start == now,
            r.controller.admitted_in_window == 0,
            r.wf(),
    {
        Dispatcher { next: 0, total, controller: AdmissionController::new(now) }
    }

    /// Number of items not yet started.
    pub fn pending(&self) -> (n: usize)
        requires
            self.wf(),
        ensures
            n == self.total - self.next,
    {
        self.total - self.next
    }

    /// Whether every item has been started.
    pub fn is_drained(&self) -> (b: bool)
        ensures
            b == (self.next >= self.total),
    {
        self.next >= self.total
    }

    /// Decides the tick at `now`: the controller says how many may start, and
    /// they are the next ones in input order. While items remain, every
    /// tick starts at least one, so the loop ends after at most `total`
    /// ticks.
    pub fn on_tick(&mut self, now: u64) -> (d: Dispatch)
        requires
            old(self).wf(),
            old(self).controller.window_start <= now <= TIME_LIMIT,
        ensures
            final(self).wf(),
            (final(self).controller, TickDecision { wait: d.wait, start_count: d.count }) == old(
                self,
            ).controller.next(now, old(self).pending_spec()),
            *final(self) == old(self).after_tick(now),
            d.first == old(self).next,
            final(self).next == old(self).next + d.count,
            final(self).total == old(self).total,
            old(self).next < old(self).total ==> d.count >= 1,
    {
        let pending = self.total - self.next;
        let t = self.controller.tick(now, pending);
        let first = self.next;
        self.next = self.next + t.start_count;
        Dispatch { wait: t.wait, first, count: t.start_count }
    }
}

/// A run always ends: from any state, as many accepted ticks as there are
/// items left start every one of them.
pub proof fn lemma_ticks_drain(q: Dispatcher, nows: Seq<u64>)
    requires
        q.wf(),
        q.accepts(nows),
        nows.len() >= q.total - q.next,
    ensures
        q.after_ticks(nows).next == q.total,
        q.after_ticks(nows).wf(),
    decreases nows.len(),
{
    if nows.len() > 0 {
        let q2 = q.after_tick(nows[0]);
        assert(q2.wf());
        lemma_ticks_drain(q2, nows.drop_first());
    }
}

} // verus!
