//! Admission control: how many new items may start at each tick.
//!
//! Times are milliseconds on a clock that never runs backwards. At most
//! `BATCH_CEILING` items start per tick, and at most `QUOTA` within one
//! quota window. Once the quota is used up the next tick waits until the
//! window has lasted `WINDOW_MS`, then opens a new window.

use vstd::prelude::*;

verus! {

/// Most items admitted by one tick.
pub const BATCH_CEILING: usize = 2;

/// Most items admitted within one quota window.
pub const QUOTA: u64 = 20;

/// Length of a quota window, in milliseconds.
pub const WINDOW_MS: u64 = 60000;

/// Time between two ticks, in milliseconds.
pub const TICK_MS: u64 = 1000;

/// Latest time a tick may carry, so that a window's end fits in a `u64`.
pub const TIME_LIMIT: u64 = 18446744073709491615;

/// What one tick decided: first pause for `wait` milliseconds (no item
/// starts during the pause), then start `start_count` items.
#[derive(Clone, Copy, Debug, PartialEq, Eq, Structural)]
pub struct TickDecision {
    pub wait: u64,
    pub start_count: usize,
}

/// The rolling quota: when the current window opened, and how many items
/// it has admitted so far.
#[derive(Clone, Copy, Debug, PartialEq, Eq, Structural)]
pub struct AdmissionController {
    pub window_start: u64,
    pub admitted_in_window: u64,
}

pub open spec fn min(a: int, b: int) -> int {
    if a <= b {
        a
    } else {
        b
    }
}

impl AdmissionController {
    pub open spec fn wf(self) -> bool {
        self.admitted_in_window <= QUOTA
    }

    /// The pause that a tick at `now` must take before admitting anything:
    /// the rest of the window once the quota is used up, else none.
    pub open spec fn cool_down(self, now: u64) -> int {
        if self.admitted_in_window >= QUOTA && now - self.window_start < WINDOW_MS {
            WINDOW_MS - (now - self.window_start)
        } else {
            0
        }
    }

    /// The window in force after the pause of a tick at `now`.
    pub open spec fn window_after_pause(self, now: u64) -> AdmissionController {
        if self.admitted_in_window >= QUOTA {
            AdmissionController {
                window_start: (now + self.cool_down(now)) as u64,
                admitted_in_window: 0,
            }
        } else {
            self
        }
    }

    /// The state and the decision of a tick at `now` with `pending` items
    /// left to start: as many as both ceilings and the queue allow.
    pub open spec fn next(self, now: u64, pending: usize) -> (AdmissionController, TickDecision) {
        let w = self.window_after_pause(now);
        let n = min(min(BATCH_CEILING as int, pending as int), QUOTA - w.admitted_in_window);
        (
            AdmissionController {
                window_start: w.window_start,
                admitted_in_window: (w.admitted_in_window + n) as u64,
            },
            TickDecision { wait: self.cool_down(now) as u64, start_count: n as usize },
        )
    }

    /// A controller whose first window opens at `now`.
    pub fn new(now: u64) -> (r: AdmissionController)
        requires
            now <= TIME_LIMIT,
        ensures
            r.window_start == now,
            r.admitted_in_window == 0,
            r.wf(),
    {
        AdmissionController { window_start: now, admitted_in_window: 0 }
    }

    /// Decides the tick at `now`, with `pending` items waiting to start.
    pub fn tick(&mut self, now: u64, pending: usize) -> (d: TickDecision)
        requires
            old(self).wf(),
            old(self).window_start <= now <= TIME_LIMIT,
        ensures
            (*final(self), d) == old(self).next(now, pending),
            final(self).wf(),
            final(self).window_start >= old(self).window_start,
            final(self).window_start <= now + d.wait,
            old(self).admitted_in_window >= QUOTA ==> final(self).window_start == now + d.wait,
            d.start_count <= BATCH_CEILING,
            d.start_count <= pending,
            pending > 0 ==> d.start_count >= 1,
            d.wait > 0 ==> now + d.wait == old(self).window_start + WINDOW_MS,
    {
        let mut wait: u64 = 0;
        if self.admitted_in_window >= QUOTA {
            let elapsed = now - self.window_start;
            if elapsed < WINDOW_MS {
                wait = WINDOW_MS - elapsed;
            }
            self.window_start = now + wait;
            self.admitted_in_window = 0;
        }
        let mut start_count: usize = if pending < BATCH_CEILING {
            pending
        } else {
            BATCH_CEILING
        };
        let room = QUOTA - self.admitted_in_window;
        if (start_count as u64) > room {
            start_count = room as usize;
        }
        self.admitted_in_window = self.admitted_in_window + start_count as u64;
        TickDecision { wait, start_count }
    }
}

/// A run of ticks at times `nows`, with `pendings` items waiting at each,
/// that the controller accepts from state `c`: no tick comes before the window in
/// force opened, nor after `TIME_LIMIT`.
pub open spec fn valid_run(c: AdmissionController, nows: Seq<u64>, pendings: Seq<usize>) -> bool
    decreases nows.len(),
{
    &&& nows.len() == pendings.len()
    &&& nows.len() > 0 ==> {
        &&& c.window_start <= nows[0] <= TIME_LIMIT
        &&& valid_run(c.next(nows[0], pendings[0]).0, nows.drop_first(), pendings.drop_first())
    }
}

/// How many items a run of ticks from state `c` starts at times before
/// `limit`. Each tick starts its items once its pause is over.
pub open spec fn started_before(
    c: AdmissionController,
    nows: Seq<u64>,
    pendings: Seq<usize>,
    limit: int,
) -> int
    decreases nows.len(),
{
    if nows.len() == 0 || nows.len() != pendings.len() {
        0
    } else {
        let (c2, d) = c.next(nows[0], pendings[0]);
        (if nows[0] + d.wait < limit {
            d.start_count as int
        } else {
            0
        }) + started_before(c2, nows.drop_first(), pendings.drop_first(), limit)
    }
}

proof fn lemma_nothing_before_window(
    c: AdmissionController,
    nows: Seq<u64>,
    pendings: Seq<usize>,
    limit: int,
)
    requires
        c.wf(),
        valid_run(c, nows, pendings),
        limit <= c.window_start,
    ensures
        started_before(c, nows, pendings, limit) == 0,
    decreases nows.len(),
{
    if nows.len() > 0 {
        let (c2, d) = c.next(nows[0], pendings[0]);
        lemma_nothing_before_window(c2, nows.drop_first(), pendings.drop_first(), limit);
    }
}

/// The quota holds over every window: a run of ticks from any state starts
/// at most `QUOTA` items, counting those the current window had already
/// taken, before that window has lasted `WINDOW_MS`. Every window opens in
/// some state, so no window, measured from its opening, sees more than
/// `QUOTA` starts.
pub proof fn lemma_quota_per_window(c: AdmissionController, nows: Seq<u64>, pendings: Seq<usize>)
    requires
        c.wf(),
        valid_run(c, nows, pendings),
    ensures
        c.admitted_in_window + started_before(c, nows, pendings, c.window_start + WINDOW_MS)
            <= QUOTA,
    decreases nows.len(),
{
    if nows.len() > 0 {
        let (c2, d) = c.next(nows[0], pendings[0]);
        let limit = c.window_start + WINDOW_MS;
        if c.admitted_in_window >= QUOTA {
            lemma_nothing_before_window(c2, nows.drop_first(), pendings.drop_first(), limit);
        } else {
            lemma_quota_per_window(c2, nows.drop_first(), pendings.drop_first());
        }
    }
}

/// A fresh controller never lets the item after the first `QUOTA` start before
/// `WINDOW_MS` have passed since it opened.
pub proof fn lemma_first_window(now: u64, nows: Seq<u64>, pendings: Seq<usize>)
    requires
        now <= TIME_LIMIT,
        valid_run(AdmissionController { window_start: now, admitted_in_window: 0 }, nows, pendings),
    ensures
        started_before(
            AdmissionController { window_start: now, admitted_in_window: 0 },
            nows,
            pendings,
            now + WINDOW_MS,
        ) <= QUOTA,
{
    lemma_quota_per_window(
        AdmissionController { window_start: now, admitted_in_window: 0 },
        nows,
        pendings,
    );
}

} // verus!
