//! When the skybox is swapped: a fixed delay between swaps, counted from the
//! swap times themselves so that late frames add no drift.

use vstd::prelude::*;

verus! {

/// Time between two swaps of the skybox texture, in milliseconds.
pub const SWAP_DELAY_MS: u64 = 3_000;

/// The swap schedule. Times are milliseconds since the viewer started.
#[derive(Clone, Copy, Debug, PartialEq, Eq)]
pub struct SwapTimer {
    /// When the next swap is due; `None` until the first poll.
    pub next_swap: Option<u64>,
}

impl SwapTimer {
    /// Whether a poll at `now` finds a swap due: one is scheduled, and its
    /// time has come or passed.
    pub open spec fn due(self, now: u64) -> bool {
        match self.next_swap {
            Some(at) => at <= now,
            None => false,
        }
    }

    /// The schedule after a poll at `now`. The first poll schedules a swap one
    /// delay after `now`. A poll before the scheduled time changes nothing. A
    /// poll at or after it moves the schedule one delay on from the scheduled
    /// time, not from `now`.
    pub open spec fn after_poll(self, now: u64) -> SwapTimer {
        match self.next_swap {
            None => SwapTimer { next_swap: Some((now + SWAP_DELAY_MS) as u64) },
            Some(at) => if now < at {
                self
            } else {
                SwapTimer { next_swap: Some((at + SWAP_DELAY_MS) as u64) }
            },
        }
    }

    /// The schedule after a run of polls, one at each of `times`.
    pub open spec fn after_polls(self, times: Seq<u64>) -> SwapTimer
        decreases times.len(),
    {
        if times.len() == 0 {
            self
        } else {
            self.after_polls(times.drop_last()).after_poll(times.last())
        }
    }

    /// How many polls of a run of polls find a swap due.
    pub open spec fn swaps(self, times: Seq<u64>) -> nat
        decreases times.len(),
    {
        if times.len() == 0 {
            0
        } else {
            let before = self.swaps(times.drop_last());
            if self.after_polls(times.drop_last()).due(times.last()) {
                before + 1
            } else {
                before
            }
        }
    }

    /// A schedule on which nothing is scheduled yet.
    pub fn new() -> (r: SwapTimer)
        ensures
            r.next_swap is None,
    {
        SwapTimer { next_swap: None }
    }

    /// Polls the schedule at time `now` and says whether a swap is due.
    pub fn poll(&mut self, now: u64) -> (due: bool)
        requires
            now + SWAP_DELAY_MS <= u64::MAX,
        ensures
            due == old(self).due(now),
            *final(self) == old(self).after_poll(now),
    {
        match self.next_swap {
            None => {
                self.next_swap = Some(now + SWAP_DELAY_MS);
                false
            },
            Some(at) => {
                if now < at {
                    false
                } else {
                    self.next_swap = Some(at + SWAP_DELAY_MS);
                    true
                }
            },
        }
    }
}

/// No drift. Whenever the later polls come, early or late, the scheduled time
/// stays on the grid that the first poll laid down: it is the time of the
/// first poll plus one delay, plus one more delay for each swap since.
pub proof fn lemma_no_drift(fresh: SwapTimer, first: u64, later: Seq<u64>)
    requires
        fresh.next_swap is None,
        first + SWAP_DELAY_MS * (later.len() + 1) <= u64::MAX,
    ensures
        fresh.after_poll(first).swaps(later) <= later.len(),
        fresh.after_poll(first).after_polls(later).next_swap == Some(
            (first + SWAP_DELAY_MS * (1 + fresh.after_poll(first).swaps(later))) as u64,
        ),
    decreases later.len(),
{
    if later.len() > 0 {
        lemma_no_drift(fresh, first, later.drop_last());
    }
}

} // verus!
