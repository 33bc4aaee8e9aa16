//! The pacing of the window's event loop. The caller reads the clock, sleeps,
//! polls and waits for events; this type decides how long to sleep and whether
//! to wait. Times are nanoseconds on a monotonic clock.
use vstd::prelude::*;

verus! {

/// The shortest time between two updates of the window: 16 ms.
pub const FRAME_NANOS: u64 = 16_000_000;

/// How long to sleep before polling, when `elapsed` nanoseconds have passed
/// since the last update: the rest of the frame, or nothing once it is over.
pub open spec fn sleep_spec(elapsed: u64) -> u64 {
    if elapsed < FRAME_NANOS {
        (FRAME_NANOS - elapsed) as u64
    } else {
        0
    }
}

#[derive(Debug)]
pub struct EventLoop {
    last_update: u64,
    ui_needs_update: bool,
}

impl EventLoop {
    /// When the window was last updated.
    pub closed spec fn last_update_spec(self) -> u64 {
        self.last_update
    }

    /// Whether the window must be drawn again even without new events.
    pub closed spec fn ui_needs_update_spec(self) -> bool {
        self.ui_needs_update
    }

    /// Whether the loop blocks until an event arrives, after a poll that
    /// found no events (`no_events`).
    pub open spec fn waits_spec(self, no_events: bool) -> bool {
        no_events && !self.ui_needs_update_spec()
    }

    /// How long a pass that reads the clock at `now` sleeps before polling.
    /// A clock that reads earlier than the last update counts as no time passed.
    pub open spec fn sleep_at(self, now: u64) -> u64 {
        sleep_spec(if now >= self.last_update_spec() {
            (now - self.last_update_spec()) as u64
        } else {
            0
        })
    }

    /// A loop started at `now`, with the window still to be drawn.
    pub fn new(now: u64) -> (e: EventLoop)
        ensures
            e.last_update_spec() == now,
            e.ui_needs_update_spec(),
    {
        EventLoop { last_update: now, ui_needs_update: true }
    }

    /// How long to sleep before polling at time `now`, so that updates are at
    /// least a frame apart. A clock that reads earlier than the last update
    /// counts as no time passed.
    pub fn sleep_before_poll(&self, now: u64) -> (d: u64)
        ensures
            d == self.sleep_at(now),
    {
        let elapsed = if now >= self.last_update {
            now - self.last_update
        } else {
            0
        };
        if elapsed < FRAME_NANOS {
            FRAME_NANOS - elapsed
        } else {
            0
        }
    }

    /// Whether to block until an event arrives, after a poll that found
    /// no events (`no_events`): only when nothing asks for another update.
    pub fn waits(&self, no_events: bool) -> (r: bool)
        ensures
            r == self.waits_spec(no_events),
    {
        no_events && !self.ui_needs_update
    }

    /// Ends the pass at time `now`: the window is up to date.
    pub fn finish(&mut self, now: u64)
        ensures
            final(self).last_update_spec() == now,
            !final(self).ui_needs_update_spec(),
    {
        self.ui_needs_update = false;
        self.last_update = now;
    }

    /// Asks for another update of the window, even without events.
    pub fn needs_update(&mut self)
        ensures
            final(self).ui_needs_update_spec(),
            final(self).last_update_spec() == old(self).last_update_spec(),
    {
        self.ui_needs_update = true;
    }
}

/// Law: a pass never sleeps longer than a frame, and a pass that starts within
/// a frame of the last update sleeps until that frame is over.
pub proof fn lemma_frame_pacing(elapsed: u64)
    ensures
        sleep_spec(elapsed) <= FRAME_NANOS,
        elapsed < FRAME_NANOS ==> elapsed + sleep_spec(elapsed) == FRAME_NANOS,
        elapsed >= FRAME_NANOS ==> sleep_spec(elapsed) == 0,
{
}

/// Law: updates are at least a frame apart. When a pass reads the clock at
/// `poll` (not before the last update), sleeps as `sleep_before_poll` says, and
/// ends with `finish` at a time `end` no earlier than its wake-up, the update it
/// records comes a full frame after the one before.
pub proof fn lemma_updates_a_frame_apart(before: EventLoop, after: EventLoop, poll: u64, end: u64)
    requires
        poll >= before.last_update_spec(),
        end >= poll + before.sleep_at(poll),
        after.last_update_spec() == end,
    ensures
        after.last_update_spec() >= before.last_update_spec() + FRAME_NANOS,
{
}

/// Law: once an update is asked for, the next pass does not block, whatever
/// the poll found.
pub proof fn lemma_update_request_never_waits(e: EventLoop, no_events: bool)
    requires
        e.ui_needs_update_spec(),
    ensures
        !e.waits_spec(no_events),
{
}

} // verus!
