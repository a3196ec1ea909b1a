//! The pacing policy: a minimum spacing between accepted frames, and the
//! single-in-flight gate.
//!
//! Each newly captured frame is offered as a candidate. A candidate is
//! accepted exactly when no frame is in flight and its gap from the last
//! accepted timestamp reaches the target interval; a target interval of
//! zero means unconstrained. A rejected candidate is dropped on the spot —
//! there is no frame queue. The pacing clock resets when the send of the
//! accepted frame completes, not when it is captured, so measured
//! throughput reflects actually achieved delivery.

use vstd::prelude::*;

verus! {

/// The decision state of the pacer. Timestamps and the interval are in the
/// caller's clock units (the same unit throughout).
pub struct Pacer {
    /// Minimum gap between accepted frames; zero means unconstrained.
    pub target_interval: u64,
    /// When the last accepted frame finished sending; meaningful only
    /// after the first completion.
    pub last_accepted_at: u64,
    /// Whether any frame has completed sending yet.
    pub has_accepted: bool,
    /// Whether a frame is currently in flight: accepted and not yet fully
    /// sent. At most one frame is ever in flight.
    pub in_flight: bool,
    /// Candidates accepted so far.
    pub accepted: u64,
    /// Candidates dropped so far.
    pub dropped: u64,
    /// Candidates offered so far.
    pub offered: u64,
}

impl Pacer {
    /// The counters add up: every candidate offered was either accepted or
    /// dropped, never queued.
    pub open spec fn wf(self) -> bool {
        self.accepted + self.dropped == self.offered
    }

    /// Whether a candidate offered at `now` is accepted: nothing in
    /// flight, and either pacing is unconstrained, no send has completed
    /// yet, or the target interval has passed since the last completion.
    pub open spec fn spec_accepts(self, now: u64) -> bool {
        &&& !self.in_flight
        &&& {
            ||| self.target_interval == 0
            ||| !self.has_accepted
            ||| now >= self.last_accepted_at + self.target_interval
        }
    }

    /// A fresh pacer: nothing offered, nothing in flight.
    pub fn new(target_interval: u64) -> (p: Pacer)
        ensures
            p.wf(),
            p.target_interval == target_interval,
            !p.has_accepted,
            !p.in_flight,
            p.accepted == 0,
            p.dropped == 0,
            p.offered == 0,
    {
        Pacer {
            target_interval,
            last_accepted_at: 0,
            has_accepted: false,
            in_flight: false,
            accepted: 0,
            dropped: 0,
            offered: 0,
        }
    }

    /// Offers a candidate frame that became available at `now`. Returns
    /// whether it is accepted; an accepted frame goes in flight, a
    /// rejected one is dropped and counted, never queued.
    pub fn offer(&mut self, now: u64) -> (accepted: bool)
        requires
            old(self).wf(),
            old(self).offered < u64::MAX,
        ensures
            final(self).wf(),
            accepted == old(self).spec_accepts(now),
            final(self).offered == old(self).offered + 1,
            accepted ==> final(self).accepted == old(self).accepted + 1 && final(self).dropped
                == old(self).dropped && final(self).in_flight,
            !accepted ==> final(self).dropped == old(self).dropped + 1 && final(self).accepted
                == old(self).accepted && final(self).in_flight == old(self).in_flight,
            final(self).target_interval == old(self).target_interval,
            final(self).last_accepted_at == old(self).last_accepted_at,
            final(self).has_accepted == old(self).has_accepted,
    {
        let gate_open = if self.in_flight {
            false
        } else if self.target_interval == 0 || !self.has_accepted {
            true
        } else {
            match self.last_accepted_at.checked_add(self.target_interval) {
                Some(threshold) => now >= threshold,
                None => false,
            }
        };
        self.offered = self.offered + 1;
        if gate_open {
            self.accepted = self.accepted + 1;
            self.in_flight = true;
        } else {
            self.dropped = self.dropped + 1;
        }
        gate_open
    }

    /// The in-flight frame was fully sent at `now`: the pacing clock
    /// restarts from `now` and the next candidate may be accepted.
    pub fn complete(&mut self, now: u64)
        requires
            old(self).in_flight,
        ensures
            final(self).wf() == old(self).wf(),
            !final(self).in_flight,
            final(self).has_accepted,
            final(self).last_accepted_at == now,
            final(self).target_interval == old(self).target_interval,
            final(self).accepted == old(self).accepted,
            final(self).dropped == old(self).dropped,
            final(self).offered == old(self).offered,
    {
        self.in_flight = false;
        self.has_accepted = true;
        self.last_accepted_at = now;
    }

    /// The in-flight frame's send stopped early: the next candidate may
    /// be accepted, and the pacing clock keeps its old value.
    pub fn abandon(&mut self)
        requires
            old(self).in_flight,
        ensures
            final(self).wf() == old(self).wf(),
            !final(self).in_flight,
            final(self).has_accepted == old(self).has_accepted,
            final(self).last_accepted_at == old(self).last_accepted_at,
            final(self).target_interval == old(self).target_interval,
            final(self).accepted == old(self).accepted,
            final(self).dropped == old(self).dropped,
            final(self).offered == old(self).offered,
    {
        self.in_flight = false;
    }

    /// Resets the counters for a fresh metrics window; the pacing state
    /// itself is kept.
    pub fn reset_counters(&mut self)
        ensures
            final(self).wf(),
            final(self).accepted == 0,
            final(self).dropped == 0,
            final(self).offered == 0,
            final(self).target_interval == old(self).target_interval,
            final(self).last_accepted_at == old(self).last_accepted_at,
            final(self).has_accepted == old(self).has_accepted,
            final(self).in_flight == old(self).in_flight,
    {
        self.accepted = 0;
        self.dropped = 0;
        self.offered = 0;
    }
}

/// How long to wait at the end of an iteration to hold the target
/// cadence: the rest of the frame interval, zero when already behind.
pub fn remaining_delay(elapsed: u64, frame_time: u64) -> (r: u64)
    ensures
        elapsed < frame_time ==> r == frame_time - elapsed,
        elapsed >= frame_time ==> r == 0,
{
    if elapsed < frame_time {
        frame_time - elapsed
    } else {
        0
    }
}

} // verus!
