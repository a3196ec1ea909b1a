//! The per-session send state machine for the two transport profiles.
//!
//! The caller performs the actual writes and reports each outcome; the
//! machine decides what a failure means. On the stream profile a failed
//! write is fatal: the whole session terminates and no further frame may
//! begin. On the datagram profile a failed send aborts only the current
//! frame: the remaining chunks are skipped and the next frame starts
//! fresh.

use vstd::prelude::*;

verus! {

/// The two wire-protocol variants.
#[derive(Clone, Copy, Debug, PartialEq, Eq, Structural)]
pub enum Profile {
    /// Reliable, ordered: connection-wide atomicity, a write failure ends
    /// the session.
    Stream,
    /// Unreliable, unordered: per-frame resilience, a send failure costs
    /// only the frame it hit.
    Datagram,
}

/// Where the session stands.
#[derive(Clone, Copy, Debug, PartialEq, Eq, Structural)]
pub enum SessionStatus {
    /// No frame in progress; the next frame may begin.
    Idle,
    /// A frame's chunks are being sent.
    Sending,
    /// The session is over; no further frame may begin.
    Terminated,
}

/// The send state machine of one transport session.
pub struct Session {
    pub profile: Profile,
    pub status: SessionStatus,
    /// Chunks of the frame in progress.
    pub chunks_total: u32,
    /// Chunks of the frame in progress already sent.
    pub chunks_sent: u32,
    /// Frames whose every chunk was sent.
    pub frames_completed: u64,
    /// Frames given up on a send failure.
    pub frames_aborted: u64,
}

impl Session {
    /// While sending, some chunk is still owed.
    pub open spec fn wf(self) -> bool {
        self.status == SessionStatus::Sending ==> self.chunks_sent < self.chunks_total
    }

    /// A fresh session, ready for its first frame.
    pub fn new(profile: Profile) -> (s: Session)
        ensures
            s.wf(),
            s.profile == profile,
            s.status == SessionStatus::Idle,
            s.frames_completed == 0,
            s.frames_aborted == 0,
    {
        Session {
            profile,
            status: SessionStatus::Idle,
            chunks_total: 0,
            chunks_sent: 0,
            frames_completed: 0,
            frames_aborted: 0,
        }
    }

    /// Starts a new frame of `num_chunks` chunks. Only an idle session may
    /// begin a frame — a terminated session never does. A frame with no
    /// chunks (an empty payload) is complete as soon as its header is out.
    pub fn begin_frame(&mut self, num_chunks: u32)
        requires
            old(self).wf(),
            old(self).status == SessionStatus::Idle,
            old(self).frames_completed < u64::MAX,
        ensures
            final(self).wf(),
            final(self).profile == old(self).profile,
            final(self).frames_aborted == old(self).frames_aborted,
            num_chunks > 0 ==> {
                &&& final(self).status == SessionStatus::Sending
                &&& final(self).chunks_total == num_chunks
                &&& final(self).chunks_sent == 0
                &&& final(self).frames_completed == old(self).frames_completed
            },
            num_chunks == 0 ==> {
                &&& final(self).status == SessionStatus::Idle
                &&& final(self).frames_completed == old(self).frames_completed + 1
            },
    {
        if num_chunks == 0 {
            self.frames_completed = self.frames_completed + 1;
        } else {
            self.status = SessionStatus::Sending;
            self.chunks_total = num_chunks;
            self.chunks_sent = 0;
        }
    }

    /// Reports the outcome of sending the next chunk of the frame in
    /// progress. A success advances the frame and completes it on its last
    /// chunk. A failure aborts: the whole session on the stream profile,
    /// only the current frame on the datagram profile.
    pub fn record_chunk_send(&mut self, ok: bool)
        requires
            old(self).wf(),
            old(self).status == SessionStatus::Sending,
            old(self).frames_completed < u64::MAX,
            old(self).frames_aborted < u64::MAX,
        ensures
            final(self).wf(),
            final(self).profile == old(self).profile,
            ok && old(self).chunks_sent + 1 < old(self).chunks_total ==> {
                &&& final(self).status == SessionStatus::Sending
                &&& final(self).chunks_sent == old(self).chunks_sent + 1
                &&& final(self).chunks_total == old(self).chunks_total
                &&& final(self).frames_completed == old(self).frames_completed
                &&& final(self).frames_aborted == old(self).frames_aborted
            },
            ok && old(self).chunks_sent + 1 == old(self).chunks_total ==> {
                &&& final(self).status == SessionStatus::Idle
                &&& final(self).frames_completed == old(self).frames_completed + 1
                &&& final(self).frames_aborted == old(self).frames_aborted
            },
            !ok && old(self).profile == Profile::Stream ==> {
                &&& final(self).status == SessionStatus::Terminated
                &&& final(self).frames_completed == old(self).frames_completed
                &&& final(self).frames_aborted == old(self).frames_aborted + 1
            },
            !ok && old(self).profile == Profile::Datagram ==> {
                &&& final(self).status == SessionStatus::Idle
                &&& final(self).frames_completed == old(self).frames_completed
                &&& final(self).frames_aborted == old(self).frames_aborted + 1
            },
    {
        if ok {
            self.chunks_sent = self.chunks_sent + 1;
            if self.chunks_sent == self.chunks_total {
                self.status = SessionStatus::Idle;
                self.frames_completed = self.frames_completed + 1;
            }
        } else {
            self.frames_aborted = self.frames_aborted + 1;
            self.status = match self.profile {
                Profile::Stream => SessionStatus::Terminated,
                Profile::Datagram => SessionStatus::Idle,
            };
        }
    }
}

} // verus!
