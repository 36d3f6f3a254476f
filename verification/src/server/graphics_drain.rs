//! Draining of the graphics queue: only the latest queued frame is sent on.

use vstd::prelude::*;

verus! {

/// What became of the frames of the graphics queue.
#[derive(Clone, Copy, Debug, PartialEq, Eq, Structural)]
pub struct GraphicsDrainStats {
    pub frames_received: u64,
    /// Superseded by a newer frame before they were sent.
    pub frames_coalesced: u64,
    pub frames_sent: u64,
    /// Dropped because the update channel was full.
    pub frames_dropped: u64,
}

/// Outcome of handing a frame to the update channel.
#[derive(Clone, Copy, Debug, PartialEq, Eq, Structural)]
pub enum DrainSend {
    Sent,
    Full,
    Closed,
}

impl GraphicsDrainStats {
    /// Every received frame was sent, superseded or dropped.
    pub open spec fn balanced(self) -> bool {
        self.frames_received == self.frames_coalesced + self.frames_sent + self.frames_dropped
    }

    pub fn new() -> (r: Self)
        ensures
            r == (GraphicsDrainStats {
                frames_received: 0,
                frames_coalesced: 0,
                frames_sent: 0,
                frames_dropped: 0,
            }),
            r.balanced(),
    {
        GraphicsDrainStats {
            frames_received: 0,
            frames_coalesced: 0,
            frames_sent: 0,
            frames_dropped: 0,
        }
    }

    /// Picks the frame to send out of the `queued` frames that were waiting
    /// (oldest first): the latest one.
    pub fn coalesce(&mut self, queued: usize) -> (latest: usize)
        requires
            queued > 0,
            old(self).frames_received + queued <= u64::MAX,
            old(self).frames_coalesced + queued <= u64::MAX,
        ensures
            latest == queued - 1,
            *final(self) == (GraphicsDrainStats {
                frames_received: (old(self).frames_received + queued) as u64,
                frames_coalesced: (old(self).frames_coalesced + queued - 1) as u64,
                ..*old(self)
            }),
    {
        self.frames_received = self.frames_received + queued as u64;
        self.frames_coalesced = self.frames_coalesced + (queued as u64 - 1);
        queued - 1
    }

    /// Records what became of the picked frame. Returns whether draining goes on.
    pub fn record(&mut self, outcome: DrainSend) -> (go_on: bool)
        requires
            old(self).frames_sent < u64::MAX,
            old(self).frames_dropped < u64::MAX,
        ensures
            go_on == (outcome != DrainSend::Closed),
            *final(self) == (match outcome {
                DrainSend::Sent => GraphicsDrainStats {
                    frames_sent: (old(self).frames_sent + 1) as u64,
                    ..*old(self)
                },
                DrainSend::Full => GraphicsDrainStats {
                    frames_dropped: (old(self).frames_dropped + 1) as u64,
                    ..*old(self)
                },
                DrainSend::Closed => *old(self),
            }),
    {
        match outcome {
            DrainSend::Sent => {
                self.frames_sent = self.frames_sent + 1;
                true
            },
            DrainSend::Full => {
                self.frames_dropped = self.frames_dropped + 1;
                true
            },
            DrainSend::Closed => false,
        }
    }
}

/// No frame goes missing: after each round that went on, what was received is
/// what was sent, superseded or dropped.
pub proof fn law_drain_balance(
    before: GraphicsDrainStats,
    queued: nat,
    outcome: DrainSend,
    after: GraphicsDrainStats,
)
    requires
        before.balanced(),
        queued > 0,
        outcome != DrainSend::Closed,
        after.frames_received == before.frames_received + queued,
        after.frames_coalesced == before.frames_coalesced + queued - 1,
        after.frames_sent == before.frames_sent + (if outcome == DrainSend::Sent {
            1int
        } else {
            0
        }),
        after.frames_dropped == before.frames_dropped + (if outcome == DrainSend::Full {
            1int
        } else {
            0
        }),
    ensures
        after.balanced(),
{
}

} // verus!
