//! The collector bridge: converts push-style collection into a non-blocking
//! pull.  A background worker owns the metrics source and pushes snapshots
//! into a bounded hand-off channel; the consumer polls once per tick.  The
//! channel itself lives outside the library — each poll hands the bridge what
//! the channel reported, and the bridge decides what the consumer sees,
//! reporting end-of-stream exactly once and never blocking or spinning.

use vstd::prelude::*;

use crate::transform::RawData;

verus! {

/// Commands the consumer can send to the background worker.
#[derive(Debug)]
pub enum Input {
    DoSomeWork,
}

/// What one poll of the hand-off channel found.
#[derive(Debug)]
pub enum PollEvent {
    /// A fresh snapshot was waiting.
    Update(RawData),
    /// Some other event of the metrics source; not a snapshot.
    Other,
    /// Nothing was waiting.
    Empty,
    /// The producing side has shut down.
    Disconnected,
}

/// What the consumer sees for one poll.
#[derive(Debug)]
pub enum BridgePoll {
    /// A new snapshot, not seen before.
    Ready(RawData),
    /// Nothing yet; the tick proceeds with no data change.
    Pending,
    /// The stream has ended.  Reported exactly once; every later poll is
    /// `Pending`, so a consumer that keeps polling never spins on it.
    EndOfStream,
}

/// The consumer-side state of the bridge.
#[derive(Debug)]
pub struct Collector {
    /// Set once the end of the stream has been reported.
    pub terminated: bool,
}

impl Collector {
    /// A fresh bridge: the stream has not ended.
    pub fn new() -> (r: Self)
        ensures
            !r.terminated,
    {
        Collector { terminated: false }
    }

    /// Decide what one poll yields.  A waiting snapshot is handed through
    /// unchanged; nothing waiting (or a non-snapshot event) is `Pending`; the
    /// first observed disconnection is `EndOfStream`, and only the first —
    /// after that the bridge stays terminated and reports `Pending` forever.
    pub fn poll_next(&mut self, ev: PollEvent) -> (r: BridgePoll)
        ensures
            old(self).terminated ==> final(self).terminated && r is Pending,
            !old(self).terminated ==> match ev {
                PollEvent::Update(d) => r == BridgePoll::Ready(d) && !final(self).terminated,
                PollEvent::Other => r is Pending && !final(self).terminated,
                PollEvent::Empty => r is Pending && !final(self).terminated,
                PollEvent::Disconnected => r is EndOfStream && final(self).terminated,
            },
    {
        if self.terminated {
            return BridgePoll::Pending;
        }
        match ev {
            PollEvent::Update(d) => BridgePoll::Ready(d),
            PollEvent::Other => BridgePoll::Pending,
            PollEvent::Empty => BridgePoll::Pending,
            PollEvent::Disconnected => {
                self.terminated = true;
                BridgePoll::EndOfStream
            },
        }
    }
}

} // verus!
