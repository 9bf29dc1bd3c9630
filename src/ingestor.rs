//! The subscription lifecycle of the fetch stage, as a state machine: the
//! caller performs each action (subscribe, sleep, fetch) and feeds back what
//! happened.
use vstd::prelude::*;

verus! {

/// The longest wait between two subscription attempts, in seconds.
pub const MAX_RETRY_DELAY: u64 = 60;

/// The concurrent fetches that the stage admits.
pub const MAX_CONCURRENT_FETCHES: usize = 50;

/// The capacity of the handoff queue.
pub const CHANNEL_CAPACITY: usize = 500_000;

#[derive(Clone, Copy, Debug, PartialEq, Eq, Structural)]
pub enum Phase {
    Disconnected,
    Streaming,
}

/// The backoff after `delay`: doubled, at most `MAX_RETRY_DELAY`.
pub open spec fn next_delay(delay: nat) -> nat {
    if delay * 2 < MAX_RETRY_DELAY {
        delay * 2
    } else {
        MAX_RETRY_DELAY as nat
    }
}

pub struct Subscriber {
    pub phase: Phase,
    pub retry_delay_secs: u64,
    pub received: u64,
}

impl Subscriber {
    pub open spec fn wf(&self) -> bool {
        1 <= self.retry_delay_secs <= MAX_RETRY_DELAY
    }

    /// Disconnected, with the first retry one second away.
    pub fn new() -> (r: Self)
        ensures
            r.wf(),
            r.phase == Phase::Disconnected,
            r.retry_delay_secs == 1,
            r.received == 0,
    {
        Subscriber { phase: Phase::Disconnected, retry_delay_secs: 1, received: 0 }
    }

    /// A subscription attempt succeeded: stream, and reset the backoff.
    pub fn on_subscribed(&mut self)
        requires
            old(self).wf(),
        ensures
            final(self).wf(),
            final(self).phase == Phase::Streaming,
            final(self).retry_delay_secs == 1,
            final(self).received == 0,
    {
        self.phase = Phase::Streaming;
        self.retry_delay_secs = 1;
        self.received = 0;
    }

    /// A subscription attempt failed: returns the seconds to sleep before the
    /// next attempt, and doubles the backoff up to its ceiling.
    pub fn on_subscribe_failed(&mut self) -> (sleep_secs: u64)
        requires
            old(self).wf(),
        ensures
            final(self).wf(),
            sleep_secs == old(self).retry_delay_secs,
            final(self).phase == Phase::Disconnected,
            final(self).retry_delay_secs == next_delay(old(self).retry_delay_secs as nat),
            final(self).received == old(self).received,
    {
        let sleep_secs = self.retry_delay_secs;
        self.phase = Phase::Disconnected;
        self.retry_delay_secs = if sleep_secs * 2 < MAX_RETRY_DELAY {
            sleep_secs * 2
        } else {
            MAX_RETRY_DELAY
        };
        sleep_secs
    }

    /// An identifier arrived on the stream: count it. Returns the running
    /// count, which only progress reports read.
    pub fn on_identifier(&mut self) -> (count: u64)
        requires
            old(self).wf(),
        ensures
            final(self).wf(),
            final(self).phase == old(self).phase,
            final(self).retry_delay_secs == old(self).retry_delay_secs,
            count == final(self).received,
            old(self).received < u64::MAX ==> count == old(self).received + 1,
            old(self).received == u64::MAX ==> count == u64::MAX,
    {
        if self.received < u64::MAX {
            self.received = self.received + 1;
        }
        self.received
    }

    /// The stream reported an error: back to disconnected, to resubscribe.
    pub fn on_stream_error(&mut self)
        requires
            old(self).wf(),
        ensures
            final(self).wf(),
            final(self).phase == Phase::Disconnected,
            final(self).retry_delay_secs == old(self).retry_delay_secs,
            final(self).received == old(self).received,
    {
        self.phase = Phase::Disconnected;
    }
}

} // verus!
