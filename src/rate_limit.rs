//! The webhook sink's rate limiter: consecutive sends are at least the
//! minimum interval apart. Times are nanoseconds on a monotonic clock that
//! the caller reads; the limiter only decides how long to wait.
use vstd::prelude::*;

verus! {

/// Nanoseconds in a minute.
pub const NANOS_PER_MINUTE: u64 = 60_000_000_000;

pub struct RateLimiter {
    last_request: Option<u64>,
    min_interval: u64,
}

/// When a send asked for at `now` may go: at once, unless the last send was
/// less than `min_interval` ago, then as soon as that interval has passed.
pub open spec fn send_time(last: Option<u64>, min_interval: u64, now: u64) -> nat {
    match last {
        None => now as nat,
        Some(l) => if now as nat >= l + min_interval {
            now as nat
        } else {
            (l + min_interval) as nat
        },
    }
}

impl RateLimiter {
    pub closed spec fn spec_last(&self) -> Option<u64> {
        self.last_request
    }

    pub closed spec fn spec_min_interval(&self) -> u64 {
        self.min_interval
    }

    /// A limiter that lets `requests_per_minute` sends through per minute.
    pub fn new(requests_per_minute: u32) -> (r: Self)
        requires
            requests_per_minute > 0,
        ensures
            r.spec_min_interval() == NANOS_PER_MINUTE / requests_per_minute as u64,
            r.spec_last() is None,
    {
        RateLimiter { last_request: None, min_interval: NANOS_PER_MINUTE / requests_per_minute as u64 }
    }

    pub fn min_interval(&self) -> (r: u64)
        ensures
            r == self.spec_min_interval(),
    {
        self.min_interval
    }

    /// Whether `acquire` may be called: the next free slot fits the clock.
    pub fn can_acquire(&self) -> (r: bool)
        ensures
            r == (self.spec_last() matches Some(l) ==> l + self.spec_min_interval() <= u64::MAX),
    {
        match self.last_request {
            None => true,
            Some(l) => l <= u64::MAX - self.min_interval,
        }
    }

    /// Asks to send at `now`. Returns how long to wait first, and records the
    /// moment the send goes as the last send.
    pub fn acquire(&mut self, now: u64) -> (wait: u64)
        requires
            old(self).spec_last() matches Some(l) ==> l + old(self).spec_min_interval() <= u64::MAX,
        ensures
            now + wait == send_time(old(self).spec_last(), old(self).spec_min_interval(), now),
            old(self).spec_last() matches Some(l) ==> now + wait >= l + old(self).spec_min_interval(),
            final(self).spec_last() == Some((now + wait) as u64),
            final(self).spec_min_interval() == old(self).spec_min_interval(),
    {
        let send = match self.last_request {
            None => now,
            Some(l) => if now >= l + self.min_interval {
                now
            } else {
                l + self.min_interval
            },
        };
        self.last_request = Some(send);
        send - now
    }
}

/// Two consecutive sends through one limiter are at least the minimum
/// interval apart, whatever the times at which they were asked for.
pub proof fn lemma_sends_spaced(last: u64, min_interval: u64, now: u64)
    ensures
        send_time(Some(last), min_interval, now) >= last + min_interval,
        send_time(Some(last), min_interval, now) >= now,
{
}

} // verus!
