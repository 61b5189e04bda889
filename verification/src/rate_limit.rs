use vstd::prelude::*;

use crate::civil::CivilTime;
use crate::error::Error;

verus! {

// A small call-rate limiter: counts calls within a reset interval of one
// minute from the first call, and refuses a call that would exceed the
// limit.  The caller supplies every query instant explicitly.

/// Seconds after which the count resets.
pub const RESET_INTERVAL_SECS: i64 = 60;

/// A call counter over a reset interval.
#[derive(Debug)]
pub struct RateLimit {
    pub from: CivilTime,
    pub limit: usize,
    pub count: usize,
}

impl RateLimit {
    /// A fresh limiter anchored at `now`.
    pub fn new(limit: usize, now: CivilTime) -> (r: RateLimit)
        ensures
            r.from == now,
            r.limit == limit,
            r.count == 0,
    {
        RateLimit { from: now, limit, count: 0 }
    }

    /// Count one call at `now`: more than the reset interval after the
    /// anchor, the window restarts at `now` with this call as its first;
    /// within the window the count grows, and a count beyond the limit is
    /// refused.
    pub fn increment(&mut self, now: CivilTime) -> (r: Result<usize, Error>)
        requires
            old(self).from.wf(),
            now.wf(),
            old(self).count <= old(self).limit,
        ensures
            ({
                let fresh = now.total_secs() - old(self).from.total_secs() > RESET_INTERVAL_SECS;
                if fresh {
                    &&& r == Ok::<usize, Error>(1usize)
                    &&& final(self).from == now
                    &&& final(self).count == 1
                    &&& final(self).limit == old(self).limit
                } else if old(self).count + 1 > old(self).limit {
                    &&& r == Err::<usize, Error>(Error::ExceedRateLimit(old(self).limit as usize))
                    &&& *final(self) == *old(self)
                } else {
                    &&& r == Ok::<usize, Error>((old(self).count + 1) as usize)
                    &&& final(self).from == old(self).from
                    &&& final(self).count == old(self).count + 1
                    &&& final(self).limit == old(self).limit
                }
            }),
    {
        if now.total_seconds() - self.from.total_seconds() > RESET_INTERVAL_SECS {
            self.from = now;
            self.count = 1;
            Ok(1)
        } else {
            if self.count >= self.limit {
                return Err(Error::ExceedRateLimit(self.limit));
            }
            self.count = self.count + 1;
            Ok(self.count)
        }
    }
}

} // verus!
