//! Bookkeeping of the load-testing harness: how requests are shared among
//! workers, how a reply is judged, and the counters that sum up a run.
use crate::server::{acknowledges, is_ack};
use crate::text::{decode_lossy, lossy_of};
use vstd::prelude::*;

verus! {

/// Requests each worker sends: the total divided evenly, the remainder
/// dropped. With no workers nothing is sent.
pub fn requests_per_worker(concurrency: usize, total_requests: usize) -> (r: usize)
    ensures
        concurrency == 0 ==> r == 0,
        concurrency > 0 ==> r == total_requests / concurrency,
{
    if concurrency == 0 {
        0
    } else {
        total_requests / concurrency
    }
}

/// A probe succeeds when the reply is not empty and decodes to the
/// acknowledgment.
pub open spec fn probe_succeeds(reply: Seq<u8>) -> bool {
    reply.len() > 0 && acknowledges(lossy_of(reply))
}

/// Judges the bytes that came back for a probe.
pub fn reply_succeeds(reply: &[u8]) -> (r: bool)
    ensures
        r == probe_succeeds(reply@),
{
    if reply.len() == 0 {
        false
    } else {
        let text = decode_lossy(reply);
        is_ack(text.as_str())
    }
}

/// Counters of a run. Latency is summed over successful requests only, and
/// stops at the largest value a `u64` holds.
#[derive(PartialEq, Eq, Structural, Clone, Copy, Debug)]
pub struct StressStats {
    pub sent: u64,
    pub succeeded: u64,
    pub failed: u64,
    pub total_latency_ns: u64,
}

/// `a + b`, or the largest `u64` where the sum does not fit.
pub open spec fn sat_add(a: u64, b: u64) -> u64 {
    if a + b > u64::MAX {
        u64::MAX
    } else {
        (a + b) as u64
    }
}

impl StressStats {
    /// Every request sent has either succeeded or failed.
    pub open spec fn wf(&self) -> bool {
        self.sent == self.succeeded + self.failed
    }

    pub fn new() -> (r: StressStats)
        ensures
            r.wf(),
            r.sent == 0,
            r.succeeded == 0,
            r.failed == 0,
            r.total_latency_ns == 0,
    {
        StressStats { sent: 0, succeeded: 0, failed: 0, total_latency_ns: 0 }
    }

    /// Counts one request that succeeded after `latency_ns`.
    pub fn record_success(&mut self, latency_ns: u64)
        requires
            old(self).wf(),
            old(self).sent < u64::MAX,
        ensures
            final(self).wf(),
            final(self).sent == old(self).sent + 1,
            final(self).succeeded == old(self).succeeded + 1,
            final(self).failed == old(self).failed,
            final(self).total_latency_ns == sat_add(old(self).total_latency_ns, latency_ns),
    {
        self.sent = self.sent + 1;
        self.succeeded = self.succeeded + 1;
        self.total_latency_ns = self.total_latency_ns.saturating_add(latency_ns);
    }

    /// Counts one request that failed.
    pub fn record_failure(&mut self)
        requires
            old(self).wf(),
            old(self).sent < u64::MAX,
        ensures
            final(self).wf(),
            final(self).sent == old(self).sent + 1,
            final(self).succeeded == old(self).succeeded,
            final(self).failed == old(self).failed + 1,
            final(self).total_latency_ns == old(self).total_latency_ns,
    {
        self.sent = self.sent + 1;
        self.failed = self.failed + 1;
    }

    /// Counts one probe from the reply it got (`None`: connecting, writing or
    /// reading failed) and its latency.
    pub fn record_probe(&mut self, reply: Option<&[u8]>, latency_ns: u64)
        requires
            old(self).wf(),
            old(self).sent < u64::MAX,
        ensures
            final(self).wf(),
            final(self).sent == old(self).sent + 1,
            ({
                let ok = reply is Some && probe_succeeds(reply->Some_0@);
                &&& final(self).succeeded == old(self).succeeded + (if ok { 1int } else { 0int })
                &&& final(self).failed == old(self).failed + (if ok { 0int } else { 1int })
                &&& final(self).total_latency_ns == (if ok {
                    sat_add(old(self).total_latency_ns, latency_ns)
                } else {
                    old(self).total_latency_ns
                })
            }),
    {
        let ok = match reply {
            Some(b) => reply_succeeds(b),
            None => false,
        };
        if ok {
            self.record_success(latency_ns);
        } else {
            self.record_failure();
        }
    }

    /// Adds the counters of `other` when every sum fits; otherwise leaves
    /// `self` as it is and returns false.
    pub fn merge(&mut self, other: &StressStats) -> (r: bool)
        requires
            old(self).wf(),
            other.wf(),
        ensures
            final(self).wf(),
            r == (old(self).sent + other.sent <= u64::MAX),
            r ==> final(self).sent == old(self).sent + other.sent,
            r ==> final(self).succeeded == old(self).succeeded + other.succeeded,
            r ==> final(self).failed == old(self).failed + other.failed,
            r ==> final(self).total_latency_ns == sat_add(
                old(self).total_latency_ns,
                other.total_latency_ns,
            ),
            !r ==> *final(self) == *old(self),
    {
        if other.sent > u64::MAX - self.sent {
            return false;
        }
        self.sent = self.sent + other.sent;
        self.succeeded = self.succeeded + other.succeeded;
        self.failed = self.failed + other.failed;
        self.total_latency_ns = self.total_latency_ns.saturating_add(other.total_latency_ns);
        true
    }

    /// Mean latency of the successful requests; none when nothing succeeded.
    pub fn mean_latency_ns(&self) -> (r: Option<u64>)
        ensures
            self.succeeded == 0 ==> r is None,
            self.succeeded > 0 ==> r == Some((self.total_latency_ns / self.succeeded) as u64),
    {
        if self.succeeded == 0 {
            None
        } else {
            Some(self.total_latency_ns / self.succeeded)
        }
    }
}

} // verus!
