//! The health-check policy over runner heartbeats.
//!
//! The dispatcher itself stays health-unaware by design: a runner that is
//! down is still selected, and surfaces its failure to the caller of the
//! dispatched request. Alongside it, the controller probes every pooled
//! runner periodically and tracks consecutive missed heartbeats here. The
//! chosen policy: a node whose misses reach the threshold is reported as
//! suspect — visibly, to the operator — and is never evicted or skipped
//! automatically; one answered probe clears it. The probe loop itself is
//! the embedding's; every decision it acts on is taken, and verified,
//! here.

use vstd::prelude::*;

verus! {

/// Consecutive missed heartbeats at which a node is reported as suspect.
pub const MISS_THRESHOLD: u32 = 3;

/// Consecutive missed heartbeats per node, indexed by node identity in
/// registration order — the registry hands out exactly the identities
/// `0, 1, 2, …`, so the table grows in step with the pool.
pub struct HeartbeatMonitor {
    missed: Vec<u32>,
}

impl HeartbeatMonitor {
    /// The tracked miss counts, by node identity.
    pub closed spec fn counts(&self) -> Seq<u32> {
        self.missed@
    }

    /// Whether `node` has missed enough consecutive probes to be suspect.
    pub open spec fn suspect(&self, node: int) -> bool {
        self.counts()[node] >= MISS_THRESHOLD
    }

    /// A monitor tracking no nodes yet.
    pub fn new() -> (m: HeartbeatMonitor)
        ensures
            m.counts() =~= Seq::<u32>::empty(),
    {
        HeartbeatMonitor { missed: Vec::new() }
    }

    /// How many nodes are tracked.
    pub fn node_count(&self) -> (n: usize)
        ensures
            n as int == self.counts().len(),
    {
        self.missed.len()
    }

    /// Starts tracking the freshly registered node: nothing is held
    /// against it yet.
    pub fn track_node(&mut self)
        ensures
            final(self).counts() =~= old(self).counts().push(0),
    {
        self.missed.push(0);
    }

    /// Records the outcome of one probe of `node`: an answered heartbeat
    /// clears the count — an answering node is never suspect — and a
    /// missed one raises it, saturating so the count cannot wrap.
    pub fn record(&mut self, node: usize, answered: bool)
        requires
            (node as int) < old(self).counts().len(),
        ensures
            final(self).counts().len() == old(self).counts().len(),
            forall|i: int|
                0 <= i < old(self).counts().len() && i != node as int ==> final(self).counts()[i]
                    == old(self).counts()[i],
            answered ==> final(self).counts()[node as int] == 0 && !final(self).suspect(
                node as int,
            ),
            !answered && old(self).counts()[node as int] < u32::MAX ==> final(self).counts()[
                node as int] == old(self).counts()[node as int] + 1,
            !answered && old(self).counts()[node as int] == u32::MAX ==> final(self).counts()[
                node as int] == u32::MAX,
    {
        if answered {
            self.missed.set(node, 0);
        } else {
            let current = self.missed[node];
            if current < u32::MAX {
                self.missed.set(node, current + 1);
            }
        }
    }

    /// Whether `node` is currently suspect.
    pub fn is_suspect(&self, node: usize) -> (r: bool)
        requires
            (node as int) < self.counts().len(),
        ensures
            r == self.suspect(node as int),
    {
        self.missed[node] >= MISS_THRESHOLD
    }
}

/// The policy's safety face: a node only becomes suspect after the full
/// threshold of consecutive misses — one lost probe flags nobody.
pub proof fn lemma_single_miss_not_suspect(m: &HeartbeatMonitor, node: int)
    requires
        0 <= node < m.counts().len(),
        m.counts()[node] < MISS_THRESHOLD,
    ensures
        !m.suspect(node),
{
}

} // verus!
