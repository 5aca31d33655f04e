//! The heartbeat detector: on each check it removes the connections that
//! have been silent longer than the timeout, until it is stopped.

use crate::manager::{active_only, ids_view, lemma_ids_push, ConnectionManager};
use vstd::prelude::*;

verus! {

/// The first `limit` ids of a list of removed connections (for a log
/// line), and how many were left out.
pub fn timeout_cleanup_log_sample(connection_ids: &Vec<String>, limit: usize) -> (r: (Vec<String>, usize))
    ensures
        ids_view(r.0@) == ids_view(connection_ids@).take(
            if connection_ids@.len() < limit { connection_ids@.len() as int } else { limit as int },
        ),
        r.1 == connection_ids@.len() - (if connection_ids@.len() < limit { connection_ids@.len() as int } else { limit as int }),
{
    let n = connection_ids.len();
    let sample_len = if n < limit { n } else { limit };
    let mut sample: Vec<String> = Vec::new();
    let mut i: usize = 0;
    while i < sample_len
        invariant
            i <= sample_len,
            sample_len <= connection_ids@.len(),
            ids_view(sample@) == ids_view(connection_ids@).take(i as int),
        decreases sample_len - i,
    {
        proof {
            lemma_ids_push(sample@, connection_ids@[i as int]);
        }
        sample.push(connection_ids[i].clone());
        assert(ids_view(connection_ids@).take(i + 1) =~= ids_view(connection_ids@).take(i as int).push(
            connection_ids@[i as int]@,
        ));
        i += 1;
    }
    (sample, n - sample_len)
}

/// Periodic removal of silent connections (times in milliseconds).
pub struct HeartbeatDetector {
    timeout: u64,
    check_interval: u64,
    running: bool,
}

impl HeartbeatDetector {
    /// Silence after which a connection is removed.
    pub closed spec fn spec_timeout(&self) -> u64 {
        self.timeout
    }

    /// Time between checks.
    pub closed spec fn spec_check_interval(&self) -> u64 {
        self.check_interval
    }

    /// Whether checks run.
    pub closed spec fn spec_running(&self) -> bool {
        self.running
    }

    /// A detector that is not yet running.
    pub fn new(timeout: u64, check_interval: u64) -> (d: HeartbeatDetector)
        ensures
            d.spec_timeout() == timeout,
            d.spec_check_interval() == check_interval,
            !d.spec_running(),
    {
        HeartbeatDetector { timeout, check_interval, running: false }
    }

    /// Time between checks.
    pub fn check_interval(&self) -> (r: u64)
        ensures
            r == self.spec_check_interval(),
    {
        self.check_interval
    }

    /// Starts the checks.
    pub fn start(&mut self)
        ensures
            final(self).spec_running(),
            final(self).spec_timeout() == old(self).spec_timeout(),
            final(self).spec_check_interval() == old(self).spec_check_interval(),
    {
        self.running = true;
    }

    /// Stops the checks; later checks do nothing.
    pub fn stop(&mut self)
        ensures
            !final(self).spec_running(),
            final(self).spec_timeout() == old(self).spec_timeout(),
            final(self).spec_check_interval() == old(self).spec_check_interval(),
    {
        self.running = false;
    }

    /// Whether checks run.
    pub fn is_running(&self) -> (r: bool)
        ensures
            r == self.spec_running(),
    {
        self.running
    }

    /// One check at `now`: while running, removes the connections silent
    /// longer than the timeout and returns their ids; once stopped, does
    /// nothing and returns `None`.
    pub fn check_at<H>(&self, manager: &mut ConnectionManager<H>, now: u64) -> (r: Option<Vec<String>>)
        requires
            old(manager).wf(),
        ensures
            final(manager).wf(),
            !self.spec_running() ==> r is None && *final(manager) == *old(manager),
            self.spec_running() ==> r is Some && final(manager).conns() == active_only(
                old(manager).conns(),
                self.spec_timeout(),
                now,
            ),
    {
        if !self.running {
            return None;
        }
        Some(manager.cleanup_timeout_connections_at(self.timeout, now))
    }
}

} // verus!
