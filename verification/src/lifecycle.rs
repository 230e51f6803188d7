use vstd::prelude::*;

verus! {

/// Where the server stands in its life.
#[derive(Clone, Copy, Debug, PartialEq, Eq, Structural)]
pub enum ServerPhase {
    /// Accepting connections and serving.
    Running,
    /// Stop was signaled: no new connections, in-flight sessions drain.
    Draining,
    /// Drain finished or timed out: the process may exit.
    Stopped,
}

/// Coordinates startup and graceful shutdown: it counts live sessions, stops
/// the acceptor on the stop signal, and lets in-flight exchanges finish
/// within the drain window before the process exits.
pub struct Lifecycle {
    pub phase: ServerPhase,
    /// Sessions accepted and not yet finished.
    pub live_sessions: u64,
    /// Instant past which draining gives up, once Draining.
    pub drain_deadline: u64,
}

impl Lifecycle {
    pub open spec fn wf(self) -> bool {
        self.phase == ServerPhase::Stopped ==> self.live_sessions == 0
    }

    pub fn new() -> (lc: Lifecycle)
        ensures
            lc.wf(),
            lc.phase == ServerPhase::Running,
            lc.live_sessions == 0,
    {
        Lifecycle { phase: ServerPhase::Running, live_sessions: 0, drain_deadline: 0 }
    }

    /// Whether a new connection is taken. Only a running server accepts:
    /// a connection arriving after the stop signal is turned away.
    pub fn on_accept(&mut self) -> (accepted: bool)
        requires
            old(self).wf(),
            old(self).live_sessions < u64::MAX,
        ensures
            final(self).wf(),
            accepted == (old(self).phase == ServerPhase::Running),
            accepted ==> final(self).live_sessions == old(self).live_sessions + 1,
            !accepted ==> final(self).live_sessions == old(self).live_sessions,
            final(self).phase == old(self).phase,
            final(self).drain_deadline == old(self).drain_deadline,
    {
        if matches!(self.phase, ServerPhase::Running) {
            self.live_sessions = self.live_sessions + 1;
            true
        } else {
            false
        }
    }

    /// One session reached its end, cleanly or not.
    pub fn on_session_done(&mut self)
        requires
            old(self).wf(),
            old(self).live_sessions >= 1,
        ensures
            final(self).wf(),
            final(self).live_sessions == old(self).live_sessions - 1,
            final(self).phase == old(self).phase,
            final(self).drain_deadline == old(self).drain_deadline,
    {
        proof {
            assert(old(self).phase != ServerPhase::Stopped);
        }
        self.live_sessions = self.live_sessions - 1;
    }

    /// The stop signal: the acceptor stops first, then in-flight sessions
    /// get until `now + drain_timeout` to finish.
    pub fn signal_shutdown(&mut self, now: u64, drain_timeout: u64)
        requires
            old(self).wf(),
            old(self).phase == ServerPhase::Running,
            now as int + drain_timeout as int <= u64::MAX,
        ensures
            final(self).wf(),
            final(self).phase == ServerPhase::Draining,
            final(self).drain_deadline == now + drain_timeout,
            final(self).live_sessions == old(self).live_sessions,
    {
        self.phase = ServerPhase::Draining;
        self.drain_deadline = now + drain_timeout;
    }

    /// Whether the drain is over: every session finished, or the deadline
    /// passed. Before either, the process keeps waiting, so an exchange
    /// running when stop was signaled gets to finish.
    pub open spec fn spec_drain_complete(self, now: u64) -> bool {
        self.phase == ServerPhase::Draining && (self.live_sessions == 0 || now
            >= self.drain_deadline)
    }

    pub fn drain_complete(&self, now: u64) -> (r: bool)
        requires
            self.wf(),
        ensures
            r == self.spec_drain_complete(now),
    {
        matches!(self.phase, ServerPhase::Draining) && (self.live_sessions == 0 || now
            >= self.drain_deadline)
    }

    /// Ends the drain: any session still open past the deadline is forcibly
    /// closed by the driver, and the process exits.
    pub fn finish_shutdown(&mut self, now: u64)
        requires
            old(self).wf(),
            old(self).spec_drain_complete(now),
        ensures
            final(self).wf(),
            final(self).phase == ServerPhase::Stopped,
            final(self).live_sessions == 0,
    {
        self.live_sessions = 0;
        self.phase = ServerPhase::Stopped;
    }
}

/// Graceful shutdown, both halves. A connection arriving after the stop
/// signal is rejected; and while an exchange begun before the signal is
/// still running and the drain window is open, the drain is not complete,
/// so the process does not exit under it.
pub proof fn lemma_graceful_drain(lc: Lifecycle, now: u64)
    requires
        lc.wf(),
        lc.phase == ServerPhase::Draining,
        lc.live_sessions >= 1,
        now < lc.drain_deadline,
    ensures
        !lc.spec_drain_complete(now),
{
}

} // verus!
