//! The engine lifecycle: start, cooperative stop, single join.
//!
//! The audio thread itself, the output stream it owns and the park/unpark
//! calls live in the hosting binary; this module is the decision procedure
//! the host consults, so that the ordering rules — stop before join, stop
//! idempotent, join single-use — are checked ahead of any thread call.

use vstd::prelude::*;

verus! {

/// Where a live-audio session stands in its life.
#[derive(Clone, Copy, Debug, PartialEq, Eq, Structural)]
pub enum SessionPhase {
    /// No audio thread yet.
    Idle,
    /// The audio thread is parked and its stream is delivering audio.
    Running,
    /// Stop was requested: the thread has been unparked and is unwinding.
    StopRequested,
    /// The thread has been joined; the session is spent.
    Joined,
}

/// What a stop request does to the phase: a running session starts
/// unwinding; anywhere else the request changes nothing.
pub open spec fn stop_spec(p: SessionPhase) -> SessionPhase {
    match p {
        SessionPhase::Running => SessionPhase::StopRequested,
        _ => p,
    }
}

/// Stopping is idempotent: a second stop request is a no-op.
pub proof fn lemma_stop_idempotent(p: SessionPhase)
    ensures
        stop_spec(stop_spec(p)) == stop_spec(p),
{
}

/// The control state of one live-audio session. The host performs the
/// thread operation exactly when the method that models it says so.
pub struct SessionControl {
    pub phase: SessionPhase,
}

impl SessionControl {
    /// A fresh session that has not started its audio thread.
    pub fn new() -> (r: SessionControl)
        ensures
            r.phase == SessionPhase::Idle,
    {
        SessionControl { phase: SessionPhase::Idle }
    }

    /// Records that the audio thread was spawned and its stream opened.
    pub fn start(&mut self)
        requires
            old(self).phase == SessionPhase::Idle,
        ensures
            final(self).phase == SessionPhase::Running,
    {
        self.phase = SessionPhase::Running;
    }

    /// Requests a cooperative stop. Returns whether the host must unpark
    /// the audio thread now; on a repeated request (or before start, or
    /// after join) nothing is to be done.
    pub fn stop(&mut self) -> (unpark: bool)
        ensures
            final(self).phase == stop_spec(old(self).phase),
            unpark == (old(self).phase == SessionPhase::Running),
    {
        match self.phase {
            SessionPhase::Running => {
                self.phase = SessionPhase::StopRequested;
                true
            },
            _ => false,
        }
    }

    /// Records a join. A join is only allowed once stop was requested —
    /// joining a still-parked thread would block forever — and returns
    /// whether the host must actually join the thread handle: on a second
    /// join the handle is already spent and nothing is to be done.
    pub fn join(&mut self) -> (do_join: bool)
        requires
            old(self).phase == SessionPhase::StopRequested || old(self).phase
                == SessionPhase::Joined,
        ensures
            final(self).phase == SessionPhase::Joined,
            do_join == (old(self).phase == SessionPhase::StopRequested),
    {
        match self.phase {
            SessionPhase::StopRequested => {
                self.phase = SessionPhase::Joined;
                true
            },
            _ => false,
        }
    }
}

} // verus!
