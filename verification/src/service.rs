//! The service handle's shutdown protocol and worker-loop decisions.
//!
//! The connection to the external service owns one background worker that
//! pumps pending callbacks, sleeps a short fixed interval, and checks a
//! cooperative cancellation flag. The thread and the connection live with
//! the caller; the decisions they follow are here: when the worker pumps,
//! and when it stops.

use vstd::prelude::*;

verus! {

/// The cooperative shutdown flag of a service handle. One-way: once
/// requested it never resets.
#[derive(Debug)]
pub struct ShutdownSignal {
    requested: bool,
}

impl View for ShutdownSignal {
    type V = bool;

    closed spec fn view(&self) -> bool {
        self.requested
    }
}

impl ShutdownSignal {
    /// A fresh handle's flag: shutdown not requested.
    pub fn new() -> (r: Self)
        ensures
            !r@,
    {
        ShutdownSignal { requested: false }
    }

    /// Request shutdown. Thread-agnostic and idempotent: whatever the state
    /// was, afterwards shutdown is requested, and nothing else changes, so
    /// a second call leaves exactly the state the first left.
    pub fn request_shutdown(&mut self)
        ensures
            final(self)@,
    {
        self.requested = true;
    }

    /// Whether shutdown has been requested.
    pub fn is_requested(&self) -> (r: bool)
        ensures
            r == self@,
    {
        self.requested
    }
}

/// Requesting shutdown is idempotent: two handles that have each observed a
/// request are in the very same state, so a repeated request has no further
/// effect and is always safe.
pub proof fn lemma_shutdown_idempotent(s1: ShutdownSignal, s2: ShutdownSignal)
    requires
        s1@,
        s2@,
    ensures
        s1 == s2,
{
}

/// The worker's phase: pumping callbacks once per interval, or stopped.
#[derive(Clone, Copy, Debug, PartialEq, Eq, Structural)]
pub enum WorkerPhase {
    Running,
    Stopped,
}

/// One polling interval's decision: given whether cancellation has been
/// requested, the phase afterwards and whether pending callbacks are pumped
/// this interval. A worker that observes cancellation stops at once and
/// pumps nothing; a stopped worker never runs again.
pub open spec fn spec_worker_poll(phase: WorkerPhase, cancel_requested: bool) -> (
    WorkerPhase,
    bool,
) {
    match phase {
        WorkerPhase::Stopped => (WorkerPhase::Stopped, false),
        WorkerPhase::Running => {
            if cancel_requested {
                (WorkerPhase::Stopped, false)
            } else {
                (WorkerPhase::Running, true)
            }
        },
    }
}

/// Decide one polling interval of the worker loop. The caller performs the
/// pump and the interval sleep; the decision is taken here.
pub fn worker_poll(phase: WorkerPhase, cancel_requested: bool) -> (r: (WorkerPhase, bool))
    ensures
        r == spec_worker_poll(phase, cancel_requested),
{
    match phase {
        WorkerPhase::Stopped => (WorkerPhase::Stopped, false),
        WorkerPhase::Running => {
            if cancel_requested {
                (WorkerPhase::Stopped, false)
            } else {
                (WorkerPhase::Running, true)
            }
        },
    }
}

/// Once cancellation is requested the worker exits within the very next
/// polling interval without pumping another callback; and once stopped it
/// stays stopped, whatever the flag says later.
pub proof fn lemma_worker_stops_on_cancel(phase: WorkerPhase)
    ensures
        spec_worker_poll(phase, true).0 is Stopped,
        !spec_worker_poll(phase, true).1,
        forall|c: bool| spec_worker_poll(WorkerPhase::Stopped, c) == (WorkerPhase::Stopped, false),
{
}

} // verus!
