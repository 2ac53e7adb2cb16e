//! One-shot delivery for the callback-to-request/response bridge.
//!
//! The external service completes a request by firing a callback on the
//! background worker; the requester awaits a single result. The slot here
//! carries that result: it accepts at most one delivery, hands it to the
//! requester at most once, and drops, without failing, anything delivered
//! after the requester has gone away. The functions below say what a
//! completed exchange means for the caller.

use vstd::prelude::*;

verus! {

use crate::presets::Mod;

/// The lifecycle of a single-use delivery slot.
pub enum SlotState<T> {
    /// The request is outstanding; nothing has been delivered.
    Waiting,
    /// The callback fired and its result waits for the requester.
    Delivered(T),
    /// The requester took the delivered result.
    Taken,
    /// The requester has gone away; anything delivered now is discarded.
    Abandoned,
}

/// What delivering to a slot in state `s` does: only a waiting slot
/// accepts; every other state is left as it is and the message is dropped.
pub open spec fn spec_deliver<T>(s: SlotState<T>, v: T) -> (SlotState<T>, bool) {
    match s {
        SlotState::Waiting => (SlotState::Delivered(v), true),
        _ => (s, false),
    }
}

/// What polling a slot in state `s` does: only a delivered value is taken,
/// exactly once; every other state is left as it is and yields nothing.
pub open spec fn spec_take<T>(s: SlotState<T>) -> (SlotState<T>, Option<T>) {
    match s {
        SlotState::Delivered(v) => (SlotState::Taken, Some(v)),
        _ => (s, None),
    }
}

/// A channel with capacity for exactly one message, for exactly one request.
pub struct OneShotSlot<T> {
    state: SlotState<T>,
}

impl<T> View for OneShotSlot<T> {
    type V = SlotState<T>;

    closed spec fn view(&self) -> SlotState<T> {
        self.state
    }
}

impl<T> OneShotSlot<T> {
    /// A fresh slot for one outstanding request.
    pub fn new() -> (r: Self)
        ensures
            r@ is Waiting,
    {
        OneShotSlot { state: SlotState::Waiting }
    }

    /// Deliver the response. Only the first delivery to a waiting slot is
    /// accepted; a repeated delivery, or one arriving after the requester
    /// abandoned the request, changes nothing and is dropped silently.
    pub fn deliver(&mut self, v: T) -> (accepted: bool)
        ensures
            (final(self)@, accepted) == spec_deliver(old(self)@, v),
    {
        match self.state {
            SlotState::Waiting => {
                self.state = SlotState::Delivered(v);
                true
            },
            _ => false,
        }
    }

    /// Poll for the response. The first poll after delivery takes the
    /// value; any other poll returns nothing and changes nothing.
    pub fn take(&mut self) -> (r: Option<T>)
        ensures
            (final(self)@, r) == spec_take(old(self)@),
    {
        let mut tmp = SlotState::Taken;
        core::mem::swap(&mut self.state, &mut tmp);
        match tmp {
            SlotState::Delivered(v) => Some(v),
            other => {
                self.state = other;
                None
            },
        }
    }

    /// The requester walks away: whatever is or will be delivered is
    /// discarded.
    pub fn abandon(&mut self)
        ensures
            final(self)@ is Abandoned,
    {
        self.state = SlotState::Abandoned;
    }
}

/// A response delivered after the requester abandoned the request is
/// dropped: it is not accepted, the slot stays abandoned, and nothing can
/// ever be taken from the slot afterwards.
pub proof fn lemma_late_delivery_dropped<T>(s: SlotState<T>, v: T)
    requires
        s is Abandoned,
    ensures
        !spec_deliver(s, v).1,
        spec_deliver(s, v).0 is Abandoned,
        spec_take(spec_deliver(s, v).0).1 is None,
{
}

/// At most one message ever crosses a slot: a delivery is accepted only
/// into a waiting slot, and once the value is taken every further poll
/// comes back empty and every further delivery is rejected.
pub proof fn lemma_at_most_one_delivery<T>(s: SlotState<T>, v: T)
    requires
        !(s is Waiting),
    ensures
        !spec_deliver(s, v).1,
        spec_deliver(s, v).0 == s,
        s is Taken ==> spec_take(s) == (s, Option::<T>::None),
{
}

/// Why a bulk item query did not yield items.
#[derive(Clone, Copy, Debug, PartialEq, Eq, Structural)]
pub enum QueryError {
    /// The request itself was rejected at submission; no callback will fire.
    SubmissionRejected,
    /// The handle shut down before the response arrived; the response, if
    /// any, was dropped.
    Cancelled,
    /// The service answered the callback with a failure.
    Remote,
}

/// What a completed item query means: a request rejected at submission
/// fails immediately as such, without waiting on the worker; one whose
/// response never arrived (the handle shut down first) fails as cancelled;
/// a delivered failure is a remote error; a delivered answer is the answer.
pub open spec fn spec_query_outcome(
    submitted: bool,
    delivered: Option<Option<Seq<crate::presets::ModView>>>,
) -> Result<Seq<crate::presets::ModView>, QueryError> {
    if !submitted {
        Err(QueryError::SubmissionRejected)
    } else {
        match delivered {
            None => Err(QueryError::Cancelled),
            Some(None) => Err(QueryError::Remote),
            Some(Some(items)) => Ok(items),
        }
    }
}

/// Resolve one bulk item query from what the exchange produced: whether
/// submission was accepted, and what, if anything, the callback delivered
/// (`None` inside means the callback reported failure).
pub fn complete_query(submitted: bool, delivered: Option<Option<Vec<Mod>>>) -> (r: Result<
    Vec<Mod>,
    QueryError,
>)
    ensures
        match spec_query_outcome(
            submitted,
            match delivered {
                None => None,
                Some(None) => Some(None),
                Some(Some(items)) => Some(Some(items.deep_view())),
            },
        ) {
            Ok(items) => r is Ok && r->Ok_0.deep_view() == items,
            Err(e) => r == Result::<Vec<Mod>, QueryError>::Err(e),
        },
{
    if !submitted {
        return Err(QueryError::SubmissionRejected);
    }
    match delivered {
        None => Err(QueryError::Cancelled),
        Some(None) => Err(QueryError::Remote),
        Some(Some(items)) => Ok(items),
    }
}

/// Why removing one item did not succeed.
#[derive(Clone, Copy, Debug, PartialEq, Eq, Structural)]
pub enum RemoteError {
    /// The handle shut down before the response arrived.
    Cancelled,
    /// The service reported the removal failed.
    Failed,
}

/// What a completed removal request means: no response before shutdown is
/// a cancellation; a delivered verdict is taken as the service gave it.
pub open spec fn spec_unsub_outcome(delivered: Option<bool>) -> Result<(), RemoteError> {
    match delivered {
        None => Err(RemoteError::Cancelled),
        Some(false) => Err(RemoteError::Failed),
        Some(true) => Ok(()),
    }
}

/// Resolve one removal request from what, if anything, the callback
/// delivered before the requester gave up.
pub fn complete_unsub(delivered: Option<bool>) -> (r: Result<(), RemoteError>)
    ensures
        r == spec_unsub_outcome(delivered),
{
    match delivered {
        None => Err(RemoteError::Cancelled),
        Some(false) => Err(RemoteError::Failed),
        Some(true) => Ok(()),
    }
}

} // verus!
