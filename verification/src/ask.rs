//! The request/reply ("ask") correlation primitive.
//!
//! An ask is a one-shot slot: the responder writes the reply at most once,
//! the caller's wait handle resolves exactly once. If the responder is
//! destroyed before replying, the ask resolves to a cancellation.

use vstd::prelude::*;

use crate::lifecycle::{control_step, ControlEvent, LifecycleState};

verus! {

/// Errors of the ask primitive.
#[derive(Clone, Copy, Debug, PartialEq, Eq, Structural)]
pub enum AskError {
    /// A second `reply` on an ask whose slot was already written.
    AlreadyReplied,
    /// The responder was destroyed before replying, or the ask was dropped
    /// before the reply arrived.
    AskCancelled,
}

/// The state of an ask's reply slot.
#[derive(Clone, Copy, Debug, PartialEq, Eq, Structural)]
pub enum AskState {
    /// No reply written yet; the caller's handle is still waiting.
    Pending,
    /// The responder wrote exactly one reply.
    Replied,
    /// The responder went away before writing a reply.
    Cancelled,
}

/// A one-shot correlation object: an at-most-once-write reply slot with a
/// single-reader fulfillment handle.
pub struct Ask<T> {
    /// The reply value, written by the first successful `reply`.
    pub slot: Option<T>,
    /// Whether the slot is still writable, written, or cancelled.
    pub state: AskState,
    /// Whether the caller's handle has already resolved.
    pub taken: bool,
}

impl<T> Ask<T> {
    /// The slot holds a value exactly while a written reply waits for the
    /// caller, and the handle resolves only after the slot has settled.
    pub open spec fn wf(self) -> bool {
        &&& (self.slot is Some <==> (self.state is Replied && !self.taken))
        &&& (self.taken ==> !(self.state is Pending))
    }

    /// What `reply` does: the first write settles the slot, later writes
    /// fail with `AlreadyReplied`, and a write to a cancelled ask reports
    /// the cancellation.
    pub open spec fn reply_step(self, v: T) -> (Ask<T>, Result<(), AskError>) {
        match self.state {
            AskState::Pending => (
                Ask { slot: Some(v), state: AskState::Replied, ..self },
                Ok(()),
            ),
            AskState::Replied => (self, Err(AskError::AlreadyReplied)),
            AskState::Cancelled => (self, Err(AskError::AskCancelled)),
        }
    }

    /// What `try_resolve` does: nothing while pending, the reply or the
    /// cancellation exactly once after the slot settles, nothing afterwards.
    pub open spec fn resolve_step(self) -> (Ask<T>, Option<Result<T, AskError>>) {
        if self.state is Pending || self.taken {
            (self, None)
        } else if self.state is Replied {
            (Ask { slot: None, taken: true, ..self }, Some(Ok(self.slot->0)))
        } else {
            (Ask { taken: true, ..self }, Some(Err(AskError::AskCancelled)))
        }
    }

    /// A fresh ask: empty slot, waiting caller.
    pub fn new() -> (r: Ask<T>)
        ensures
            r.wf(),
            r.state is Pending,
            !r.taken,
            r.slot is None,
    {
        Ask { slot: None, state: AskState::Pending, taken: false }
    }

    /// Write the reply. The first call on a pending ask succeeds and settles
    /// the slot with `v`; every later call fails without touching the slot.
    pub fn reply(&mut self, v: T) -> (r: Result<(), AskError>)
        requires
            old(self).wf(),
        ensures
            final(self).wf(),
            (*final(self), r) == old(self).reply_step(v),
    {
        match self.state {
            AskState::Pending => {
                self.slot = Some(v);
                self.state = AskState::Replied;
                Ok(())
            }
            AskState::Replied => Err(AskError::AlreadyReplied),
            AskState::Cancelled => Err(AskError::AskCancelled),
        }
    }

    /// The responder went away before replying: a pending ask becomes
    /// cancelled; a settled ask is left as it is.
    pub fn cancel(&mut self)
        requires
            old(self).wf(),
        ensures
            final(self).wf(),
            old(self).state is Pending ==> *final(self) == (Ask {
                state: AskState::Cancelled,
                ..*old(self)
            }),
            !(old(self).state is Pending) ==> *final(self) == *old(self),
    {
        if matches!(self.state, AskState::Pending) {
            self.state = AskState::Cancelled;
        }
    }

    /// Poll the caller's wait handle: `None` while the ask is pending and
    /// after it has resolved; the reply or the cancellation exactly once in
    /// between.
    pub fn try_resolve(&mut self) -> (r: Option<Result<T, AskError>>)
        requires
            old(self).wf(),
        ensures
            final(self).wf(),
            (*final(self), r) == old(self).resolve_step(),
    {
        if matches!(self.state, AskState::Pending) || self.taken {
            None
        } else {
            self.taken = true;
            if matches!(self.state, AskState::Replied) {
                let v = self.slot.take();
                Some(Ok(v.unwrap()))
            } else {
                Some(Err(AskError::AskCancelled))
            }
        }
    }
}

/// For every ask whose responder calls `reply(v)`, the caller's wait handle
/// resolves to `v` exactly once: a later poll yields nothing, and a second
/// `reply` — with any value `w` — fails with `AlreadyReplied`.
pub proof fn lemma_ask_round_trip<T>(a: Ask<T>, v: T, w: T)
    requires
        a.wf(),
        a.state is Pending,
        !a.taken,
    ensures
        ({
            let (a1, r1) = a.reply_step(v);
            let (a2, first) = a1.resolve_step();
            let (a3, second) = a2.resolve_step();
            &&& r1 == Ok::<(), AskError>(())
            &&& first == Some(Ok::<T, AskError>(v))
            &&& second is None
            &&& a1.reply_step(w).1 == Err::<(), AskError>(AskError::AlreadyReplied)
        }),
{
}

/// Killing a component that holds a pending ask: the kill destroys the
/// component from any alive state — which drops the ask unreplied,
/// cancelling it — and the caller's wait handle then resolves to
/// `AskCancelled` exactly once, neither hanging nor yielding a value.
pub proof fn lemma_kill_cancels_pending_ask<T>(s: LifecycleState, a: Ask<T>)
    requires
        s.is_alive(),
        a.wf(),
        a.state is Pending,
        !a.taken,
    ensures
        control_step(s, ControlEvent::Kill) == LifecycleState::Destroyed,
        ({
            let a1 = Ask { state: AskState::Cancelled, ..a };
            let (a2, first) = a1.resolve_step();
            let (_, second) = a2.resolve_step();
            &&& first == Some(Err::<T, AskError>(AskError::AskCancelled))
            &&& second is None
        }),
{
}

/// A responder killed before replying cancels the ask: the caller's wait
/// handle resolves to `AskCancelled` exactly once.
pub proof fn lemma_ask_cancellation<T>(a: Ask<T>)
    requires
        a.wf(),
        a.state is Pending,
        !a.taken,
    ensures
        ({
            let a1 = Ask { state: AskState::Cancelled, ..a };
            let (a2, first) = a1.resolve_step();
            let (_, second) = a2.resolve_step();
            &&& first == Some(Err::<T, AskError>(AskError::AskCancelled))
            &&& second is None
        }),
{
}

} // verus!
