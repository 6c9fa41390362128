//! Component lifecycle: the control state machine.
//!
//! A component's lifecycle is driven by the three control events `Start`,
//! `Stop` and `Kill`. `Stop` and `Kill` are accepted in any alive state;
//! once a component is `Destroyed` every further control event is absorbed
//! without effect.

use vstd::prelude::*;

verus! {

/// The control events every component implicitly handles through its
/// control port.
#[derive(Clone, Copy, Debug, PartialEq, Eq, Structural)]
pub enum ControlEvent {
    Start,
    Stop,
    Kill,
}

/// The lifecycle state of a component, separate from its execution state.
///
/// `Uninitialised → Initialising → Passive → Active` on the happy path;
/// `Destroyed` is absorbing.
#[derive(Clone, Copy, Debug, PartialEq, Eq, Structural)]
pub enum LifecycleState {
    Uninitialised,
    Initialising,
    Passive,
    Active,
    Destroyed,
}

impl LifecycleState {
    /// A component is alive until it has been destroyed.
    pub open spec fn is_alive(self) -> bool {
        !(self is Destroyed)
    }
}

/// The transition function of the control state machine.
///
/// `Start` activates a component that has completed setup (it is ignored
/// until then), `Stop` returns an alive component to the
/// stopped-but-alive state, `Kill` destroys it; a destroyed component
/// ignores every control event.
pub open spec fn control_step(s: LifecycleState, e: ControlEvent) -> LifecycleState {
    if s is Destroyed {
        LifecycleState::Destroyed
    } else {
        match e {
            ControlEvent::Start => if s is Passive || s is Active {
                LifecycleState::Active
            } else {
                s
            },
            ControlEvent::Stop => LifecycleState::Passive,
            ControlEvent::Kill => LifecycleState::Destroyed,
        }
    }
}

/// Apply one control event to a lifecycle state.
pub fn handle_control(s: LifecycleState, e: ControlEvent) -> (r: LifecycleState)
    ensures
        r == control_step(s, e),
{
    if matches!(s, LifecycleState::Destroyed) {
        LifecycleState::Destroyed
    } else {
        match e {
            ControlEvent::Start => {
                if matches!(s, LifecycleState::Passive) || matches!(s, LifecycleState::Active) {
                    LifecycleState::Active
                } else {
                    s
                }
            },
            ControlEvent::Stop => LifecycleState::Passive,
            ControlEvent::Kill => LifecycleState::Destroyed,
        }
    }
}

/// A freshly created container enters `Initialising` and runs `setup`.
pub fn on_created() -> (r: LifecycleState)
    ensures
        r == LifecycleState::Initialising,
{
    LifecycleState::Initialising
}

/// When `setup` returns, the component is stopped-but-alive, ready for
/// `Start`.
pub fn on_setup_complete() -> (r: LifecycleState)
    ensures
        r == LifecycleState::Passive,
{
    LifecycleState::Passive
}

/// Killing an already-destroyed component is a no-op: every control event,
/// `Kill` included, leaves a destroyed component destroyed.
pub proof fn lemma_kill_idempotent(e: ControlEvent)
    ensures
        control_step(LifecycleState::Destroyed, e) == LifecycleState::Destroyed,
{
}

/// A component only ever becomes destroyed through `Kill`: alive states are
/// preserved by `Start` and `Stop`.
pub proof fn lemma_only_kill_destroys(s: LifecycleState, e: ControlEvent)
    requires
        s.is_alive(),
        !(e is Kill),
    ensures
        control_step(s, e).is_alive(),
{
}

} // verus!
