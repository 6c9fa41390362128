//! Component definitions seen dynamically.
//!
//! When the concrete definition type is not at hand — a component held
//! behind an object-safe handle — its ports are reached by a stable port
//! identifier, and its handlers through the object-safe trait surface.

use vstd::prelude::*;

use crate::lifecycle::ControlEvent;

verus! {

/// A stable identifier for a port type, assigned at registration.
pub type PortId = u64;

/// Error for when the component definition lock has been poisoned.
#[derive(Clone, Copy, Debug, PartialEq, Eq, Structural)]
pub struct LockPoisoned;

impl LockPoisoned {
    /// The diagnostic this error prints.
    pub fn message(&self) -> (r: &'static str)
        ensures
            r@ == "component definition lock has been poisoned"@,
    {
        "component definition lock has been poisoned"
    }
}

/// Look up the slot of `port_id` in a list of port identifiers: the first
/// slot holding it, if any.
pub fn find_id(ids: &Vec<PortId>, port_id: PortId) -> (r: Option<usize>)
    ensures
        r matches Some(i) ==> i < ids@.len() && ids@[i as int] == port_id,
        r is None <==> !ids@.contains(port_id),
{
    let n = ids.len();
    let mut i: usize = 0;
    while i < n
        invariant
            n == ids@.len(),
            i <= n,
            forall|j: int| 0 <= j < i ==> ids@[j] != port_id,
        decreases n - i,
    {
        if ids[i] == port_id {
            return Some(i);
        }
        i += 1;
    }
    None
}

/// A mechanism for dynamically getting at the provided and required ports
/// of a component definition.
///
/// Each port type a definition provides or requires occupies one slot, in
/// a fixed order; a lookup by port identifier returns that slot.
pub trait DynamicPortAccess {
    /// The identifiers of the port types this definition provides, in
    /// slot order.
    spec fn provided_ids(&self) -> Seq<PortId>;

    /// The identifiers of the port types this definition requires, in
    /// slot order.
    spec fn required_ids(&self) -> Seq<PortId>;

    /// Low-level lookup: the slot of the provided port with identifier
    /// `port_id`, if this definition provides one.
    fn find_provided_port(&self, port_id: PortId) -> (r: Option<usize>)
        ensures
            r matches Some(i) ==> i < self.provided_ids().len() && self.provided_ids()[i as int]
                == port_id,
            r is None <==> !self.provided_ids().contains(port_id),
    ;

    /// Low-level lookup: the slot of the required port with identifier
    /// `port_id`, if this definition requires one.
    fn find_required_port(&self, port_id: PortId) -> (r: Option<usize>)
        ensures
            r matches Some(i) ==> i < self.required_ids().len() && self.required_ids()[i as int]
                == port_id,
            r is None <==> !self.required_ids().contains(port_id),
    ;
}

/// The object-safe part of a component definition: dynamic port access,
/// the control-port handler, and reception of mailbox messages of type
/// `M`.
///
/// Handlers are free to change the definition's own state, but ports are
/// structural: no handler changes which port types the definition has.
pub trait DynamicComponentDefinition<M>: DynamicPortAccess {
    /// Handle one control event.
    fn handle_control(&mut self, event: ControlEvent)
        ensures
            final(self).provided_ids() == old(self).provided_ids(),
            final(self).required_ids() == old(self).required_ids(),
    ;

    /// Receive one message from the mailbox.
    fn receive(&mut self, msg: M)
        ensures
            final(self).provided_ids() == old(self).provided_ids(),
            final(self).required_ids() == old(self).required_ids(),
    ;

    /// Handle one event drained from the port with identifier `port_id`.
    fn handle_port_event(&mut self, port_id: PortId, event: M)
        ensures
            final(self).provided_ids() == old(self).provided_ids(),
            final(self).required_ids() == old(self).required_ids(),
    ;

}

impl<'a, M> dyn DynamicComponentDefinition<M> + 'a {
    /// Dynamically obtain the slot of a provided port of type `port_id`,
    /// if `self` provides that port type.
    pub fn get_provided_port(&self, port_id: PortId) -> (r: Option<usize>)
        ensures
            r matches Some(i) ==> i < self.provided_ids().len() && self.provided_ids()[i as int]
                == port_id,
            r is None <==> !self.provided_ids().contains(port_id),
    {
        self.find_provided_port(port_id)
    }

    /// Dynamically obtain the slot of a required port of type `port_id`,
    /// if `self` requires that port type.
    pub fn get_required_port(&self, port_id: PortId) -> (r: Option<usize>)
        ensures
            r matches Some(i) ==> i < self.required_ids().len() && self.required_ids()[i as int]
                == port_id,
            r is None <==> !self.required_ids().contains(port_id),
    {
        self.find_required_port(port_id)
    }
}

/// A minimal component definition: it records everything it handles.
///
/// Its message type is a 64-bit value; its port surface is fixed at
/// construction.
pub struct EventCounter {
    /// Identifiers of the port types this definition provides.
    pub provided: Vec<PortId>,
    /// Identifiers of the port types this definition requires.
    pub required: Vec<PortId>,
    /// Every control event handled, in order.
    pub controls_seen: Vec<ControlEvent>,
    /// Every mailbox message received, in order.
    pub messages_seen: Vec<u64>,
    /// Every port event handled, with its port, in order.
    pub events_seen: Vec<(PortId, u64)>,
}

impl EventCounter {
    /// A fresh definition with the given port surface and nothing seen.
    pub fn new(provided: Vec<PortId>, required: Vec<PortId>) -> (r: EventCounter)
        ensures
            r.provided_ids() == provided@,
            r.required_ids() == required@,
            r.controls_seen@ == Seq::<ControlEvent>::empty(),
            r.messages_seen@ == Seq::<u64>::empty(),
            r.events_seen@ == Seq::<(PortId, u64)>::empty(),
    {
        EventCounter {
            provided,
            required,
            controls_seen: Vec::new(),
            messages_seen: Vec::new(),
            events_seen: Vec::new(),
        }
    }
}

impl DynamicPortAccess for EventCounter {
    open spec fn provided_ids(&self) -> Seq<PortId> {
        self.provided@
    }

    open spec fn required_ids(&self) -> Seq<PortId> {
        self.required@
    }

    fn find_provided_port(&self, port_id: PortId) -> Option<usize> {
        find_id(&self.provided, port_id)
    }

    fn find_required_port(&self, port_id: PortId) -> Option<usize> {
        find_id(&self.required, port_id)
    }
}

impl DynamicComponentDefinition<u64> for EventCounter {
    fn handle_control(&mut self, event: ControlEvent)
        ensures
            final(self).controls_seen@ == old(self).controls_seen@.push(event),
            final(self).messages_seen == old(self).messages_seen,
            final(self).events_seen == old(self).events_seen,
            final(self).provided == old(self).provided,
            final(self).required == old(self).required,
    {
        self.controls_seen.push(event);
    }

    fn receive(&mut self, msg: u64)
        ensures
            final(self).messages_seen@ == old(self).messages_seen@.push(msg),
            final(self).controls_seen == old(self).controls_seen,
            final(self).events_seen == old(self).events_seen,
            final(self).provided == old(self).provided,
            final(self).required == old(self).required,
    {
        self.messages_seen.push(msg);
    }

    fn handle_port_event(&mut self, port_id: PortId, event: u64)
        ensures
            final(self).events_seen@ == old(self).events_seen@.push((port_id, event)),
            final(self).controls_seen == old(self).controls_seen,
            final(self).messages_seen == old(self).messages_seen,
            final(self).provided == old(self).provided,
            final(self).required == old(self).required,
    {
        self.events_seen.push((port_id, event));
    }
}

} // verus!
