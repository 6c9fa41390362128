//! The component container: queues, ready flag, definition lock, and the
//! bounded dispatch pass.
//!
//! A container owns one component's definition, its control-event queue,
//! its mailbox, and one event queue per port. Producers append to the
//! queues and raise the ready flag; the scheduler calls `execute`, which
//! first drains every pending control event and then up to `max_events`
//! ordinary events, rotating over the port queues from the `skip` offset
//! before turning to the mailbox.

use vstd::prelude::*;

use crate::definition::{DynamicComponentDefinition, LockPoisoned, PortId};
use crate::lifecycle::{control_step, handle_control, on_created, on_setup_complete, ControlEvent, LifecycleState};

verus! {

/// Errors of event dispatch.
#[derive(Clone, Copy, Debug, PartialEq, Eq, Structural)]
pub enum DispatchError {
    /// No port of the named type on this component.
    PortMissing,
    /// The port is declared by the definition but was never set up on
    /// its container before the event crossed it.
    PortUnwired,
    /// Wiring was attempted after the component observed `Start`, or
    /// after it was destroyed.
    WiredTooLate,
    /// The runtime had already begun shutting down.
    Shutdown,
}

/// What one dispatch pass reports back to the scheduler.
#[derive(Clone, Copy, Debug, PartialEq, Eq, Structural)]
pub struct ExecuteResult {
    /// How many ordinary events the pass executed.
    pub work_done: usize,
    /// The rotation offset at which the next pass should start.
    pub next_skip: usize,
    /// Whether work remains and the container must be re-enqueued.
    pub still_ready: bool,
}

/// One delivery the container made to its definition's handlers.
pub enum Delivery<M> {
    /// A control event, handled by the control port.
    Control(ControlEvent),
    /// A mailbox message, handed to `receive`.
    Message(M),
    /// An event drained from a port queue.
    Port(PortId, M),
}

/// One port-event queue owned by the container.
pub struct PortQueue<M> {
    /// The port type this queue belongs to.
    pub id: PortId,
    /// The pending events, oldest first.
    pub events: Vec<M>,
}

/// The lifecycle state a component reaches after handling a sequence of
/// control events; destruction is absorbing.
pub open spec fn lifecycle_fold(s: LifecycleState, q: Seq<ControlEvent>) -> LifecycleState
    decreases q.len(),
{
    if q.len() == 0 {
        s
    } else {
        lifecycle_fold(control_step(s, q[0]), q.skip(1))
    }
}

/// Folding one more control event steps the folded state once.
pub proof fn lemma_lifecycle_fold_snoc(s: LifecycleState, q: Seq<ControlEvent>, e: ControlEvent)
    ensures
        lifecycle_fold(s, q.push(e)) == control_step(lifecycle_fold(s, q), e),
    decreases q.len(),
{
    let qe = q.push(e);
    assert(qe.len() == q.len() + 1);
    if q.len() == 0 {
        assert(qe[0] == e);
        assert(qe.skip(1) =~= Seq::<ControlEvent>::empty());
        assert(lifecycle_fold(s, qe) == lifecycle_fold(control_step(s, e), qe.skip(1)));
        assert(lifecycle_fold(control_step(s, e), qe.skip(1)) == control_step(s, e));
    } else {
        assert(qe[0] == q[0]);
        assert(qe.skip(1) =~= q.skip(1).push(e));
        lemma_lifecycle_fold_snoc(control_step(s, q[0]), q.skip(1), e);
        assert(lifecycle_fold(s, qe) == lifecycle_fold(control_step(s, q[0]), qe.skip(1)));
        assert(lifecycle_fold(s, q) == lifecycle_fold(control_step(s, q[0]), q.skip(1)));
    }
}

/// Append `event` to the port queue in slot `i`, leaving the other slots
/// alone.
fn port_push<M>(ports: &mut Vec<PortQueue<M>>, i: usize, event: M)
    requires
        i < old(ports)@.len(),
    ensures
        final(ports)@.len() == old(ports)@.len(),
        final(ports)@[i as int].id == old(ports)@[i as int].id,
        final(ports)@[i as int].events@ == old(ports)@[i as int].events@.push(event),
        forall|j: int| 0 <= j < old(ports)@.len() && j != i ==> final(ports)@[j] == old(ports)@[j],
{
    let q = &mut ports[i];
    q.events.push(event);
}

/// The lifecycle state of a destroyed component absorbs every control
/// event.
pub proof fn lemma_lifecycle_fold_destroyed(q: Seq<ControlEvent>)
    ensures
        lifecycle_fold(LifecycleState::Destroyed, q) == LifecycleState::Destroyed,
    decreases q.len(),
{
    if q.len() > 0 {
        lemma_lifecycle_fold_destroyed(q.skip(1));
    }
}

/// Folding a concatenation folds the two parts in turn.
pub proof fn lemma_lifecycle_fold_app(s: LifecycleState, a: Seq<ControlEvent>, b: Seq<ControlEvent>)
    ensures
        lifecycle_fold(s, a + b) == lifecycle_fold(lifecycle_fold(s, a), b),
    decreases a.len(),
{
    if a.len() == 0 {
        assert(a + b =~= b);
    } else {
        assert((a + b)[0] == a[0]);
        assert((a + b).skip(1) =~= a.skip(1) + b);
        lemma_lifecycle_fold_app(control_step(s, a[0]), a.skip(1), b);
    }
}

/// `post` is what remains of `pre` after consuming some prefix.
pub open spec fn is_suffix_of<A>(post: Seq<A>, pre: Seq<A>) -> bool {
    exists|c: int| 0 <= c <= pre.len() && post == pre.skip(c)
}

/// Consuming one more element keeps a suffix a suffix.
pub proof fn lemma_suffix_step<A>(post: Seq<A>, pre: Seq<A>)
    requires
        is_suffix_of(post, pre),
        post.len() > 0,
    ensures
        is_suffix_of(post.skip(1), pre),
{
    let c = choose|c: int| 0 <= c <= pre.len() && post == pre.skip(c);
    assert(post.skip(1) =~= pre.skip(c + 1));
}

/// The deliveries of a control-event sequence.
pub open spec fn control_deliveries<M>(q: Seq<ControlEvent>) -> Seq<Delivery<M>> {
    q.map_values(|e: ControlEvent| Delivery::Control(e))
}

/// The deliveries of a mailbox-message sequence.
pub open spec fn message_deliveries<M>(q: Seq<M>) -> Seq<Delivery<M>> {
    q.map_values(|m: M| Delivery::Message(m))
}

/// Whether no two port queues share a port type.
pub open spec fn ports_distinct<M>(ports: Seq<PortQueue<M>>) -> bool {
    forall|i: int, j: int|
        #![trigger ports[i].id, ports[j].id]
        0 <= i < j < ports.len() ==> ports[i].id != ports[j].id
}

/// The events delivered from the port with identifier `id`, in delivery
/// order.
pub open spec fn port_deliveries_of<M>(ord: Seq<Delivery<M>>, id: PortId) -> Seq<M>
    decreases ord.len(),
{
    if ord.len() == 0 {
        Seq::empty()
    } else {
        let rest = port_deliveries_of(ord.drop_last(), id);
        match ord.last() {
            Delivery::Port(pid, e) => if pid == id {
                rest.push(e)
            } else {
                rest
            },
            _ => rest,
        }
    }
}

/// Appending one delivery appends its event to its own port's deliveries
/// and leaves every other port's deliveries alone.
pub proof fn lemma_port_deliveries_push<M>(ord: Seq<Delivery<M>>, d: Delivery<M>, id: PortId)
    ensures
        port_deliveries_of(ord.push(d), id) == (match d {
            Delivery::Port(pid, e) => if pid == id {
                port_deliveries_of(ord, id).push(e)
            } else {
                port_deliveries_of(ord, id)
            },
            _ => port_deliveries_of(ord, id),
        }),
{
    assert(ord.push(d).drop_last() =~= ord);
    assert(ord.push(d).last() == d);
}

/// The queue visited at step `o` of a rotation over `n` slots starting
/// at `base`.
pub open spec fn rotated_slot(base: int, o: int, n: int) -> int {
    if base + o < n {
        base + o
    } else {
        base + o - n
    }
}

/// Advance `base` by `offset` slots around a rotation of `n` slots.
fn rotate_offset(base: usize, offset: usize, n: usize) -> (r: usize)
    requires
        n > 0,
        base < n,
        offset <= n,
    ensures
        r < n,
        r as int == rotated_slot(base as int, offset as int, n as int),
{
    if offset >= n - base {
        offset - (n - base)
    } else {
        base + offset
    }
}

/// The length of the port queue in slot `i`.
fn port_len<M>(ports: &Vec<PortQueue<M>>, i: usize) -> (r: usize)
    requires
        i < ports@.len(),
    ensures
        r == ports@[i as int].events@.len(),
{
    ports[i].events.len()
}

/// Pop the oldest event off the port queue in slot `i`, returning it with
/// its port's identifier.
fn port_pop_front<M>(ports: &mut Vec<PortQueue<M>>, i: usize) -> (r: (PortId, M))
    requires
        i < old(ports)@.len(),
        old(ports)@[i as int].events@.len() > 0,
    ensures
        r.0 == old(ports)@[i as int].id,
        r.1 == old(ports)@[i as int].events@[0],
        final(ports)@.len() == old(ports)@.len(),
        final(ports)@[i as int].id == old(ports)@[i as int].id,
        final(ports)@[i as int].events@ == old(ports)@[i as int].events@.skip(1),
        forall|j: int| 0 <= j < old(ports)@.len() && j != i ==> final(ports)@[j] == old(ports)@[j],
{
    let q = &mut ports[i];
    let e = q.events.remove(0);
    let id = q.id;
    proof {
        assert(ports@[i as int].events@ =~= old(ports)@[i as int].events@.skip(1));
    }
    (id, e)
}

/// The runtime wrapper owning one component: its definition, its queues,
/// its ready flag, its rotation offset and its definition lock's state.
pub struct Component<C, M> {
    /// The user-supplied definition, guarded by the definition lock.
    pub definition: C,
    /// The component's lifecycle state.
    pub lifecycle: LifecycleState,
    /// Pending control events, oldest first.
    pub control_queue: Vec<ControlEvent>,
    /// Pending mailbox messages, oldest first.
    pub mailbox: Vec<M>,
    /// One pending-event queue per port.
    pub ports: Vec<PortQueue<M>>,
    /// Where the previous dispatch pass stopped rotating over the ports.
    pub skip: usize,
    /// Whether the container is currently scheduled for execution.
    pub ready: bool,
    /// Whether a suspended handler's continuation is still pending.
    pub blocked: bool,
    /// Whether a handler panic poisoned the definition lock.
    pub poisoned: bool,
    /// Every delivery made to the definition's handlers, in order.
    pub log: Ghost<Seq<Delivery<M>>>,
}

impl<C, M> Component<C, M> {
    /// The container's invariant: the rotation offset stays within the
    /// ports, and a destroyed component holds no pending events.
    pub open spec fn wf(self) -> bool {
        &&& self.skip <= self.ports@.len()
        &&& (self.lifecycle is Destroyed ==> self.control_queue@.len() == 0
            && self.mailbox@.len() == 0 && self.ports@.len() == 0)
    }

    /// Whether any queue holds a pending event.
    pub open spec fn has_pending_spec(self) -> bool {
        ||| self.control_queue@.len() > 0
        ||| self.mailbox@.len() > 0
        ||| exists|i: int| 0 <= i < self.ports@.len() && self.ports@[i].events@.len() > 0
    }

    /// Everything an enqueue leaves alone: the definition, the lifecycle,
    /// the lock state and the delivery log.
    pub open spec fn enqueue_frame(pre: Component<C, M>, post: Component<C, M>) -> bool {
        &&& post.definition == pre.definition
        &&& post.lifecycle == pre.lifecycle
        &&& post.skip == pre.skip
        &&& post.blocked == pre.blocked
        &&& post.poisoned == pre.poisoned
        &&& post.log == pre.log
    }
}

impl<C: DynamicComponentDefinition<M>, M> Component<C, M> {
    /// Wrap a definition into a fresh container with one empty queue per
    /// entry of `port_ids`. The container is still initialising:
    /// `complete_setup` makes it ready for `Start`.
    pub fn new(definition: C, port_ids: Vec<PortId>) -> (r: Component<C, M>)
        ensures
            r.wf(),
            r.definition == definition,
            r.lifecycle == LifecycleState::Initialising,
            r.control_queue@.len() == 0,
            r.mailbox@.len() == 0,
            r.ports@.len() == port_ids@.len(),
            forall|i: int|
                0 <= i < port_ids@.len() ==> r.ports@[i].id == port_ids@[i]
                    && r.ports@[i].events@.len() == 0,
            r.skip == 0,
            !r.ready,
            !r.blocked,
            !r.poisoned,
            r.log@ == Seq::<Delivery<M>>::empty(),
    {
        let n = port_ids.len();
        let mut ports: Vec<PortQueue<M>> = Vec::new();
        let mut i: usize = 0;
        while i < n
            invariant
                i <= n,
                n == port_ids@.len(),
                ports@.len() == i,
                forall|j: int|
                    0 <= j < i ==> ports@[j].id == port_ids@[j] && ports@[j].events@.len() == 0,
            decreases n - i,
        {
            ports.push(PortQueue { id: port_ids[i], events: Vec::new() });
            i += 1;
        }
        Component {
            definition,
            lifecycle: on_created(),
            control_queue: Vec::new(),
            mailbox: Vec::new(),
            ports,
            skip: 0,
            ready: false,
            blocked: false,
            poisoned: false,
            log: Ghost(Seq::empty()),
        }
    }

    /// The definition's setup hook has returned: the component is
    /// stopped-but-alive, ready for `Start`.
    pub fn complete_setup(&mut self)
        requires
            old(self).wf(),
            old(self).lifecycle is Initialising,
        ensures
            final(self).wf(),
            *final(self) == (Component { lifecycle: LifecycleState::Passive, ..*old(self) }),
    {
        self.lifecycle = on_setup_complete();
    }

    /// Append a control event and mark the container ready; once the
    /// component is destroyed the event is dropped silently.
    pub fn enqueue_control(&mut self, event: ControlEvent)
        requires
            old(self).wf(),
        ensures
            final(self).wf(),
            old(self).lifecycle is Destroyed ==> *final(self) == *old(self),
            !(old(self).lifecycle is Destroyed) ==> {
                &&& Self::enqueue_frame(*old(self), *final(self))
                &&& final(self).control_queue@ == old(self).control_queue@.push(event)
                &&& final(self).mailbox == old(self).mailbox
                &&& final(self).ports == old(self).ports
                &&& final(self).ready
            },
    {
        if matches!(self.lifecycle, LifecycleState::Destroyed) {
            return ;
        }
        self.control_queue.push(event);
        self.ready = true;
    }

    /// Append a mailbox message and mark the container ready; once the
    /// component is destroyed the message is dropped silently.
    pub fn enqueue_message(&mut self, msg: M)
        requires
            old(self).wf(),
        ensures
            final(self).wf(),
            old(self).lifecycle is Destroyed ==> *final(self) == *old(self),
            !(old(self).lifecycle is Destroyed) ==> {
                &&& Self::enqueue_frame(*old(self), *final(self))
                &&& final(self).mailbox@ == old(self).mailbox@.push(msg)
                &&& final(self).control_queue == old(self).control_queue
                &&& final(self).ports == old(self).ports
                &&& final(self).ready
            },
    {
        if matches!(self.lifecycle, LifecycleState::Destroyed) {
            return ;
        }
        self.mailbox.push(msg);
        self.ready = true;
    }

    /// Append an event to the queue of the port named by `port_id` and
    /// mark the container ready. Fails with `PortUnwired` when the
    /// definition declares the port but it was never set up on this
    /// container, and with `PortMissing` when no port of that type is on
    /// this component at all; once the component is destroyed the event
    /// is dropped silently.
    pub fn enqueue_port(&mut self, port_id: PortId, event: M) -> (r: Result<(), DispatchError>)
        requires
            old(self).wf(),
        ensures
            final(self).wf(),
            old(self).lifecycle is Destroyed ==> *final(self) == *old(self) && r is Ok,
            !(old(self).lifecycle is Destroyed) ==> {
                if exists|i: int|
                    0 <= i < old(self).ports@.len() && old(self).ports@[i].id == port_id {
                    &&& r is Ok
                    &&& Self::enqueue_frame(*old(self), *final(self))
                    &&& final(self).control_queue == old(self).control_queue
                    &&& final(self).mailbox == old(self).mailbox
                    &&& final(self).ready
                    &&& final(self).ports@.len() == old(self).ports@.len()
                    &&& exists|i: int|
                        {
                            &&& 0 <= i < old(self).ports@.len()
                            &&& old(self).ports@[i].id == port_id
                            &&& final(self).ports@[i].id == port_id
                            &&& final(self).ports@[i].events@ == old(
                                self,
                            ).ports@[i].events@.push(event)
                            &&& forall|j: int|
                                0 <= j < old(self).ports@.len() && j != i ==> final(self).ports@[j]
                                    == old(self).ports@[j]
                        }
                } else {
                    &&& *final(self) == *old(self)
                    &&& (old(self).definition.provided_ids().contains(port_id) || old(
                        self,
                    ).definition.required_ids().contains(port_id)) ==> r == Err::<
                        (),
                        DispatchError,
                    >(DispatchError::PortUnwired)
                    &&& !(old(self).definition.provided_ids().contains(port_id) || old(
                        self,
                    ).definition.required_ids().contains(port_id)) ==> r == Err::<
                        (),
                        DispatchError,
                    >(DispatchError::PortMissing)
                }
            },
    {
        if matches!(self.lifecycle, LifecycleState::Destroyed) {
            return Ok(());
        }
        let n = self.ports.len();
        let mut i: usize = 0;
        while i < n
            invariant
                i <= n,
                n == self.ports@.len(),
                forall|j: int| 0 <= j < i ==> self.ports@[j].id != port_id,
                *self == *old(self),
                old(self).wf(),
                !(old(self).lifecycle is Destroyed),
            decreases n - i,
        {
            if self.ports[i].id == port_id {
                port_push(&mut self.ports, i, event);
                self.ready = true;
                return Ok(());
            }
            i += 1;
        }
        let declared_provided = self.definition.find_provided_port(port_id);
        let declared_required = self.definition.find_required_port(port_id);
        if declared_provided.is_some() || declared_required.is_some() {
            Err(DispatchError::PortUnwired)
        } else {
            Err(DispatchError::PortMissing)
        }
    }

    /// The delivery log grown by one dispatch pass: `k` of the pending
    /// control events first — all of them, unless destruction cut the
    /// pass short — then the ordinary deliveries `ord`, whose tail is the
    /// consumed mailbox prefix in send order.
    pub open spec fn execute_deliveries(
        pre: Component<C, M>,
        post: Component<C, M>,
        r: ExecuteResult,
        k: int,
        ord: Seq<Delivery<M>>,
    ) -> bool {
        &&& 0 <= k <= pre.control_queue@.len()
        &&& post.log@ == pre.log@ + control_deliveries::<M>(pre.control_queue@.take(k)) + ord
        &&& (forall|j: int| 0 <= j < ord.len() ==> !(#[trigger] ord[j] is Control))
        &&& ord.len() == r.work_done
        &&& (!(post.lifecycle is Destroyed) ==> k == pre.control_queue@.len())
        &&& (post.lifecycle is Destroyed ==> ord.len() == 0)
        &&& exists|mb: int|
            {
                &&& 0 <= mb <= pre.mailbox@.len()
                &&& mb <= ord.len()
                &&& #[trigger] ord.skip(ord.len() - mb) == message_deliveries(
                    pre.mailbox@.take(mb),
                )
                &&& (!(post.lifecycle is Destroyed) ==> post.mailbox@ == pre.mailbox@.skip(mb))
            }
        &&& ((ports_distinct(pre.ports@) && !(post.lifecycle is Destroyed)) ==> {
            &&& (forall|i: int|
                0 <= i < pre.ports@.len() ==> #[trigger] port_deliveries_of(
                    ord,
                    pre.ports@[i].id,
                ) == pre.ports@[i].events@.take(
                    pre.ports@[i].events@.len() - post.ports@[i].events@.len(),
                ))
            &&& (forall|j: int|
                0 <= j < ord.len() ==> match #[trigger] ord[j] {
                    Delivery::Port(pid, _) => exists|i: int|
                        0 <= i < pre.ports@.len() && (#[trigger] pre.ports@[i]).id == pid,
                    _ => true,
                })
        })
    }

    /// What one dispatch pass guarantees: control events strictly precede
    /// ordinary events, at most `max_events` ordinary events run, each
    /// queue is consumed oldest-first, destruction discards what is left,
    /// and the pass reports whether work remains.
    pub open spec fn execute_post(
        pre: Component<C, M>,
        post: Component<C, M>,
        r: ExecuteResult,
        max_events: int,
    ) -> bool {
        &&& post.poisoned == pre.poisoned
        &&& post.blocked == pre.blocked
        &&& r.work_done <= max_events
        &&& post.ready == r.still_ready
        &&& if pre.blocked {
            // a pending continuation keeps the handler logically running:
            // nothing at all is delivered
            &&& post.lifecycle == pre.lifecycle
            &&& post.control_queue == pre.control_queue
            &&& post.mailbox == pre.mailbox
            &&& post.ports == pre.ports
            &&& post.skip == pre.skip
            &&& post.log == pre.log
            &&& r.work_done == 0
            &&& !r.still_ready
        } else {
            &&& post.lifecycle == lifecycle_fold(pre.lifecycle, pre.control_queue@)
            &&& post.control_queue@.len() == 0
            &&& exists|k: int, ord: Seq<Delivery<M>>|
                Self::execute_deliveries(pre, post, r, k, ord)
            &&& (post.lifecycle is Destroyed ==> post.mailbox@.len() == 0 && post.ports@.len() == 0
                && r.work_done == 0 && !r.still_ready)
            &&& (!(post.lifecycle is Destroyed) ==> {
                &&& post.ports@.len() == pre.ports@.len()
                &&& (forall|i: int|
                    0 <= i < pre.ports@.len() ==> (#[trigger] post.ports@[i]).id
                        == pre.ports@[i].id && is_suffix_of(
                        post.ports@[i].events@,
                        pre.ports@[i].events@,
                    ))
                &&& (r.still_ready <==> post.has_pending_spec())
                &&& (r.work_done < max_events ==> !r.still_ready)
                &&& r.next_skip == post.skip
                &&& post.skip <= post.ports@.len()
            })
        }
    }

    /// Whether any of the container's queues holds a pending event.
    pub fn has_pending(&self) -> (r: bool)
        ensures
            r == self.has_pending_spec(),
    {
        if self.control_queue.len() > 0 || self.mailbox.len() > 0 {
            return true;
        }
        let n = self.ports.len();
        let mut i: usize = 0;
        while i < n
            invariant
                i <= n,
                n == self.ports@.len(),
                forall|j: int| 0 <= j < i ==> self.ports@[j].events@.len() == 0,
            decreases n - i,
        {
            if port_len(&self.ports, i) > 0 {
                return true;
            }
            i += 1;
        }
        false
    }

    /// Run one dispatch pass: drain every pending control event, then up
    /// to `max_events` ordinary events, rotating over the port queues
    /// from `skip` before turning to the mailbox. A pending continuation
    /// suspends the pass; destruction discards all remaining events.
    pub fn execute(&mut self, max_events: usize) -> (r: ExecuteResult)
        requires
            old(self).wf(),
            !old(self).poisoned,
        ensures
            final(self).wf(),
            Self::execute_post(*old(self), *final(self), r, max_events as int),
    {
        if self.blocked {
            self.ready = false;
            return ExecuteResult { work_done: 0, next_skip: self.skip, still_ready: false };
        }

        let ghost full_controls = self.control_queue@;
        let ghost mut processed: Seq<ControlEvent> = Seq::empty();

        // Phase 1: control events run before any ordinary work.
        while self.control_queue.len() > 0
            invariant
                old(self).wf(),
                !old(self).poisoned,
                !old(self).blocked,
                full_controls == old(self).control_queue@,
                full_controls == processed + self.control_queue@,
                self.lifecycle == lifecycle_fold(old(self).lifecycle, processed),
                self.lifecycle is Destroyed ==> old(self).lifecycle is Destroyed,
                self.log@ == old(self).log@ + control_deliveries::<M>(processed),
                self.mailbox == old(self).mailbox,
                self.ports == old(self).ports,
                self.skip == old(self).skip,
                self.ready == old(self).ready,
                self.blocked == old(self).blocked,
                self.poisoned == old(self).poisoned,
            decreases self.control_queue.len(),
        {
            let e = self.control_queue.remove(0);
            proof {
                assert(self.control_queue@ =~= full_controls.skip(processed.len() as int).skip(1));
                assert(processed + full_controls.skip(processed.len() as int) =~= full_controls);
            }
            self.definition.handle_control(e);
            self.lifecycle = handle_control(self.lifecycle, e);
            self.log = Ghost(self.log@.push(Delivery::Control(e)));
            proof {
                lemma_lifecycle_fold_snoc(old(self).lifecycle, processed, e);
                let prev = processed;
                processed = processed.push(e);
                assert(control_deliveries::<M>(processed) =~= control_deliveries::<M>(prev).push(
                    Delivery::Control(e),
                ));
                assert(full_controls =~= processed + self.control_queue@);
            }
            if matches!(self.lifecycle, LifecycleState::Destroyed) {
                // destruction: every remaining event is discarded
                self.control_queue = Vec::new();
                self.mailbox = Vec::new();
                self.ports = Vec::new();
                self.skip = 0;
                self.ready = false;
                proof {
                    lemma_lifecycle_fold_app(old(self).lifecycle, processed, full_controls.skip(
                        processed.len() as int,
                    ));
                    lemma_lifecycle_fold_destroyed(full_controls.skip(processed.len() as int));
                    assert(processed + full_controls.skip(processed.len() as int)
                        =~= full_controls);
                    assert(full_controls.take(processed.len() as int) =~= processed);
                }
                let r = ExecuteResult { work_done: 0, next_skip: 0, still_ready: false };
                proof {
                    let ord = Seq::<Delivery<M>>::empty();
                    assert(self.log@ =~= old(self).log@ + control_deliveries::<M>(
                        full_controls.take(processed.len() as int),
                    ) + ord);
                    assert(ord.skip(0) =~= message_deliveries::<M>(old(self).mailbox@.take(0)));
                    assert(Self::execute_deliveries(
                        *old(self),
                        *self,
                        r,
                        processed.len() as int,
                        ord,
                    ));
                }
                return r;
            }
        }

        proof {
            assert(processed =~= full_controls);
        }

        if matches!(self.lifecycle, LifecycleState::Destroyed) {
            // only reachable when the component was already destroyed, so
            // every queue is empty and there is nothing to do
            self.skip = 0;
            self.ready = false;
            let r = ExecuteResult { work_done: 0, next_skip: 0, still_ready: false };
            proof {
                let ord = Seq::<Delivery<M>>::empty();
                assert(full_controls.take(full_controls.len() as int) =~= full_controls);
                assert(self.log@ =~= old(self).log@ + control_deliveries::<M>(
                    full_controls.take(full_controls.len() as int),
                ) + ord);
                assert(ord.skip(0) =~= message_deliveries::<M>(old(self).mailbox@.take(0)));
                assert(Self::execute_deliveries(
                    *old(self),
                    *self,
                    r,
                    full_controls.len() as int,
                    ord,
                ));
            }
            return r;
        }

        proof {
            assert forall|i: int| 0 <= i < self.ports@.len() implies is_suffix_of(
                self.ports@[i].events@,
                old(self).ports@[i].events@,
            ) by {
                assert(self.ports@[i].events@ =~= old(self).ports@[i].events@.skip(0));
            }
        }
        let ghost after_controls = *self;

        // Phase 2: ordinary events from the port queues, rotating from
        // `skip`, under the remaining budget.
        let mut count: usize = 0;
        let ghost mut ord: Seq<Delivery<M>> = Seq::empty();
        proof {
            assert forall|i: int| 0 <= i < self.ports@.len() implies #[trigger] port_deliveries_of(
                ord,
                old(self).ports@[i].id,
            ) == old(self).ports@[i].events@.take(
                old(self).ports@[i].events@.len() - self.ports@[i].events@.len(),
            ) by {
                assert(old(self).ports@[i].events@.take(0) =~= Seq::<M>::empty());
            }
        }
        let nports = self.ports.len();
        let ghost b0: int = if self.skip >= nports {
            0
        } else {
            self.skip as int
        };
        let mut offset: usize = 0;
        while offset < nports && count < max_events
            invariant
                old(self).wf(),
                offset <= nports,
                nports > 0 ==> 0 <= b0 < nports,
                b0 == (if old(self).skip >= nports {
                    0int
                } else {
                    old(self).skip as int
                }),
                count < max_events ==> (forall|o: int|
                    0 <= o < offset ==> (#[trigger] self.ports@[rotated_slot(
                        b0,
                        o,
                        nports as int,
                    )]).events@.len() == 0),
                count <= max_events,
                nports == self.ports@.len(),
                nports == old(self).ports@.len(),
                !(self.lifecycle is Destroyed),
                self.lifecycle == after_controls.lifecycle,
                self.control_queue@.len() == 0,
                self.mailbox == old(self).mailbox,
                forall|i: int|
                    0 <= i < nports ==> (#[trigger] self.ports@[i]).id == old(self).ports@[i].id
                        && is_suffix_of(self.ports@[i].events@, old(self).ports@[i].events@),
                self.log@ == after_controls.log@ + ord,
                forall|j: int| 0 <= j < ord.len() ==> (#[trigger] ord[j]) is Port,
                ord.len() == count,
                forall|i: int|
                    0 <= i < nports ==> (#[trigger] self.ports@[i]).events@.len() <= old(self).ports@[i].events@.len(),
                ports_distinct(old(self).ports@) ==> (forall|i: int|
                    0 <= i < nports ==> #[trigger] port_deliveries_of(ord, old(self).ports@[i].id)
                        == old(self).ports@[i].events@.take(
                        old(self).ports@[i].events@.len() - self.ports@[i].events@.len(),
                    )),
                forall|j: int|
                    0 <= j < ord.len() ==> match #[trigger] ord[j] {
                        Delivery::Port(pid, _) => exists|i: int|
                            0 <= i < nports && (#[trigger] old(self).ports@[i]).id == pid,
                        _ => true,
                    },
                self.skip == old(self).skip,
                self.skip <= nports,
                self.ready == old(self).ready,
                self.blocked == old(self).blocked,
                self.poisoned == old(self).poisoned,
            decreases nports - offset,
        {
            let base = if self.skip >= nports {
                0
            } else {
                self.skip
            };
            let qi = rotate_offset(base, offset, nports);
            while port_len(&self.ports, qi) > 0 && count < max_events
                invariant
                    old(self).wf(),
                    qi < nports,
                    offset < nports,
                    0 <= b0 < nports,
                    qi as int == rotated_slot(b0, offset as int, nports as int),
                    count < max_events ==> (forall|o: int|
                        0 <= o < offset ==> (#[trigger] self.ports@[rotated_slot(
                            b0,
                            o,
                            nports as int,
                        )]).events@.len() == 0),
                    count <= max_events,
                    nports == self.ports@.len(),
                    nports == old(self).ports@.len(),
                    !(self.lifecycle is Destroyed),
                    self.lifecycle == after_controls.lifecycle,
                    self.control_queue@.len() == 0,
                    self.mailbox == old(self).mailbox,
                    forall|i: int|
                        0 <= i < nports ==> (#[trigger] self.ports@[i]).id == old(
                            self,
                        ).ports@[i].id && is_suffix_of(
                            self.ports@[i].events@,
                            old(self).ports@[i].events@,
                        ),
                    self.log@ == after_controls.log@ + ord,
                    forall|j: int| 0 <= j < ord.len() ==> (#[trigger] ord[j]) is Port,
                    ord.len() == count,
                    forall|i: int|
                        0 <= i < nports ==> (#[trigger] self.ports@[i]).events@.len() <= old(self).ports@[i].events@.len(),
                    ports_distinct(old(self).ports@) ==> (forall|i: int|
                        0 <= i < nports ==> #[trigger] port_deliveries_of(ord, old(self).ports@[i].id)
                            == old(self).ports@[i].events@.take(
                            old(self).ports@[i].events@.len() - self.ports@[i].events@.len(),
                        )),
                    forall|j: int|
                        0 <= j < ord.len() ==> match #[trigger] ord[j] {
                            Delivery::Port(pid, _) => exists|i: int|
                                0 <= i < nports && (#[trigger] old(self).ports@[i]).id == pid,
                            _ => true,
                        },
                    self.skip == old(self).skip,
                    self.skip <= nports,
                    self.ready == old(self).ready,
                    self.blocked == old(self).blocked,
                    self.poisoned == old(self).poisoned,
                decreases self.ports@[qi as int].events@.len(),
            {
                proof {
                    lemma_suffix_step(
                        self.ports@[qi as int].events@,
                        old(self).ports@[qi as int].events@,
                    );
                }
                let ghost top_events = self.ports@[qi as int].events@;
                let (pid, e) = port_pop_front(&mut self.ports, qi);
                let ghost ev = e;
                self.definition.handle_port_event(pid, e);
                count += 1;
                self.log = Ghost(self.log@.push(Delivery::Port(pid, ev)));
                proof {
                    let prev = ord;
                    ord = ord.push(Delivery::Port(pid, ev));
                    assert(self.log@ =~= after_controls.log@ + ord);
                    assert(old(self).ports@[qi as int].id == pid);
                    assert forall|j: int| 0 <= j < ord.len() implies (match #[trigger] ord[j] {
                        Delivery::Port(p2, _) => exists|i: int|
                            0 <= i < nports && (#[trigger] old(self).ports@[i]).id == p2,
                        _ => true,
                    }) by {
                        if j < prev.len() {
                            assert(ord[j] == prev[j]);
                        } else {
                            assert(ord[j] == Delivery::<M>::Port(pid, ev));
                            assert(0 <= (qi as int) && (qi as int) < nports && old(
                                self,
                            ).ports@[qi as int].id == pid);
                        }
                    }
                    if ports_distinct(old(self).ports@) {
                        let pre_qi = old(self).ports@[qi as int].events@;
                        let k: int = pre_qi.len() - top_events.len();
                        let c = choose|c: int| 0 <= c <= pre_qi.len() && top_events == pre_qi.skip(
                            c,
                        );
                        assert(c == k);
                        assert(ev == pre_qi[k]);
                        assert(pre_qi.take(k + 1) =~= pre_qi.take(k).push(pre_qi[k]));
                        assert forall|i: int|
                            0 <= i < nports implies #[trigger] port_deliveries_of(
                            ord,
                            old(self).ports@[i].id,
                        ) == old(self).ports@[i].events@.take(
                            old(self).ports@[i].events@.len() - self.ports@[i].events@.len(),
                        ) by {
                            lemma_port_deliveries_push(
                                prev,
                                Delivery::Port(pid, ev),
                                old(self).ports@[i].id,
                            );
                            if i != qi as int {
                                assert(old(self).ports@[i].id != pid);
                            }
                        }
                    }
                }
            }
            proof {
                if count < max_events {
                    assert(self.ports@[rotated_slot(b0, offset as int, nports as int)].events@.len()
                        == 0);
                }
            }
            offset += 1;
        }
        proof {
            // when the budget did not run out, the rotation visited and
            // drained every port queue
            if count < max_events {
                assert forall|i: int| 0 <= i < nports implies self.ports@[i].events@.len()
                    == 0 by {
                    if i >= b0 {
                        assert(rotated_slot(b0, i - b0, nports as int) == i);
                        assert(self.ports@[rotated_slot(b0, i - b0, nports as int)].events@.len()
                            == 0);
                    } else {
                        assert(rotated_slot(b0, i - b0 + nports as int, nports as int) == i);
                        assert(self.ports@[rotated_slot(
                            b0,
                            i - b0 + nports as int,
                            nports as int,
                        )].events@.len() == 0);
                    }
                }
            }
        }
        let next_skip = if nports > 0 {
            let base = if self.skip >= nports {
                0
            } else {
                self.skip
            };
            rotate_offset(base, offset, nports)
        } else {
            0
        };
        self.skip = next_skip;
        let ghost port_ord = ord;

        // Phase 3: the mailbox, with whatever budget remains.
        let ghost mut mb: int = 0;
        while self.mailbox.len() > 0 && count < max_events
            invariant
                old(self).wf(),
                count <= max_events,
                0 <= mb <= old(self).mailbox@.len(),
                !(self.lifecycle is Destroyed),
                self.lifecycle == after_controls.lifecycle,
                self.control_queue@.len() == 0,
                self.mailbox@ == old(self).mailbox@.skip(mb),
                self.ports@.len() == old(self).ports@.len(),
                forall|i: int|
                    0 <= i < old(self).ports@.len() ==> (#[trigger] self.ports@[i]).id == old(
                        self,
                    ).ports@[i].id && is_suffix_of(
                        self.ports@[i].events@,
                        old(self).ports@[i].events@,
                    ),
                self.log@ == after_controls.log@ + ord,
                ord == port_ord + message_deliveries::<M>(old(self).mailbox@.take(mb)),
                forall|j: int| 0 <= j < port_ord.len() ==> (#[trigger] port_ord[j]) is Port,
                forall|j: int| 0 <= j < ord.len() ==> !(#[trigger] ord[j] is Control),
                forall|i: int|
                    0 <= i < old(self).ports@.len() ==> (#[trigger] self.ports@[i]).events@.len()
                        <= old(self).ports@[i].events@.len(),
                ports_distinct(old(self).ports@) ==> (forall|i: int|
                    0 <= i < old(self).ports@.len() ==> #[trigger] port_deliveries_of(
                        ord,
                        old(self).ports@[i].id,
                    ) == old(self).ports@[i].events@.take(
                        old(self).ports@[i].events@.len() - self.ports@[i].events@.len(),
                    )),
                forall|j: int|
                    0 <= j < ord.len() ==> match #[trigger] ord[j] {
                        Delivery::Port(pid, _) => exists|i: int|
                            0 <= i < old(self).ports@.len() && (#[trigger] old(self).ports@[i]).id
                                == pid,
                        _ => true,
                    },
                mb + port_ord.len() == count,
                ord.len() == count,
                count < max_events ==> (forall|i: int|
                    0 <= i < self.ports@.len() ==> (#[trigger] self.ports@[i]).events@.len() == 0),
                self.skip == next_skip,
                self.skip <= self.ports@.len(),
                self.ready == old(self).ready,
                self.blocked == old(self).blocked,
                self.poisoned == old(self).poisoned,
            decreases self.mailbox.len(),
        {
            let m = self.mailbox.remove(0);
            let ghost mv = m;
            self.definition.receive(m);
            count += 1;
            self.log = Ghost(self.log@.push(Delivery::Message(mv)));
            proof {
                assert(self.mailbox@ =~= old(self).mailbox@.skip(mb + 1));
                assert(old(self).mailbox@.take(mb + 1) =~= old(self).mailbox@.take(mb).push(mv));
                assert(message_deliveries::<M>(old(self).mailbox@.take(mb + 1))
                    =~= message_deliveries::<M>(old(self).mailbox@.take(mb)).push(
                    Delivery::Message(mv),
                ));
                let prev = ord;
                ord = ord.push(Delivery::Message(mv));
                mb = mb + 1;
                assert(ord =~= port_ord + message_deliveries::<M>(old(self).mailbox@.take(mb)));
                assert(self.log@ =~= after_controls.log@ + ord);
                assert forall|j: int| 0 <= j < ord.len() implies (match #[trigger] ord[j] {
                    Delivery::Port(p2, _) => exists|i: int|
                        0 <= i < old(self).ports@.len() && (#[trigger] old(self).ports@[i]).id
                            == p2,
                    _ => true,
                }) by {
                    if j < prev.len() {
                        assert(ord[j] == prev[j]);
                    } else {
                        assert(ord[j] == Delivery::<M>::Message(mv));
                    }
                }
                if ports_distinct(old(self).ports@) {
                    assert forall|i: int|
                        0 <= i < old(self).ports@.len() implies #[trigger] port_deliveries_of(
                        ord,
                        old(self).ports@[i].id,
                    ) == old(self).ports@[i].events@.take(
                        old(self).ports@[i].events@.len() - self.ports@[i].events@.len(),
                    ) by {
                        lemma_port_deliveries_push(
                            prev,
                            Delivery::Message(mv),
                            old(self).ports@[i].id,
                        );
                    }
                }
            }
        }

        let still_ready = self.has_pending();
        self.ready = still_ready;
        let r = ExecuteResult { work_done: count, next_skip, still_ready };
        proof {
            let k = full_controls.len() as int;
            assert(full_controls.take(k) =~= full_controls);
            assert(self.log@ =~= old(self).log@ + control_deliveries::<M>(full_controls.take(k))
                + ord);
            assert(ord.skip(ord.len() - mb) =~= message_deliveries::<M>(
                old(self).mailbox@.take(mb),
            ));
            assert(Self::execute_deliveries(*old(self), *self, r, k, ord));
        }
        r
    }

    /// One producer's messages are observed in the order they were sent:
    /// within one dispatch pass, whenever the `j`-th pending mailbox
    /// message is delivered, every earlier pending message appears in the
    /// delivery log before it.
    pub proof fn lemma_fifo_per_producer(
        pre: Component<C, M>,
        post: Component<C, M>,
        r: ExecuteResult,
        max_events: int,
        i: int,
        j: int,
    )
        requires
            Self::execute_post(pre, post, r, max_events),
            !pre.blocked,
            !(post.lifecycle is Destroyed),
            0 <= i < j < pre.mailbox@.len(),
            j < pre.mailbox@.len() - post.mailbox@.len(),
        ensures
            exists|pi: int, pj: int|
                {
                    &&& 0 <= pi < pj < post.log@.len()
                    &&& post.log@[pi] == Delivery::<M>::Message(pre.mailbox@[i])
                    &&& post.log@[pj] == Delivery::<M>::Message(pre.mailbox@[j])
                },
    {
        let (k, ord) = choose|k: int, ord: Seq<Delivery<M>>|
            Self::execute_deliveries(pre, post, r, k, ord);
        let mb = choose|mb: int|
            {
                &&& 0 <= mb <= pre.mailbox@.len()
                &&& mb <= ord.len()
                &&& #[trigger] ord.skip(ord.len() - mb) == message_deliveries::<M>(
                    pre.mailbox@.take(mb),
                )
                &&& (!(post.lifecycle is Destroyed) ==> post.mailbox@ == pre.mailbox@.skip(mb))
            };
        assert(post.mailbox@.len() == pre.mailbox@.len() - mb);
        let cd = control_deliveries::<M>(pre.control_queue@.take(k));
        let base = pre.log@.len() + cd.len() + (ord.len() - mb);
        let pi = base + i;
        let pj = base + j;
        let msgs = message_deliveries::<M>(pre.mailbox@.take(mb));
        assert(msgs.len() == mb);
        assert(msgs[i] == Delivery::<M>::Message(pre.mailbox@.take(mb)[i]));
        assert(msgs[j] == Delivery::<M>::Message(pre.mailbox@.take(mb)[j]));
        assert(ord[ord.len() - mb + i] == ord.skip(ord.len() - mb)[i]);
        assert(ord[ord.len() - mb + j] == ord.skip(ord.len() - mb)[j]);
        assert(post.log@[pi] == ord[ord.len() - mb + i]);
        assert(post.log@[pj] == ord[ord.len() - mb + j]);
        assert(0 <= pi < pj < post.log@.len());
        assert(post.log@[pi] == Delivery::<M>::Message(pre.mailbox@[i]));
        assert(post.log@[pj] == Delivery::<M>::Message(pre.mailbox@[j]));
    }

    /// Dynamically obtain the slot of a provided port of type `port_id`,
    /// if this component's definition provides that port type.
    pub fn get_provided_port(&self, port_id: PortId) -> (r: Option<usize>)
        ensures
            r matches Some(i) ==> i < self.definition.provided_ids().len()
                && self.definition.provided_ids()[i as int] == port_id,
            r is None <==> !self.definition.provided_ids().contains(port_id),
    {
        self.definition.find_provided_port(port_id)
    }

    /// Dynamically obtain the slot of a required port of type `port_id`,
    /// if this component's definition requires that port type.
    pub fn get_required_port(&self, port_id: PortId) -> (r: Option<usize>)
        ensures
            r matches Some(i) ==> i < self.definition.required_ids().len()
                && self.definition.required_ids()[i as int] == port_id,
            r is None <==> !self.definition.required_ids().contains(port_id),
    {
        self.definition.find_required_port(port_id)
    }

    /// Acquire the definition lock: fails exactly when a prior handler
    /// panic poisoned it.
    pub fn lock_dyn_definition(&self) -> (r: Result<(), LockPoisoned>)
        ensures
            r is Ok <==> !self.poisoned,
    {
        if self.poisoned {
            Err(LockPoisoned)
        } else {
            Ok(())
        }
    }

    /// A mutable reference to the underlying definition, for callers that
    /// hold the container itself rather than a shared handle to it.
    pub fn dyn_definition_mut(&mut self) -> (r: &mut C)
        ensures
            *r == old(self).definition,
            final(self).definition == *final(r),
            final(self).lifecycle == old(self).lifecycle,
            final(self).control_queue == old(self).control_queue,
            final(self).mailbox == old(self).mailbox,
            final(self).ports == old(self).ports,
            final(self).skip == old(self).skip,
            final(self).ready == old(self).ready,
            final(self).blocked == old(self).blocked,
            final(self).poisoned == old(self).poisoned,
            final(self).log == old(self).log,
    {
        &mut self.definition
    }

    /// Run `f` on the definition under the definition lock and hand back
    /// its result. The lock must not be poisoned.
    pub fn on_dyn_definition<R, F: FnOnce(&mut C) -> R>(&mut self, f: F) -> (r: R)
        requires
            !old(self).poisoned,
            forall|m: &mut C|
                mut_ref_current(m) == old(self).definition ==> #[trigger] call_requires(f, (m,)),
        ensures
            exists|m: &mut C|
                {
                    &&& mut_ref_current(m) == old(self).definition
                    &&& mut_ref_future(m) == final(self).definition
                    &&& #[trigger] call_ensures(f, (m,), r)
                },
            final(self).lifecycle == old(self).lifecycle,
            final(self).control_queue == old(self).control_queue,
            final(self).mailbox == old(self).mailbox,
            final(self).ports == old(self).ports,
            final(self).skip == old(self).skip,
            final(self).ready == old(self).ready,
            final(self).blocked == old(self).blocked,
            final(self).poisoned == old(self).poisoned,
            final(self).log == old(self).log,
    {
        f(&mut self.definition)
    }

    /// Kill a suspended component: the pending continuation is dropped
    /// and the component is destroyed at once; every queued event is
    /// discarded and nothing further is delivered.
    pub fn kill_blocked(&mut self)
        requires
            old(self).wf(),
        ensures
            final(self).wf(),
            final(self).lifecycle is Destroyed,
            !final(self).blocked,
            !final(self).ready,
            final(self).control_queue@.len() == 0,
            final(self).mailbox@.len() == 0,
            final(self).ports@.len() == 0,
            final(self).log == old(self).log,
            final(self).definition == old(self).definition,
            final(self).poisoned == old(self).poisoned,
    {
        self.blocked = false;
        self.lifecycle = LifecycleState::Destroyed;
        self.control_queue = Vec::new();
        self.mailbox = Vec::new();
        self.ports = Vec::new();
        self.skip = 0;
        self.ready = false;
    }

    /// A handler panic was observed while it held the definition lock:
    /// the lock is poisoned and the component is quarantined.
    pub fn mark_poisoned(&mut self)
        ensures
            final(self).poisoned,
            final(self).definition == old(self).definition,
            final(self).lifecycle == old(self).lifecycle,
            final(self).control_queue == old(self).control_queue,
            final(self).mailbox == old(self).mailbox,
            final(self).ports == old(self).ports,
            final(self).skip == old(self).skip,
            final(self).ready == old(self).ready,
            final(self).blocked == old(self).blocked,
            final(self).log == old(self).log,
    {
        self.poisoned = true;
    }

    /// A handler installed a continuation: dispatch is suspended until it
    /// resolves.
    pub fn set_blocking(&mut self)
        ensures
            *final(self) == (Component { blocked: true, ..*old(self) }),
    {
        self.blocked = true;
    }

    /// The installed continuation resolved: dispatch resumes and the
    /// container is ready again.
    pub fn resolve_blocking(&mut self)
        ensures
            *final(self) == (Component { blocked: false, ready: true, ..*old(self) }),
    {
        self.blocked = false;
        self.ready = true;
    }

    /// Claim the right to schedule this container: the claim succeeds
    /// exactly when the flag was idle, so of any number of concurrent
    /// producers exactly one enqueues the container.
    pub fn try_claim_ready(&mut self) -> (r: bool)
        ensures
            r == !old(self).ready,
            *final(self) == (Component { ready: true, ..*old(self) }),
    {
        let was = self.ready;
        self.ready = true;
        !was
    }
}

/// The object-safe surface of a component container: what a scheduler or
/// a peer may do without knowing the concrete definition type.
pub trait AbstractComponent<M> {
    /// The container invariant, as far as this surface shows it.
    spec fn wf_model(&self) -> bool;

    /// Whether the component has been destroyed.
    spec fn destroyed_model(&self) -> bool;

    /// Whether the definition lock is poisoned.
    spec fn poisoned_model(&self) -> bool;

    /// The pending control events, oldest first.
    spec fn control_model(&self) -> Seq<ControlEvent>;

    /// Append a control event; dropped silently once the component is
    /// destroyed.
    fn enqueue_control(&mut self, event: ControlEvent)
        requires
            old(self).wf_model(),
        ensures
            final(self).wf_model(),
            final(self).destroyed_model() == old(self).destroyed_model(),
            final(self).poisoned_model() == old(self).poisoned_model(),
            old(self).destroyed_model() ==> final(self).control_model() == old(
                self,
            ).control_model(),
            !old(self).destroyed_model() ==> final(self).control_model() == old(
                self,
            ).control_model().push(event),
    ;

    /// Acquire the definition lock; fails exactly when it is poisoned.
    fn lock_dyn_definition(&self) -> (r: Result<(), LockPoisoned>)
        ensures
            r is Ok <==> !self.poisoned_model(),
    ;
}

impl<C: DynamicComponentDefinition<M>, M> AbstractComponent<M> for Component<C, M> {
    open spec fn wf_model(&self) -> bool {
        self.wf()
    }

    open spec fn destroyed_model(&self) -> bool {
        self.lifecycle is Destroyed
    }

    open spec fn poisoned_model(&self) -> bool {
        self.poisoned
    }

    open spec fn control_model(&self) -> Seq<ControlEvent> {
        self.control_queue@
    }

    fn enqueue_control(&mut self, event: ControlEvent) {
        Component::enqueue_control(self, event)
    }

    fn lock_dyn_definition(&self) -> Result<(), LockPoisoned> {
        Component::lock_dyn_definition(self)
    }
}

} // verus!
