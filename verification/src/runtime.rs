//! The runtime: the component registry, port wiring, the ready queue and
//! shutdown.
//!
//! The registry holds the strong handles to all live components. Wiring
//! records which required ports each provided port fans out to; a trigger
//! enqueues the event on every connected peer. The ready queue drives
//! dispatch: each pass executes one container under the configured
//! throughput bound and re-enqueues it if work remains.

use vstd::prelude::*;

use crate::component::{ports_distinct, Component, DispatchError, ExecuteResult, PortQueue};
use crate::definition::{DynamicComponentDefinition, PortId};
use crate::lifecycle::LifecycleState;

verus! {

/// One wiring edge: a provided port fanning out to a required port.
#[derive(Clone, Copy, Debug, PartialEq, Eq, Structural)]
pub struct Wire {
    /// The component providing the port.
    pub provider_component: usize,
    /// The provided port's type.
    pub provider_port: PortId,
    /// The component requiring the port.
    pub requirer_component: usize,
    /// The required port's type.
    pub requirer_port: PortId,
}

/// The peers a trigger on `(cid, port)` fans out to, in wiring order.
pub open spec fn wire_targets(wiring: Seq<Wire>, cid: int, port: PortId) -> Seq<(int, PortId)>
    decreases wiring.len(),
{
    if wiring.len() == 0 {
        Seq::empty()
    } else {
        let rest = wire_targets(wiring.skip(1), cid, port);
        if wiring[0].provider_component == cid && wiring[0].provider_port == port {
            seq![(wiring[0].requirer_component as int, wiring[0].requirer_port)] + rest
        } else {
            rest
        }
    }
}

/// Appending one wire appends its peer, if it matches.
pub proof fn lemma_wire_targets_snoc(wiring: Seq<Wire>, w: Wire, cid: int, port: PortId)
    ensures
        wire_targets(wiring.push(w), cid, port) == if w.provider_component == cid
            && w.provider_port == port {
            wire_targets(wiring, cid, port).push((w.requirer_component as int, w.requirer_port))
        } else {
            wire_targets(wiring, cid, port)
        },
    decreases wiring.len(),
{
    reveal_with_fuel(wire_targets, 3);
    let we = wiring.push(w);
    if wiring.len() == 0 {
        assert(we[0] == w);
        assert(we.skip(1) =~= Seq::<Wire>::empty());
        if w.provider_component == cid && w.provider_port == port {
            assert(wire_targets(we, cid, port) =~= wire_targets(wiring, cid, port).push(
                (w.requirer_component as int, w.requirer_port),
            ));
        }
    } else {
        assert(we[0] == wiring[0]);
        assert(we.skip(1) =~= wiring.skip(1).push(w));
        lemma_wire_targets_snoc(wiring.skip(1), w, cid, port);
        if w.provider_component == cid && w.provider_port == port {
            assert(wire_targets(we, cid, port) =~= wire_targets(wiring, cid, port).push(
                (w.requirer_component as int, w.requirer_port),
            ));
        }
    }
}

/// Triggering distributes over a split of the wiring list.
pub proof fn lemma_wire_targets_app(a: Seq<Wire>, b: Seq<Wire>, cid: int, port: PortId)
    ensures
        wire_targets(a + b, cid, port) == wire_targets(a, cid, port) + wire_targets(b, cid, port),
    decreases a.len(),
{
    reveal_with_fuel(wire_targets, 3);
    if a.len() == 0 {
        assert(a + b =~= b);
        assert(wire_targets(a, cid, port) + wire_targets(b, cid, port) =~= wire_targets(
            b,
            cid,
            port,
        ));
    } else {
        assert((a + b)[0] == a[0]);
        assert((a + b).skip(1) =~= a.skip(1) + b);
        lemma_wire_targets_app(a.skip(1), b, cid, port);
        if a[0].provider_component == cid && a[0].provider_port == port {
            assert(wire_targets(a + b, cid, port) =~= wire_targets(a, cid, port) + wire_targets(
                b,
                cid,
                port,
            ));
        }
    }
}

/// Every peer of a trigger comes from one wire: the matching wire's
/// requirer pair stands at its position in the peer list.
pub proof fn lemma_wire_targets_member(wiring: Seq<Wire>, cid: int, port: PortId)
    ensures
        forall|t: int|
            0 <= t < wire_targets(wiring, cid, port).len() ==> exists|k: int|
                {
                    &&& 0 <= k < wiring.len()
                    &&& ((#[trigger] wiring[k]).provider_component as int) == cid
                    &&& wiring[k].provider_port == port
                    &&& (wiring[k].requirer_component as int) == (#[trigger] wire_targets(
                        wiring,
                        cid,
                        port,
                    )[t]).0
                    &&& wiring[k].requirer_port == wire_targets(wiring, cid, port)[t].1
                },
    decreases wiring.len(),
{
    if wiring.len() > 0 {
        let rest = wiring.skip(1);
        lemma_wire_targets_member(rest, cid, port);
        let ts = wire_targets(wiring, cid, port);
        let rts = wire_targets(rest, cid, port);
        assert forall|t: int| 0 <= t < ts.len() implies exists|k: int|
            {
                &&& 0 <= k < wiring.len()
                &&& ((#[trigger] wiring[k]).provider_component as int) == cid
                &&& wiring[k].provider_port == port
                &&& (wiring[k].requirer_component as int) == (#[trigger] ts[t]).0
                &&& wiring[k].requirer_port == ts[t].1
            } by {
            if wiring[0].provider_component == cid && wiring[0].provider_port == port {
                if t == 0 {
                    assert(ts[0] == (wiring[0].requirer_component as int, wiring[0].requirer_port));
                    assert(wiring[0].provider_component as int == cid && wiring[0].provider_port
                        == port && wiring[0].requirer_component as int == ts[t].0
                        && wiring[0].requirer_port == ts[t].1);
                } else {
                    assert(ts[t] == rts[t - 1]);
                    let k = choose|k: int|
                        {
                            &&& 0 <= k < rest.len()
                            &&& ((#[trigger] rest[k]).provider_component as int) == cid
                            &&& rest[k].provider_port == port
                            &&& (rest[k].requirer_component as int) == rts[t - 1].0
                            &&& rest[k].requirer_port == rts[t - 1].1
                        };
                    assert(wiring[k + 1] == rest[k]);
                }
            } else {
                assert(ts[t] == rts[t]);
                let k = choose|k: int|
                    {
                        &&& 0 <= k < rest.len()
                        &&& ((#[trigger] rest[k]).provider_component as int) == cid
                        &&& rest[k].provider_port == port
                        &&& (rest[k].requirer_component as int) == rts[t].0
                        &&& rest[k].requirer_port == rts[t].1
                    };
                assert(wiring[k + 1] == rest[k]);
            }
        }
    }
}

/// Distinct wires never repeat a peer: the peer list of a trigger over a
/// duplicate-free wiring is itself duplicate-free.
pub proof fn lemma_wire_targets_distinct(wiring: Seq<Wire>, cid: int, port: PortId)
    requires
        forall|i: int, j: int|
            #![trigger wiring[i], wiring[j]]
            0 <= i < j < wiring.len() ==> wiring[i] != wiring[j],
    ensures
        targets_distinct(wire_targets(wiring, cid, port)),
    decreases wiring.len(),
{
    if wiring.len() > 0 {
        let rest = wiring.skip(1);
        assert forall|i: int, j: int|
            #![trigger rest[i], rest[j]]
            0 <= i < j < rest.len() implies rest[i] != rest[j] by {
            assert(rest[i] == wiring[i + 1]);
            assert(rest[j] == wiring[j + 1]);
        }
        lemma_wire_targets_distinct(rest, cid, port);
        let ts = wire_targets(wiring, cid, port);
        let rts = wire_targets(rest, cid, port);
        if wiring[0].provider_component == cid && wiring[0].provider_port == port {
            let peer0 = (wiring[0].requirer_component as int, wiring[0].requirer_port);
            lemma_wire_targets_member(rest, cid, port);
            assert forall|b: int| 0 <= b < rts.len() implies rts[b] != peer0 by {
                if rts[b] == peer0 {
                    let k = choose|k: int|
                        {
                            &&& 0 <= k < rest.len()
                            &&& ((#[trigger] rest[k]).provider_component as int) == cid
                            &&& rest[k].provider_port == port
                            &&& (rest[k].requirer_component as int) == rts[b].0
                            &&& rest[k].requirer_port == rts[b].1
                        };
                    assert(rest[k] == wiring[0]);
                    assert(wiring[k + 1] == wiring[0]);
                    assert(false);
                }
            }
            assert forall|a: int, b: int| 0 <= a < b < ts.len() implies ts[a] != ts[b] by {
                if a == 0 {
                    assert(ts[0] == peer0);
                    assert(ts[b] == rts[b - 1]);
                } else {
                    assert(ts[a] == rts[a - 1]);
                    assert(ts[b] == rts[b - 1]);
                }
            }
        }
    }
}

/// The number of events pending across a list of port queues.
pub open spec fn port_load<M>(ports: Seq<PortQueue<M>>) -> nat
    decreases ports.len(),
{
    if ports.len() == 0 {
        0
    } else {
        ports[0].events@.len() + port_load(ports.skip(1))
    }
}

/// Replacing one queue changes the load by the difference of that queue.
pub proof fn lemma_port_load_update<M>(ports: Seq<PortQueue<M>>, i: int, q: PortQueue<M>)
    requires
        0 <= i < ports.len(),
    ensures
        port_load(ports.update(i, q)) + ports[i].events@.len() == port_load(ports)
            + q.events@.len(),
    decreases ports.len(),
{
    let up = ports.update(i, q);
    if i == 0 {
        assert(up.skip(1) =~= ports.skip(1));
    } else {
        assert(up[0] == ports[0]);
        assert(up.skip(1) =~= ports.skip(1).update(i - 1, q));
        lemma_port_load_update(ports.skip(1), i - 1, q);
    }
}

/// The number of port events pending across the whole registry.
pub open spec fn registry_load<C, M>(cs: Seq<Component<C, M>>) -> nat
    decreases cs.len(),
{
    if cs.len() == 0 {
        0
    } else {
        port_load(cs[0].ports@) + registry_load(cs.skip(1))
    }
}

/// Replacing one component changes the registry load by the difference of
/// its port load.
pub proof fn lemma_registry_load_update<C, M>(cs: Seq<Component<C, M>>, i: int, c: Component<C, M>)
    requires
        0 <= i < cs.len(),
    ensures
        registry_load(cs.update(i, c)) + port_load(cs[i].ports@) == registry_load(cs) + port_load(
            c.ports@,
        ),
    decreases cs.len(),
{
    let up = cs.update(i, c);
    if i == 0 {
        assert(up.skip(1) =~= cs.skip(1));
    } else {
        assert(up[0] == cs[0]);
        assert(up.skip(1) =~= cs.skip(1).update(i - 1, c));
        lemma_registry_load_update(cs.skip(1), i - 1, c);
    }
}

/// Whether no two entries of a peer list coincide.
pub open spec fn targets_distinct(ts: Seq<(int, PortId)>) -> bool {
    forall|a: int, b: int| 0 <= a < b < ts.len() ==> ts[a] != ts[b]
}

/// Whether a component is past its wiring phase: ports must be wired
/// before `Start` is observed, and a destroyed component is never wired.
pub open spec fn past_wiring<C, M>(c: Component<C, M>) -> bool {
    c.lifecycle is Active || c.lifecycle is Destroyed
}

/// The runtime: its registry of strong component handles, the wiring
/// between their ports, the ready queue and the throughput bound.
pub struct Runtime<C, M> {
    /// The strong handles the runtime holds, indexed by component id.
    pub components: Vec<Component<C, M>>,
    /// Every wiring edge established so far.
    pub wiring: Vec<Wire>,
    /// Component ids awaiting dispatch, oldest first.
    pub ready_queue: Vec<usize>,
    /// The upper bound on ordinary events per dispatch pass.
    pub throughput: usize,
    /// Whether shutdown has been initiated.
    pub shutdown_started: bool,
}

impl<C: DynamicComponentDefinition<M>, M> Runtime<C, M> {
    /// Every container is well-formed, and every queue entry and wiring
    /// endpoint names a registered component.
    pub open spec fn wf(self) -> bool {
        &&& forall|i: int| 0 <= i < self.components@.len() ==> (#[trigger] self.components@[i]).wf()
        &&& forall|i: int|
            0 <= i < self.ready_queue@.len() ==> (((#[trigger] self.ready_queue@[i]) as int)
                < self.components@.len()
                && self.components@[self.ready_queue@[i] as int].ready)
        &&& forall|i: int, j: int|
            0 <= i < j < self.ready_queue@.len() ==> self.ready_queue@[i] != self.ready_queue@[j]
        &&& forall|i: int|
            0 <= i < self.wiring@.len() ==> (((#[trigger] self.wiring@[i]).provider_component as int)
                < self.components@.len() && ((self.wiring@[i].requirer_component as int)
                < self.components@.len()))
        &&& forall|i: int, j: int|
            #![trigger self.wiring@[i], self.wiring@[j]]
            0 <= i < j < self.wiring@.len() ==> self.wiring@[i] != self.wiring@[j]
        &&& self.throughput >= 1
    }

    /// A fresh runtime with the configured throughput bound and nothing
    /// registered.
    pub fn new(throughput: usize) -> (r: Runtime<C, M>)
        requires
            throughput >= 1,
        ensures
            r.wf(),
            r.components@.len() == 0,
            r.wiring@.len() == 0,
            r.ready_queue@.len() == 0,
            r.throughput == throughput,
            !r.shutdown_started,
    {
        Runtime {
            components: Vec::new(),
            wiring: Vec::new(),
            ready_queue: Vec::new(),
            throughput,
            shutdown_started: false,
        }
    }

    /// Register a component built from `definition`, with one event queue
    /// per entry of `port_ids`, and return its id. Creation runs setup to
    /// completion, so the new component is stopped-but-alive, ready for
    /// `Start`.
    pub fn create(&mut self, definition: C, port_ids: Vec<PortId>) -> (cid: usize)
        requires
            old(self).wf(),
        ensures
            final(self).wf(),
            cid as int == old(self).components@.len(),
            final(self).components@.len() == old(self).components@.len() + 1,
            forall|i: int|
                0 <= i < old(self).components@.len() ==> final(self).components@[i] == old(self).components@[i],
            final(self).components@[cid as int].lifecycle == LifecycleState::Passive,
            final(self).components@[cid as int].definition == definition,
            final(self).components@[cid as int].ports@.len() == port_ids@.len(),
            forall|i: int|
                0 <= i < port_ids@.len()
                    ==> final(self).components@[cid as int].ports@[i].id == #[trigger] port_ids@[i]
                    && final(self).components@[cid as int].ports@[i].events@.len() == 0,
            final(self).wiring == old(self).wiring,
            final(self).ready_queue == old(self).ready_queue,
            final(self).throughput == old(self).throughput,
            final(self).shutdown_started == old(self).shutdown_started,
    {
        let cid = self.components.len();
        let mut c = Component::new(definition, port_ids);
        c.complete_setup();
        self.components.push(c);
        proof {
            assert(forall|i: int|
                0 <= i < old(self).components@.len() ==> self.components@[i] == old(
                    self,
                ).components@[i]);
            assert(self.components@[cid as int].ports@.len() == port_ids@.len());
        }
        cid
    }

    /// Wire the provided port `(pc, pp)` to the required port `(rc, rp)`.
    /// Wiring must happen before either side observes `Start`: afterwards
    /// it fails with `WiredTooLate`. It fails with `PortMissing` exactly
    /// when either side does not have the named port; wiring the same
    /// pair again is a no-op.
    pub fn connect(&mut self, pc: usize, pp: PortId, rc: usize, rp: PortId) -> (r: Result<
        (),
        DispatchError,
    >)
        requires
            old(self).wf(),
            pc < old(self).components@.len(),
            rc < old(self).components@.len(),
        ensures
            final(self).wf(),
            final(self).components == old(self).components,
            final(self).ready_queue == old(self).ready_queue,
            final(self).throughput == old(self).throughput,
            final(self).shutdown_started == old(self).shutdown_started,
            r is Ok <==> (!past_wiring(old(self).components@[pc as int]) && !past_wiring(
                old(self).components@[rc as int],
            ) && old(self).components@[pc as int].definition.provided_ids().contains(pp) && old(
                self,
            ).components@[rc as int].definition.required_ids().contains(rp)),
            (past_wiring(old(self).components@[pc as int]) || past_wiring(
                old(self).components@[rc as int],
            )) ==> r == Err::<(), DispatchError>(DispatchError::WiredTooLate),
            (!past_wiring(old(self).components@[pc as int]) && !past_wiring(
                old(self).components@[rc as int],
            ) && r is Err) ==> r == Err::<(), DispatchError>(DispatchError::PortMissing),
            r is Err ==> final(self).wiring == old(self).wiring,
            r is Ok ==> {
                let w = Wire {
                    provider_component: pc,
                    provider_port: pp,
                    requirer_component: rc,
                    requirer_port: rp,
                };
                if old(self).wiring@.contains(w) {
                    final(self).wiring == old(self).wiring
                } else {
                    final(self).wiring@ == old(self).wiring@.push(w)
                }
            },
    {
        let past_pc = matches!(self.components[pc].lifecycle, LifecycleState::Active) || matches!(
            self.components[pc].lifecycle,
            LifecycleState::Destroyed,
        );
        let past_rc = matches!(self.components[rc].lifecycle, LifecycleState::Active) || matches!(
            self.components[rc].lifecycle,
            LifecycleState::Destroyed,
        );
        if past_pc || past_rc {
            return Err(DispatchError::WiredTooLate);
        }
        let provided = self.components[pc].definition.find_provided_port(pp);
        let required = self.components[rc].definition.find_required_port(rp);
        if provided.is_none() || required.is_none() {
            return Err(DispatchError::PortMissing);
        }
        let w = Wire { provider_component: pc, provider_port: pp, requirer_component: rc, requirer_port: rp };
        let n = self.wiring.len();
        let mut i: usize = 0;
        while i < n
            invariant
                i <= n,
                n == self.wiring@.len(),
                forall|j: int| 0 <= j < i ==> self.wiring@[j] != w,
                *self == *old(self),
                pc < old(self).components@.len(),
                rc < old(self).components@.len(),
                old(self).components@[pc as int].definition.provided_ids().contains(pp),
                old(self).components@[rc as int].definition.required_ids().contains(rp),
                !past_wiring(old(self).components@[pc as int]),
                !past_wiring(old(self).components@[rc as int]),
                old(self).wf(),
                w == (Wire {
                    provider_component: pc,
                    provider_port: pp,
                    requirer_component: rc,
                    requirer_port: rp,
                }),
            decreases n - i,
        {
            if self.wiring[i] == w {
                return Ok(());
            }
            i += 1;
        }
        self.wiring.push(w);
        Ok(())
    }

    /// Deliver a mailbox message to component `cid`; fails with `Shutdown`
    /// once shutdown has been initiated, and is dropped silently if the
    /// target has been destroyed.
    pub fn tell(&mut self, cid: usize, msg: M) -> (r: Result<(), DispatchError>)
        requires
            old(self).wf(),
            cid < old(self).components@.len(),
        ensures
            final(self).wf(),
            final(self).wiring == old(self).wiring,
            final(self).ready_queue == old(self).ready_queue,
            final(self).throughput == old(self).throughput,
            final(self).shutdown_started == old(self).shutdown_started,
            r is Err <==> old(self).shutdown_started,
            r is Err ==> r == Err::<(), DispatchError>(DispatchError::Shutdown) && final(self).components == old(self).components,
            r is Ok ==> {
                &&& final(self).components@.len() == old(self).components@.len()
                &&& forall|i: int|
                    0 <= i < old(self).components@.len() && i != cid as int ==> final(self).components@[i] == old(self).components@[i]
                &&& (old(self).components@[cid as int].lifecycle is Destroyed ==> final(self).components@[cid as int] == old(self).components@[cid as int])
                &&& (!(old(self).components@[cid as int].lifecycle is Destroyed) ==> final(self).components@[cid as int].mailbox@ == old(self).components@[cid as int].mailbox@.push(msg) && final(self).components@[cid as int].ready)
            },
    {
        if self.shutdown_started {
            return Err(DispatchError::Shutdown);
        }
        let c = &mut self.components[cid];
        c.enqueue_message(msg);
        Ok(())
    }

    /// Initiate shutdown: pending dispatch is abandoned, every component's
    /// lifecycle is advanced to destroyed, and the runtime lets go of all
    /// its strong handles, so components held only by the runtime are
    /// freed.
    pub fn shutdown(&mut self)
        requires
            old(self).wf(),
        ensures
            final(self).wf(),
            final(self).shutdown_started,
            final(self).components@.len() == 0,
            final(self).ready_queue@.len() == 0,
            final(self).wiring@.len() == 0,
            final(self).throughput == old(self).throughput,
    {
        self.shutdown_started = true;
        self.ready_queue = Vec::new();
        self.wiring = Vec::new();
        self.components = Vec::new();
    }

    /// Put `cid` in line for dispatch. The ready flag is the claim: of
    /// any number of concurrent producers, exactly the one that flips it
    /// enqueues the container, so an already-queued container is never
    /// enqueued twice.
    pub fn schedule(&mut self, cid: usize) -> (r: bool)
        requires
            old(self).wf(),
            cid < old(self).components@.len(),
        ensures
            final(self).wf(),
            final(self).wiring == old(self).wiring,
            final(self).throughput == old(self).throughput,
            final(self).shutdown_started == old(self).shutdown_started,
            r == !old(self).components@[cid as int].ready,
            final(self).components@.len() == old(self).components@.len(),
            forall|c: int|
                0 <= c < old(self).components@.len() && c != cid as int ==> final(self).components@[c] == old(self).components@[c],
            final(self).components@[cid as int] == (Component {
                ready: true,
                ..old(self).components@[cid as int]
            }),
            r ==> final(self).ready_queue@ == old(self).ready_queue@.push(cid),
            !r ==> final(self).ready_queue == old(self).ready_queue,
    {
        let c = &mut self.components[cid];
        let claimed = c.try_claim_ready();
        if claimed {
            self.ready_queue.push(cid);
        }
        claimed
    }

    /// One scheduler step: take the next ready container, run one
    /// dispatch pass under the configured throughput bound, and re-enqueue
    /// the container exactly when work remains. A poisoned container is
    /// quarantined: it leaves the queue without being dispatched.
    pub fn dispatch_once(&mut self) -> (r: Option<(usize, ExecuteResult)>)
        requires
            old(self).wf(),
        ensures
            final(self).wf(),
            final(self).wiring == old(self).wiring,
            final(self).throughput == old(self).throughput,
            final(self).shutdown_started == old(self).shutdown_started,
            old(self).ready_queue@.len() == 0 ==> r is None && final(self).components == old(self).components && final(self).ready_queue == old(self).ready_queue,
            old(self).ready_queue@.len() > 0 ==> {
                let cid = old(self).ready_queue@[0] as int;
                &&& (old(self).components@[cid].poisoned ==> r is None && final(self).ready_queue@ == old(self).ready_queue@.skip(1) && final(self).components == old(self).components)
                &&& (!old(self).components@[cid].poisoned ==> {
                    &&& r matches Some(p)
                    &&& p.0 as int == cid
                    &&& Component::<C, M>::execute_post(
                        old(self).components@[cid],
                        final(self).components@[cid],
                        p.1,
                        old(self).throughput as int,
                    )
                    &&& final(self).components@.len() == old(self).components@.len()
                    &&& (forall|c: int|
                        0 <= c < old(self).components@.len() && c != cid ==> final(self).components@[c] == old(self).components@[c])
                    &&& (p.1.still_ready ==> final(self).ready_queue@ == old(self).ready_queue@.skip(1).push(old(self).ready_queue@[0]))
                    &&& (!p.1.still_ready ==> final(self).ready_queue@ == old(self).ready_queue@.skip(1))
                })
            },
    {
        let t = self.throughput;
        if self.ready_queue.len() == 0 {
            return None;
        }
        let cid = self.ready_queue.remove(0);
        proof {
            assert(self.ready_queue@ =~= old(self).ready_queue@.skip(1));
        }
        let poisoned = self.components[cid].poisoned;
        if poisoned {
            return None;
        }
        let c = &mut self.components[cid];
        let res = c.execute(t);
        proof {
            assert(self.components@ =~= old(self).components@.update(
                cid as int,
                self.components@[cid as int],
            ));
        }
        if res.still_ready {
            self.ready_queue.push(cid);
        }
        Some((cid, res))
    }

    /// A fan-out can be pinned down peer by peer: every peer is alive
    /// with a queue for its wired port, no peer is wired twice, and no
    /// peer component has two queues of one port type.
    pub open spec fn fanout_ready(cs: Seq<Component<C, M>>, ts: Seq<(int, PortId)>) -> bool {
        &&& Self::targets_deliverable(cs, ts)
        &&& targets_distinct(ts)
        &&& forall|t: int|
            0 <= t < ts.len() ==> ports_distinct((#[trigger] cs[ts[t].0]).ports@)
    }

    /// The peer `(peer.0, peer.1)` received exactly `event`, appended at
    /// the back of its queue for that port.
    pub open spec fn delivered_to(
        pre: Seq<Component<C, M>>,
        post: Seq<Component<C, M>>,
        peer: (int, PortId),
        event: M,
    ) -> bool {
        exists|q: int|
            {
                &&& 0 <= q < pre[peer.0].ports@.len()
                &&& (#[trigger] pre[peer.0].ports@[q]).id == peer.1
                &&& post[peer.0].ports@[q].events@ == pre[peer.0].ports@[q].events@.push(event)
            }
    }

    /// Every port queue not named by a peer of `ts` is left alone.
    pub open spec fn queues_untouched_except(
        pre: Seq<Component<C, M>>,
        post: Seq<Component<C, M>>,
        ts: Seq<(int, PortId)>,
    ) -> bool {
        forall|c: int, q: int|
            #![trigger post[c].ports@[q], pre[c].ports@[q]]
            (0 <= c < pre.len() && 0 <= q < pre[c].ports@.len() && !(exists|t: int|
                0 <= t < ts.len() && #[trigger] ts[t] == (c, pre[c].ports@[q].id)))
                ==> post[c].ports@[q].events@ == pre[c].ports@[q].events@
    }

    /// Every listed peer is alive and has a queue for the wired port, so
    /// a trigger reaches all of them.
    pub open spec fn targets_deliverable(cs: Seq<Component<C, M>>, ts: Seq<(int, PortId)>) -> bool {
        forall|t: int|
            0 <= t < ts.len() ==> {
                &&& 0 <= ts[t].0 < cs.len()
                &&& !((#[trigger] cs[ts[t].0]).lifecycle is Destroyed)
                &&& exists|q: int|
                    0 <= q < cs[ts[t].0].ports@.len() && (#[trigger] cs[ts[t].0].ports@[q]).id
                        == ts[t].1
            }
    }

    /// What a delivery leaves alone on every component: everything except
    /// its port queues and its ready flag.
    pub open spec fn deliver_frame(pre: Component<C, M>, post: Component<C, M>) -> bool {
        &&& post.definition == pre.definition
        &&& post.lifecycle == pre.lifecycle
        &&& post.control_queue == pre.control_queue
        &&& post.mailbox == pre.mailbox
        &&& post.skip == pre.skip
        &&& post.blocked == pre.blocked
        &&& post.poisoned == pre.poisoned
        &&& post.log == pre.log
        &&& post.ports@.len() == pre.ports@.len()
        &&& forall|q: int|
            0 <= q < pre.ports@.len() ==> (#[trigger] post.ports@[q]).id == pre.ports@[q].id
    }

    /// Enqueue one triggered event on the peer `(tc, tp)`: one more event
    /// is pending afterwards when the peer is alive and has the queue;
    /// nothing changes when it does not.
    fn deliver_one(&mut self, tc: usize, tp: PortId, event: M)
        requires
            old(self).wf(),
            tc < old(self).components@.len(),
        ensures
            final(self).wf(),
            final(self).wiring == old(self).wiring,
            final(self).ready_queue == old(self).ready_queue,
            final(self).throughput == old(self).throughput,
            final(self).shutdown_started == old(self).shutdown_started,
            final(self).components@.len() == old(self).components@.len(),
            forall|c: int|
                0 <= c < old(self).components@.len() && c != tc as int ==> final(self).components@[c] == old(self).components@[c],
            Self::deliver_frame(
                old(self).components@[tc as int],
                final(self).components@[tc as int],
            ),
            (!(old(self).components@[tc as int].lifecycle is Destroyed) && (exists|q: int|
                0 <= q < old(self).components@[tc as int].ports@.len() && (#[trigger] old(self).components@[tc as int].ports@[q]).id == tp)) ==> registry_load(
                final(self).components@,
            ) == registry_load(old(self).components@) + 1 && final(self).components@[tc as int].ready
                && (exists|q: int|
                {
                    &&& 0 <= q < old(self).components@[tc as int].ports@.len()
                    &&& (#[trigger] old(self).components@[tc as int].ports@[q]).id == tp
                    &&& final(self).components@[tc as int].ports@[q].events@ == old(
                        self,
                    ).components@[tc as int].ports@[q].events@.push(event)
                    &&& forall|j: int|
                        0 <= j < old(self).components@[tc as int].ports@.len() && j != q
                            ==> final(self).components@[tc as int].ports@[j] == old(
                            self,
                        ).components@[tc as int].ports@[j]
                }),
            (old(self).components@[tc as int].lifecycle is Destroyed || !(exists|q: int|
                0 <= q < old(self).components@[tc as int].ports@.len() && (#[trigger] old(self).components@[tc as int].ports@[q]).id == tp)) ==> final(self).components@ == old(self).components@,
    {
        let c = &mut self.components[tc];
        let _ = c.enqueue_port(tp, event);
        proof {
            let pre_c = old(self).components@[tc as int];
            let post_c = self.components@[tc as int];
            assert(self.components@ =~= old(self).components@.update(tc as int, post_c));
            lemma_registry_load_update(old(self).components@, tc as int, post_c);
            if !(pre_c.lifecycle is Destroyed) && (exists|q: int|
                0 <= q < pre_c.ports@.len() && (#[trigger] pre_c.ports@[q]).id == tp) {
                let i = choose|i: int|
                    {
                        &&& 0 <= i < pre_c.ports@.len()
                        &&& pre_c.ports@[i].id == tp
                        &&& post_c.ports@[i].id == tp
                        &&& post_c.ports@[i].events@ == pre_c.ports@[i].events@.push(event)
                        &&& forall|j: int|
                            0 <= j < pre_c.ports@.len() && j != i ==> post_c.ports@[j]
                                == pre_c.ports@[j]
                    };
                assert(post_c.ports@ =~= pre_c.ports@.update(i, post_c.ports@[i]));
                lemma_port_load_update(pre_c.ports@, i, post_c.ports@[i]);
            } else {
                assert(post_c == pre_c);
                assert(self.components@ =~= old(self).components@);
            }
        }
    }
}

impl<C: DynamicComponentDefinition<M>, M: Copy> Runtime<C, M> {
    /// On a well-formed runtime no wire is recorded twice, so the peer
    /// list of a trigger never repeats a peer.
    pub proof fn lemma_targets_distinct_of_wf(self, cid: int, port: PortId)
        requires
            self.wf(),
        ensures
            targets_distinct(wire_targets(self.wiring@, cid, port)),
    {
        lemma_wire_targets_distinct(self.wiring@, cid, port);
    }

    /// Trigger an event on the provided port `(cid, port)`: the event is
    /// enqueued on every connected peer — when every peer is alive with
    /// its queue set up and no peer component doubles a port type,
    /// exactly one delivery lands at the back of each wired peer's queue
    /// and every other queue is left alone — and the count of peers is
    /// returned. Fails with `Shutdown` once shutdown has begun and with
    /// `PortMissing` when the component does not provide the port.
    pub fn trigger(&mut self, cid: usize, port: PortId, event: M) -> (r: Result<
        usize,
        DispatchError,
    >)
        requires
            old(self).wf(),
            cid < old(self).components@.len(),
        ensures
            final(self).wf(),
            final(self).wiring == old(self).wiring,
            final(self).ready_queue == old(self).ready_queue,
            final(self).throughput == old(self).throughput,
            final(self).shutdown_started == old(self).shutdown_started,
            old(self).shutdown_started ==> r == Err::<usize, DispatchError>(
                DispatchError::Shutdown,
            ) && final(self).components == old(self).components,
            !old(self).shutdown_started && !old(self).components@[cid as int].definition.provided_ids().contains(port) ==> r == Err::<
                usize,
                DispatchError,
            >(DispatchError::PortMissing) && final(self).components == old(self).components,
            !old(self).shutdown_started && old(self).components@[cid as int].definition.provided_ids().contains(port) ==> {
                let ts = wire_targets(old(self).wiring@, cid as int, port);
                &&& r == Ok::<usize, DispatchError>(ts.len() as usize)
                &&& final(self).components@.len() == old(self).components@.len()
                &&& forall|c: int|
                    0 <= c < old(self).components@.len() ==> Self::deliver_frame(
                        old(self).components@[c],
                        #[trigger] final(self).components@[c],
                    )
                &&& (Self::targets_deliverable(old(self).components@, ts) ==> registry_load(
                    final(self).components@,
                ) == registry_load(old(self).components@) + ts.len())
                &&& (Self::fanout_ready(old(self).components@, ts) ==> {
                    &&& (forall|t: int|
                        0 <= t < ts.len() ==> Self::delivered_to(
                            old(self).components@,
                            final(self).components@,
                            #[trigger] ts[t],
                            event,
                        ))
                    &&& Self::queues_untouched_except(
                        old(self).components@,
                        final(self).components@,
                        ts,
                    )
                })
            },
    {
        if self.shutdown_started {
            return Err(DispatchError::Shutdown);
        }
        let has_port = self.components[cid].definition.find_provided_port(port);
        if has_port.is_none() {
            return Err(DispatchError::PortMissing);
        }
        let ghost ts = wire_targets(old(self).wiring@, cid as int, port);
        let nw = self.wiring.len();
        let mut n: usize = 0;
        let mut i: usize = 0;
        while i < nw
            invariant
                old(self).wf(),
                i <= nw,
                n <= i,
                nw == self.wiring@.len(),
                self.wiring == old(self).wiring,
                self.ready_queue == old(self).ready_queue,
                self.throughput == old(self).throughput,
                self.shutdown_started == old(self).shutdown_started,
                self.wf(),
                ts == wire_targets(old(self).wiring@, cid as int, port),
                n as int == wire_targets(
                    old(self).wiring@.take(i as int),
                    cid as int,
                    port,
                ).len(),
                self.components@.len() == old(self).components@.len(),
                forall|c: int|
                    0 <= c < old(self).components@.len() ==> Self::deliver_frame(
                        old(self).components@[c],
                        #[trigger] self.components@[c],
                    ),
                Self::targets_deliverable(old(self).components@, ts) ==> registry_load(
                    self.components@,
                ) == registry_load(old(self).components@) + n,
                Self::fanout_ready(old(self).components@, ts) ==> {
                    &&& (forall|t: int|
                        0 <= t < n ==> Self::delivered_to(
                            old(self).components@,
                            self.components@,
                            #[trigger] ts[t],
                            event,
                        ))
                    &&& Self::queues_untouched_except(
                        old(self).components@,
                        self.components@,
                        ts.take(n as int),
                    )
                },
            decreases nw - i,
        {
            let w = self.wiring[i];
            proof {
                lemma_wire_targets_app(
                    old(self).wiring@.take(i as int),
                    old(self).wiring@.skip(i as int),
                    cid as int,
                    port,
                );
                assert(old(self).wiring@.take(i as int) + old(self).wiring@.skip(i as int)
                    =~= old(self).wiring@);
                assert(old(self).wiring@.skip(i as int)[0] == w);
                lemma_wire_targets_snoc(old(self).wiring@.take(i as int), w, cid as int, port);
                assert(old(self).wiring@.take(i as int).push(w) =~= old(self).wiring@.take(
                    i as int + 1,
                ));
            }
            if w.provider_component == cid && w.provider_port == port {
                let ghost pre_loop = self.components@;
                let tc = w.requirer_component;
                let tp = w.requirer_port;
                proof {
                    let rest = old(self).wiring@.skip(i as int);
                    assert(wire_targets(rest, cid as int, port) == seq![
                        (w.requirer_component as int, w.requirer_port),
                    ] + wire_targets(rest.skip(1), cid as int, port));
                    assert(ts == wire_targets(old(self).wiring@.take(i as int), cid as int, port)
                        + wire_targets(rest, cid as int, port));
                    assert(ts[n as int] == (tc as int, tp));
                    assert(0 <= (n as int) && (n as int) < ts.len());
                    if Self::targets_deliverable(old(self).components@, ts) {
                        assert(!((old(self).components@[ts[n as int].0]).lifecycle is Destroyed));
                        assert(exists|q: int|
                            0 <= q < old(self).components@[ts[n as int].0].ports@.len() && (
                            #[trigger] old(self).components@[ts[n as int].0].ports@[q]).id == ts[n as int].1);
                        let q = choose|q: int|
                            0 <= q < old(self).components@[tc as int].ports@.len() && (#[trigger] old(self).components@[tc as int].ports@[q]).id == tp;
                        assert(Self::deliver_frame(
                            old(self).components@[tc as int],
                            self.components@[tc as int],
                        ));
                        assert(pre_loop[tc as int].ports@[q].id == tp);
                        assert(!(pre_loop[tc as int].lifecycle is Destroyed));
                        assert(exists|q2: int|
                            0 <= q2 < pre_loop[tc as int].ports@.len() && (
                            #[trigger] pre_loop[tc as int].ports@[q2]).id == tp);
                    }
                }
                self.deliver_one(tc, tp, event);
                proof {
                    assert forall|c: int|
                        0 <= c < old(self).components@.len() implies Self::deliver_frame(
                        old(self).components@[c],
                        #[trigger] self.components@[c],
                    ) by {
                        assert(Self::deliver_frame(old(self).components@[c], pre_loop[c]));
                        if c == tc as int {
                            assert(Self::deliver_frame(pre_loop[c], self.components@[c]));
                        } else {
                            assert(self.components@[c] == pre_loop[c]);
                        }
                    }
                    if Self::targets_deliverable(old(self).components@, ts) {
                        assert(registry_load(self.components@) == registry_load(pre_loop) + 1);
                    }
                    if Self::fanout_ready(old(self).components@, ts) {
                        let tcn = tc as int;
                        let q = choose|q: int|
                            {
                                &&& 0 <= q < pre_loop[tcn].ports@.len()
                                &&& (#[trigger] pre_loop[tcn].ports@[q]).id == tp
                                &&& self.components@[tcn].ports@[q].events@
                                    == pre_loop[tcn].ports@[q].events@.push(event)
                                &&& forall|j: int|
                                    0 <= j < pre_loop[tcn].ports@.len() && j != q
                                        ==> self.components@[tcn].ports@[j] == pre_loop[tcn].ports@[j]
                            };
                        assert(old(self).components@[tcn].ports@[q].id == tp);
                        // no earlier peer named this queue: that would be a
                        // duplicate of this peer
                        assert forall|t: int| 0 <= t < n implies #[trigger] ts.take(n as int)[t]
                            != (tcn, old(self).components@[tcn].ports@[q].id) by {
                            assert(ts.take(n as int)[t] == ts[t]);
                            assert(ts[t] != ts[n as int]);
                        }
                        assert(pre_loop[tcn].ports@[q].events@ == old(
                            self,
                        ).components@[tcn].ports@[q].events@);
                        assert forall|t: int|
                            0 <= t < n + 1 implies Self::delivered_to(
                            old(self).components@,
                            self.components@,
                            #[trigger] ts[t],
                            event,
                        ) by {
                            if t < n {
                                let qt = choose|qt: int|
                                    {
                                        &&& 0 <= qt < old(self).components@[ts[t].0].ports@.len()
                                        &&& (#[trigger] old(
                                            self,
                                        ).components@[ts[t].0].ports@[qt]).id == ts[t].1
                                        &&& pre_loop[ts[t].0].ports@[qt].events@ == old(
                                            self,
                                        ).components@[ts[t].0].ports@[qt].events@.push(event)
                                    };
                                if ts[t].0 == tcn {
                                    assert(ts[t] != ts[n as int]);
                                    assert(ts[t].1 != tp);
                                    assert(pre_loop[tcn].ports@[qt].id == old(
                                        self,
                                    ).components@[tcn].ports@[qt].id);
                                    assert(qt != q);
                                    assert(self.components@[tcn].ports@[qt]
                                        == pre_loop[tcn].ports@[qt]);
                                } else {
                                    assert(self.components@[ts[t].0] == pre_loop[ts[t].0]);
                                }
                                assert(self.components@[ts[t].0].ports@[qt].events@ == old(
                                    self,
                                ).components@[ts[t].0].ports@[qt].events@.push(event));
                            } else {
                                assert(self.components@[tcn].ports@[q].events@ == old(
                                    self,
                                ).components@[tcn].ports@[q].events@.push(event));
                            }
                        }
                        assert forall|c: int, q2: int|
                            #![trigger self.components@[c].ports@[q2], old(self).components@[c].ports@[q2]]
                            (0 <= c < old(self).components@.len() && 0 <= q2 < old(
                                self,
                            ).components@[c].ports@.len() && !(exists|t: int|
                                0 <= t < n + 1 && #[trigger] ts.take(n as int + 1)[t] == (
                                c,
                                old(self).components@[c].ports@[q2].id,
                                ))) implies self.components@[c].ports@[q2].events@ == old(
                            self,
                        ).components@[c].ports@[q2].events@ by {
                            assert forall|t: int| 0 <= t < n implies #[trigger] ts.take(
                                n as int,
                            )[t] != (c, old(self).components@[c].ports@[q2].id) by {
                                assert(ts.take(n as int)[t] == ts.take(n as int + 1)[t]);
                            }
                            assert(pre_loop[c].ports@[q2].events@ == old(
                                self,
                            ).components@[c].ports@[q2].events@);
                            if c == tcn {
                                assert(ts.take(n as int + 1)[n as int] == ts[n as int]);
                                assert(old(self).components@[c].ports@[q2].id != tp);
                                assert(pre_loop[c].ports@[q2].id != tp);
                                assert(q2 != q);
                                assert(self.components@[c].ports@[q2] == pre_loop[c].ports@[q2]);
                            } else {
                                assert(self.components@[c] == pre_loop[c]);
                            }
                        }
                        assert(Self::queues_untouched_except(
                            old(self).components@,
                            self.components@,
                            ts.take(n as int + 1),
                        ));
                    }
                }
                n += 1;
            }
            i += 1;
        }
        proof {
            assert(old(self).wiring@.take(nw as int) =~= old(self).wiring@);
        }
        Ok(n)
    }
}

} // verus!
