use kompact::component::{Component, DispatchError};
use kompact::definition::{DynamicComponentDefinition, EventCounter, LockPoisoned};
use kompact::lifecycle::{handle_control, on_created, on_setup_complete, ControlEvent, LifecycleState};

fn fresh(ports: Vec<u64>) -> Component<EventCounter, u64> {
    let provided = ports.clone();
    let mut c = Component::new(EventCounter::new(provided, Vec::new()), ports);
    c.complete_setup();
    c
}

#[test]
fn mailbox_is_fifo_per_producer() {
    let mut c = fresh(vec![]);
    c.enqueue_message(1);
    c.enqueue_message(2);
    c.enqueue_message(3);
    let r = c.execute(10);
    assert_eq!(r.work_done, 3);
    assert!(!r.still_ready);
    assert_eq!(c.definition.messages_seen, vec![1, 2, 3]);
}

#[test]
fn control_runs_before_ordinary_events() {
    // a kill queued behind ordinary messages still runs first: the
    // messages queued before the pass are discarded, never delivered
    let mut c = fresh(vec![]);
    c.enqueue_message(7);
    c.enqueue_message(8);
    c.enqueue_control(ControlEvent::Kill);
    let r = c.execute(10);
    assert_eq!(r.work_done, 0);
    assert_eq!(c.lifecycle, LifecycleState::Destroyed);
    assert_eq!(c.definition.controls_seen, vec![ControlEvent::Kill]);
    assert!(c.definition.messages_seen.is_empty());
    assert!(c.mailbox.is_empty());
}

#[test]
fn start_then_messages_in_one_pass() {
    let mut c = fresh(vec![]);
    c.enqueue_message(7);
    c.enqueue_control(ControlEvent::Start);
    let r = c.execute(10);
    assert_eq!(c.lifecycle, LifecycleState::Active);
    assert_eq!(r.work_done, 1);
    assert_eq!(c.definition.controls_seen, vec![ControlEvent::Start]);
    assert_eq!(c.definition.messages_seen, vec![7]);
}

#[test]
fn throughput_bounds_each_pass() {
    let mut c = fresh(vec![]);
    for m in 0..5 {
        c.enqueue_message(m);
    }
    let r = c.execute(2);
    assert_eq!(r.work_done, 2);
    assert!(r.still_ready);
    assert_eq!(c.mailbox.len(), 3);
    // the container is re-run until no work remains: nothing is starved
    let mut passes = 0;
    while c.execute(2).still_ready {
        passes += 1;
        assert!(passes < 10);
    }
    assert_eq!(c.definition.messages_seen, vec![0, 1, 2, 3, 4]);
}

#[test]
fn port_events_drain_round_robin() {
    let mut c = fresh(vec![1, 2]);
    c.enqueue_port(1, 10).unwrap();
    c.enqueue_port(2, 20).unwrap();
    c.enqueue_port(1, 11).unwrap();
    let r = c.execute(10);
    assert_eq!(r.work_done, 3);
    assert_eq!(c.definition.events_seen.len(), 3);
    assert!(c.definition.events_seen.contains(&(1, 10)));
    assert!(c.definition.events_seen.contains(&(1, 11)));
    assert!(c.definition.events_seen.contains(&(2, 20)));
    // per queue the order is oldest first
    let on_one: Vec<u64> = c.definition.events_seen.iter().filter(|e| e.0 == 1).map(|e| e.1).collect();
    assert_eq!(on_one, vec![10, 11]);
}

#[test]
fn enqueue_on_missing_port_fails() {
    let mut c = fresh(vec![1]);
    assert_eq!(c.enqueue_port(9, 0), Err(DispatchError::PortMissing));
}

#[test]
fn enqueue_on_declared_but_unwired_port_fails() {
    // the definition declares the port, but it was never set up on the
    // container
    let mut c: Component<EventCounter, u64> =
        Component::new(EventCounter::new(vec![2], Vec::new()), Vec::new());
    assert_eq!(c.enqueue_port(2, 0), Err(DispatchError::PortUnwired));
}

#[test]
fn kill_is_idempotent_and_later_enqueues_drop() {
    let mut c = fresh(vec![1]);
    c.enqueue_control(ControlEvent::Kill);
    c.execute(10);
    assert_eq!(c.lifecycle, LifecycleState::Destroyed);
    // killing again is a no-op
    c.enqueue_control(ControlEvent::Kill);
    assert!(c.control_queue.is_empty());
    let r = c.execute(10);
    assert_eq!(r.work_done, 0);
    assert_eq!(c.lifecycle, LifecycleState::Destroyed);
    // enqueues after the kill are silently dropped
    c.enqueue_message(5);
    assert!(c.mailbox.is_empty());
    assert!(c.enqueue_port(1, 5).is_ok());
    assert_eq!(c.definition.controls_seen, vec![ControlEvent::Kill]);
}

#[test]
fn blocked_container_delivers_nothing() {
    let mut c = fresh(vec![]);
    c.enqueue_message(1);
    c.set_blocking();
    let r = c.execute(10);
    assert_eq!(r.work_done, 0);
    assert!(!r.still_ready);
    assert!(c.definition.messages_seen.is_empty());
    c.resolve_blocking();
    let r2 = c.execute(10);
    assert_eq!(r2.work_done, 1);
    assert_eq!(c.definition.messages_seen, vec![1]);
}

#[test]
fn poisoned_lock_reports_poisoning() {
    let mut c = fresh(vec![]);
    assert!(c.lock_dyn_definition().is_ok());
    c.mark_poisoned();
    assert_eq!(c.lock_dyn_definition(), Err(LockPoisoned));
    assert_eq!(LockPoisoned.message(), "component definition lock has been poisoned");
}

#[test]
fn ready_flag_claimed_exactly_once() {
    let mut c = fresh(vec![]);
    assert!(c.try_claim_ready());
    assert!(!c.try_claim_ready());
    assert!(c.ready);
}

#[test]
fn on_dyn_definition_reaches_the_definition() {
    let mut c = fresh(vec![]);
    c.enqueue_message(3);
    c.execute(10);
    let seen = c.on_dyn_definition(|d: &mut EventCounter| d.messages_seen.len());
    assert_eq!(seen, 1);
}

#[test]
fn dyn_definition_mut_gives_the_definition() {
    let mut c = fresh(vec![]);
    c.dyn_definition_mut().messages_seen.push(99);
    assert_eq!(c.definition.messages_seen, vec![99]);
}

#[test]
fn kill_while_blocked_drops_the_continuation() {
    let mut c = fresh(vec![1]);
    c.enqueue_message(1);
    c.set_blocking();
    c.kill_blocked();
    assert_eq!(c.lifecycle, LifecycleState::Destroyed);
    assert!(!c.blocked);
    assert!(c.mailbox.is_empty());
    // nothing was delivered on the way down
    assert!(c.definition.messages_seen.is_empty());
    assert!(c.definition.controls_seen.is_empty());
}

#[test]
fn dynamic_port_lookup_by_identifier() {
    let counter = EventCounter::new(vec![3, 5], vec![7]);
    let d: &dyn DynamicComponentDefinition<u64> = &counter;
    assert_eq!(d.get_provided_port(5), Some(1));
    assert_eq!(d.get_provided_port(9), None);
    assert_eq!(d.get_required_port(7), Some(0));
    assert_eq!(d.get_required_port(3), None);
}

#[test]
fn lifecycle_follows_the_control_table() {
    let s0 = on_created();
    assert_eq!(s0, LifecycleState::Initialising);
    let s1 = on_setup_complete();
    assert_eq!(s1, LifecycleState::Passive);
    let s2 = handle_control(s1, ControlEvent::Start);
    assert_eq!(s2, LifecycleState::Active);
    let s3 = handle_control(s2, ControlEvent::Stop);
    assert_eq!(s3, LifecycleState::Passive);
    let s4 = handle_control(s3, ControlEvent::Kill);
    assert_eq!(s4, LifecycleState::Destroyed);
    assert_eq!(handle_control(s4, ControlEvent::Start), LifecycleState::Destroyed);
    // a component still initialising ignores Start
    assert_eq!(
        handle_control(LifecycleState::Initialising, ControlEvent::Start),
        LifecycleState::Initialising
    );
}
