use kompact::component::DispatchError;
use kompact::definition::EventCounter;
use kompact::lifecycle::ControlEvent;
use kompact::runtime::Runtime;

const PING: u64 = 1;

fn provider() -> EventCounter {
    EventCounter::new(vec![PING], Vec::new())
}

fn requirer() -> EventCounter {
    EventCounter::new(Vec::new(), vec![PING])
}

#[test]
fn trigger_fans_out_to_every_peer() {
    let mut rt: Runtime<EventCounter, u64> = Runtime::new(10);
    let p = rt.create(provider(), Vec::new());
    let r1 = rt.create(requirer(), vec![PING]);
    let r2 = rt.create(requirer(), vec![PING]);
    let r3 = rt.create(requirer(), vec![PING]);
    let bystander = rt.create(requirer(), vec![PING]);
    rt.connect(p, PING, r1, PING).unwrap();
    rt.connect(p, PING, r2, PING).unwrap();
    rt.connect(p, PING, r3, PING).unwrap();
    // wiring the same pair again is a no-op
    rt.connect(p, PING, r2, PING).unwrap();

    let delivered = rt.trigger(p, PING, 42).unwrap();
    assert_eq!(delivered, 3);
    for r in [r1, r2, r3] {
        assert_eq!(rt.components[r].ports[0].events, vec![42]);
        assert!(rt.components[r].ready);
    }
    // exactly one delivery per wired peer: an unwired component gets none
    assert!(rt.components[bystander].ports[0].events.is_empty());

    for r in [r1, r2, r3] {
        rt.components[r].execute(10);
        assert_eq!(rt.components[r].definition.events_seen, vec![(PING, 42)]);
    }
}

#[test]
fn trigger_without_the_port_fails_fast() {
    let mut rt: Runtime<EventCounter, u64> = Runtime::new(10);
    let p = rt.create(provider(), Vec::new());
    assert_eq!(rt.trigger(p, 99, 0), Err(DispatchError::PortMissing));
}

#[test]
fn wiring_after_start_is_refused() {
    let mut rt: Runtime<EventCounter, u64> = Runtime::new(10);
    let p = rt.create(provider(), Vec::new());
    let r = rt.create(requirer(), vec![PING]);
    rt.components[p].enqueue_control(ControlEvent::Start);
    rt.components[p].execute(10);
    assert_eq!(rt.connect(p, PING, r, PING), Err(DispatchError::WiredTooLate));
}

#[test]
fn connect_checks_both_sides() {
    let mut rt: Runtime<EventCounter, u64> = Runtime::new(10);
    let p = rt.create(provider(), Vec::new());
    let r = rt.create(requirer(), vec![PING]);
    assert_eq!(rt.connect(p, 99, r, PING), Err(DispatchError::PortMissing));
    assert_eq!(rt.connect(p, PING, r, 99), Err(DispatchError::PortMissing));
    assert!(rt.connect(p, PING, r, PING).is_ok());
}

#[test]
fn tell_reaches_the_mailbox_and_shutdown_refuses() {
    let mut rt: Runtime<EventCounter, u64> = Runtime::new(10);
    let c = rt.create(requirer(), vec![PING]);
    rt.tell(c, 5).unwrap();
    assert_eq!(rt.components[c].mailbox, vec![5]);
    rt.shutdown();
    assert_eq!(rt.tell(0, 5), Err(DispatchError::Shutdown));
}

#[test]
fn shutdown_releases_every_strong_handle() {
    let mut rt: Runtime<EventCounter, u64> = Runtime::new(10);
    rt.create(provider(), Vec::new());
    rt.create(requirer(), vec![PING]);
    rt.shutdown();
    assert_eq!(rt.components.len(), 0);
    assert_eq!(rt.ready_queue.len(), 0);
    assert!(rt.shutdown_started);
}

#[test]
fn scheduler_runs_ready_components_and_reenqueues() {
    let mut rt: Runtime<EventCounter, u64> = Runtime::new(2);
    let c = rt.create(requirer(), vec![PING]);
    for m in 0..5 {
        rt.tell(c, m).unwrap();
    }
    // tell marks ready, so the claim fails until the scheduler clears it
    assert!(!rt.schedule(c));
    rt.components[c].ready = false;
    assert!(rt.schedule(c));
    let mut dispatches = 0;
    while !rt.ready_queue.is_empty() {
        let (cid, res) = rt.dispatch_once().unwrap();
        assert_eq!(cid, c);
        assert!(res.work_done <= 2);
        dispatches += 1;
        assert!(dispatches < 10);
    }
    assert_eq!(rt.components[c].definition.messages_seen, vec![0, 1, 2, 3, 4]);
    assert_eq!(dispatches, 3);
}

#[test]
fn poisoned_component_is_quarantined() {
    let mut rt: Runtime<EventCounter, u64> = Runtime::new(10);
    let c = rt.create(requirer(), vec![PING]);
    rt.tell(c, 1).unwrap();
    rt.components[c].ready = false;
    rt.schedule(c);
    rt.components[c].mark_poisoned();
    // the queued dispatch is dropped without running the handler
    assert!(rt.dispatch_once().is_none());
    assert!(rt.ready_queue.is_empty());
    assert!(rt.components[c].definition.messages_seen.is_empty());
}

#[test]
fn ping_pong_rounds_deliver_exactly_once_each() {
    let mut rt: Runtime<EventCounter, u64> = Runtime::new(10);
    let a = rt.create(EventCounter::new(vec![PING], vec![PING]), vec![PING]);
    let b = rt.create(EventCounter::new(vec![PING], vec![PING]), vec![PING]);
    rt.connect(a, PING, b, PING).unwrap();
    rt.connect(b, PING, a, PING).unwrap();

    let rounds = 4u64;
    for round in 0..rounds {
        assert_eq!(rt.trigger(a, PING, round).unwrap(), 1);
        rt.components[b].ready = false;
        rt.schedule(b);
        rt.dispatch_once().unwrap();
        assert_eq!(rt.trigger(b, PING, round).unwrap(), 1);
        rt.components[a].ready = false;
        rt.schedule(a);
        rt.dispatch_once().unwrap();
    }
    assert_eq!(rt.components[a].definition.events_seen.len(), rounds as usize);
    assert_eq!(rt.components[b].definition.events_seen.len(), rounds as usize);
}

#[test]
fn kill_through_the_control_surface() {
    let mut rt: Runtime<EventCounter, u64> = Runtime::new(10);
    let c = rt.create(requirer(), vec![PING]);
    rt.components[c].enqueue_control(ControlEvent::Start);
    rt.components[c].execute(10);
    rt.components[c].enqueue_control(ControlEvent::Kill);
    rt.components[c].execute(10);
    // events to a destroyed component vanish silently
    rt.tell(c, 9).unwrap();
    assert!(rt.components[c].mailbox.is_empty());
}
