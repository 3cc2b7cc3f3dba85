use host_bridge::action::{Action, ActionOutcome, Record};
use host_bridge::bus::DispatchBus;
use host_bridge::ident::RequestId;
use host_bridge::observer::{Delivery, Observer, Registry};
use host_bridge::state::State;
use std::sync::mpsc::channel;

fn lookup(key: &str) -> Action {
    Action::get(key.to_string(), RequestId::fresh())
}

fn found(content: &str) -> ActionOutcome {
    ActionOutcome::Get(Some(Record { content: content.to_string() }))
}

fn content(outcome: &ActionOutcome) -> Option<String> {
    match outcome {
        ActionOutcome::Get(Some(record)) => Some(record.content.clone()),
        ActionOutcome::Get(None) => None,
        other => panic!("unexpected outcome {:?}", other),
    }
}

fn waiters(deliveries: &Vec<Delivery<u32>>) -> Vec<u32> {
    deliveries.iter().map(|delivery| delivery.waiter).collect()
}

#[test]
fn observer_waits_until_its_outcome_is_there() {
    let action = lookup("foo");
    let mut state = State::new();
    let mut observer = Observer::new(action.duplicate(), 7u32);
    assert!(!observer.is_fired());
    assert!(!observer.is_due(&state));
    assert!(observer.evaluate(&state).is_none());
    assert!(!observer.is_fired());
    state.record(lookup("foo"), found("not mine"));
    assert!(observer.evaluate(&state).is_none());
    state.record(action.duplicate(), found("mine"));
    assert!(observer.is_due(&state));
    let delivery = observer.evaluate(&state).unwrap();
    assert_eq!(delivery.waiter, 7);
    assert_eq!(content(&delivery.outcome), Some("mine".to_string()));
    assert!(observer.is_fired());
}

#[test]
fn fired_observer_never_sends_again() {
    let action = lookup("foo");
    let mut state = State::new();
    state.record(action.duplicate(), ActionOutcome::Get(None));
    let (sender, receiver) = channel::<ActionOutcome>();
    let mut observer = Observer::new(action.duplicate(), sender);
    let mut sent = 0;
    for _ in 0..5 {
        if let Some(delivery) = observer.evaluate(&state) {
            delivery.waiter.send(delivery.outcome).unwrap();
            sent += 1;
        }
        assert!(observer.is_fired());
        assert!(!observer.is_due(&state));
    }
    assert_eq!(sent, 1);
    assert!(matches!(receiver.recv().unwrap(), ActionOutcome::Get(None)));
    assert!(receiver.try_recv().is_err());
}

#[test]
fn observer_registered_after_apply_fires_at_registration() {
    let action = lookup("foo");
    let mut state = State::new();
    state.record(action.duplicate(), found("early"));
    let mut registry: Registry<u32> = Registry::new();
    let delivery = registry.register(Observer::new(action.duplicate(), 1), &state).unwrap();
    assert_eq!(delivery.waiter, 1);
    assert_eq!(content(&delivery.outcome), Some("early".to_string()));
    assert_eq!(registry.len(), 0);
    assert!(registry.broadcast(&state).is_empty());
}

#[test]
fn observer_registered_before_apply_is_retained() {
    let action = lookup("foo");
    let state = State::new();
    let mut registry: Registry<u32> = Registry::new();
    assert!(registry.register(Observer::new(action.duplicate(), 1), &state).is_none());
    assert_eq!(registry.len(), 1);
    assert!(registry.broadcast(&state).is_empty());
    assert_eq!(registry.len(), 1);
}

#[test]
fn fired_observer_is_not_registered() {
    let action = lookup("foo");
    let mut state = State::new();
    state.record(action.duplicate(), ActionOutcome::Get(None));
    let mut observer = Observer::new(action.duplicate(), 1u32);
    assert!(observer.evaluate(&state).is_some());
    let mut registry: Registry<u32> = Registry::new();
    assert!(registry.register(observer, &state).is_none());
    assert_eq!(registry.len(), 0);
}

#[test]
fn broadcast_fires_the_due_and_keeps_the_rest_in_order() {
    let actions: Vec<Action> = (0..5).map(|_| lookup("foo")).collect();
    let mut state = State::new();
    let mut registry: Registry<u32> = Registry::new();
    for (waiter, action) in actions.iter().enumerate() {
        assert!(registry.register(Observer::new(action.duplicate(), waiter as u32), &state).is_none());
    }
    state.record(actions[3].duplicate(), found("three"));
    state.record(actions[1].duplicate(), found("one"));
    let deliveries = registry.broadcast(&state);
    assert_eq!(waiters(&deliveries), vec![1, 3]);
    assert_eq!(content(&deliveries[0].outcome), Some("one".to_string()));
    assert_eq!(content(&deliveries[1].outcome), Some("three".to_string()));
    assert_eq!(registry.len(), 3);
    assert!(registry.broadcast(&state).is_empty());
    assert_eq!(registry.len(), 3);
    state.record(actions[4].duplicate(), ActionOutcome::Get(None));
    state.record(actions[0].duplicate(), ActionOutcome::Get(None));
    state.record(actions[2].duplicate(), ActionOutcome::Get(None));
    assert_eq!(waiters(&registry.broadcast(&state)), vec![0, 2, 4]);
    assert_eq!(registry.len(), 0);
    assert!(registry.broadcast(&state).is_empty());
}

#[test]
fn every_observer_is_delivered_to_once_over_many_snapshots() {
    let actions: Vec<Action> = (0..20).map(|_| lookup("same key")).collect();
    let mut state = State::new();
    let mut registry: Registry<u32> = Registry::new();
    let mut counts = vec![0u32; 20];
    for (waiter, action) in actions.iter().enumerate() {
        registry.register(Observer::new(action.duplicate(), waiter as u32), &state);
    }
    for step in 0..20 {
        let applied = (step * 7) % 20;
        state.record(actions[applied].duplicate(), found(&applied.to_string()));
        for delivery in registry.broadcast(&state) {
            assert_eq!(content(&delivery.outcome), Some(delivery.waiter.to_string()));
            counts[delivery.waiter as usize] += 1;
        }
        for delivery in registry.broadcast(&state) {
            counts[delivery.waiter as usize] += 1;
        }
    }
    assert_eq!(counts, vec![1u32; 20]);
    assert_eq!(registry.len(), 0);
}

#[test]
fn bus_hands_out_actions_in_submission_order() {
    let state = State::new();
    let mut bus: DispatchBus<u32> = DispatchBus::new();
    assert!(bus.next_action().is_none());
    let first = lookup("a");
    let second = lookup("b");
    let third = lookup("a");
    for (waiter, action) in [&first, &second, &third].into_iter().enumerate() {
        let observer = Observer::new(action.duplicate(), waiter as u32);
        assert!(bus.submit(action.duplicate(), observer, &state).is_none());
    }
    assert_eq!(bus.queued(), 3);
    assert_eq!(bus.waiting(), 3);
    assert!(bus.next_action().unwrap().same(&first));
    assert!(bus.next_action().unwrap().same(&second));
    assert!(bus.next_action().unwrap().same(&third));
    assert!(bus.next_action().is_none());
    assert_eq!(bus.queued(), 0);
    assert_eq!(bus.waiting(), 3);
}

#[test]
fn bus_publish_delivers_and_leaves_the_queue() {
    let mut state = State::new();
    let mut bus: DispatchBus<u32> = DispatchBus::new();
    let first = lookup("a");
    let second = lookup("b");
    bus.submit(first.duplicate(), Observer::new(first.duplicate(), 10), &state);
    bus.submit(second.duplicate(), Observer::new(second.duplicate(), 20), &state);
    state.record(second.duplicate(), found("b's"));
    let deliveries = bus.publish(&state);
    assert_eq!(waiters(&deliveries), vec![20]);
    assert_eq!(content(&deliveries[0].outcome), Some("b's".to_string()));
    assert_eq!(bus.queued(), 2);
    assert_eq!(bus.waiting(), 1);
}

#[test]
fn bus_submit_delivers_at_once_what_the_snapshot_holds() {
    let mut state = State::new();
    let mut bus: DispatchBus<u32> = DispatchBus::new();
    let action = lookup("a");
    state.record(action.duplicate(), ActionOutcome::Get(None));
    let ready = bus.submit(action.duplicate(), Observer::new(action.duplicate(), 5), &state).unwrap();
    assert_eq!(ready.waiter, 5);
    assert!(matches!(ready.outcome, ActionOutcome::Get(None)));
    assert_eq!(bus.queued(), 1);
    assert_eq!(bus.waiting(), 0);
}

#[test]
fn registry_knows_what_is_watched() {
    let action = lookup("foo");
    let other = lookup("foo");
    let mut state = State::new();
    let mut registry: Registry<u32> = Registry::new();
    assert!(!registry.watches(&action));
    registry.register(Observer::new(action.duplicate(), 1), &state);
    assert!(registry.watches(&action));
    assert!(!registry.watches(&other));
    state.record(action.duplicate(), ActionOutcome::Get(None));
    registry.broadcast(&state);
    assert!(!registry.watches(&action));
}

#[test]
fn bus_knows_what_is_queued_or_watched() {
    let action = lookup("foo");
    let mut state = State::new();
    let mut bus: DispatchBus<u32> = DispatchBus::new();
    assert!(!bus.holds(&action));
    bus.submit(action.duplicate(), Observer::new(action.duplicate(), 1), &state);
    assert!(bus.holds(&action));
    assert!(bus.next_action().unwrap().same(&action));
    assert!(bus.holds(&action));
    state.record(action.duplicate(), ActionOutcome::Get(None));
    assert_eq!(bus.publish(&state).len(), 1);
    assert!(!bus.holds(&action));
    assert!(state.contains(&action));
}
