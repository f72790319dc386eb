use chat_hub::bus::{BroadcastBus, Received};
use chat_hub::wire::ChatEvent;

fn said(name: &str, text: &str) -> ChatEvent {
    ChatEvent::Said { name: name.to_string(), text: text.to_string() }
}

#[test]
fn publish_without_subscribers_is_a_no_op() {
    let mut bus = BroadcastBus::new(3);
    bus.publish(&said("a", "1"));
    let late = bus.subscribe();
    assert_eq!(bus.pending(late), 0);
    assert_eq!(bus.try_recv(late), Received::Empty);
}

#[test]
fn handles_are_fresh() {
    let mut bus = BroadcastBus::new(3);
    let a = bus.subscribe();
    let b = bus.subscribe();
    bus.unsubscribe(a);
    let c = bus.subscribe();
    assert_ne!(a, b);
    assert_ne!(a, c);
    assert_ne!(b, c);
    assert_eq!(a.id(), 0);
    assert_eq!(b.id(), 1);
    assert_eq!(c.id(), 2);
}

#[test]
fn publish_reaches_every_subscriber_in_order() {
    let mut bus = BroadcastBus::new(8);
    let a = bus.subscribe();
    let b = bus.subscribe();
    bus.publish(&said("x", "1"));
    bus.publish(&said("y", "2"));
    bus.publish(&said("x", "3"));
    for handle in [a, b] {
        assert_eq!(bus.pending(handle), 3);
        assert_eq!(bus.try_recv(handle), Received::Event(said("x", "1")));
        assert_eq!(bus.try_recv(handle), Received::Event(said("y", "2")));
        assert_eq!(bus.try_recv(handle), Received::Event(said("x", "3")));
        assert_eq!(bus.try_recv(handle), Received::Empty);
    }
}

#[test]
fn late_subscriber_misses_earlier_events() {
    let mut bus = BroadcastBus::new(8);
    let early = bus.subscribe();
    bus.publish(&said("x", "before"));
    let late = bus.subscribe();
    bus.publish(&said("x", "after"));
    assert_eq!(bus.try_recv(early), Received::Event(said("x", "before")));
    assert_eq!(bus.try_recv(early), Received::Event(said("x", "after")));
    assert_eq!(bus.try_recv(late), Received::Event(said("x", "after")));
    assert_eq!(bus.try_recv(late), Received::Empty);
}

#[test]
fn full_buffer_drops_the_new_event_for_that_subscriber_only() {
    let mut bus = BroadcastBus::new(2);
    let slow = bus.subscribe();
    let fast = bus.subscribe();
    bus.publish(&said("x", "1"));
    assert_eq!(bus.try_recv(fast), Received::Event(said("x", "1")));
    bus.publish(&said("x", "2"));
    assert_eq!(bus.try_recv(fast), Received::Event(said("x", "2")));
    bus.publish(&said("x", "3"));
    assert_eq!(bus.try_recv(fast), Received::Event(said("x", "3")));
    assert_eq!(bus.pending(slow), 2);
    assert_eq!(bus.try_recv(slow), Received::Event(said("x", "1")));
    assert_eq!(bus.try_recv(slow), Received::Event(said("x", "2")));
    assert_eq!(bus.try_recv(slow), Received::Empty);
    bus.publish(&said("x", "4"));
    assert_eq!(bus.try_recv(slow), Received::Event(said("x", "4")));
}

#[test]
fn zero_capacity_delivers_nothing() {
    let mut bus = BroadcastBus::new(0);
    let a = bus.subscribe();
    bus.publish(&said("x", "1"));
    assert_eq!(bus.capacity(), 0);
    assert_eq!(bus.try_recv(a), Received::Empty);
}

#[test]
fn unsubscribe_closes_the_handle() {
    let mut bus = BroadcastBus::new(4);
    let a = bus.subscribe();
    let b = bus.subscribe();
    bus.publish(&said("x", "1"));
    assert!(bus.is_live(a));
    bus.unsubscribe(a);
    assert!(!bus.is_live(a));
    assert!(bus.is_live(b));
    assert_eq!(bus.pending(a), 0);
    assert_eq!(bus.try_recv(a), Received::Closed);
    bus.publish(&said("x", "2"));
    assert_eq!(bus.try_recv(a), Received::Closed);
    assert_eq!(bus.try_recv(b), Received::Event(said("x", "1")));
    assert_eq!(bus.try_recv(b), Received::Event(said("x", "2")));
}

#[test]
fn unsubscribe_twice_is_a_no_op() {
    let mut bus = BroadcastBus::new(4);
    let a = bus.subscribe();
    let b = bus.subscribe();
    bus.unsubscribe(a);
    bus.unsubscribe(a);
    assert!(bus.is_live(b));
    bus.publish(&said("x", "1"));
    assert_eq!(bus.try_recv(b), Received::Event(said("x", "1")));
}

#[test]
fn publish_after_all_subscribers_left_is_legal() {
    let mut bus = BroadcastBus::new(4);
    let a = bus.subscribe();
    bus.unsubscribe(a);
    bus.publish(&said("x", "1"));
    assert_eq!(bus.try_recv(a), Received::Closed);
}

#[test]
fn capacity_is_kept() {
    assert_eq!(BroadcastBus::new(100).capacity(), 100);
}
