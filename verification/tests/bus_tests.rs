use sump_telemetry::bus::{Delivery, EventBus, BACKLOG_DEPTH};
use sump_telemetry::types::{Message, Pump};

fn on(stamp: u64) -> Message {
    Message::PumpOn { stamp, pump: Pump::Primary }
}

#[test]
fn backlog_depth_is_eight() {
    assert_eq!(BACKLOG_DEPTH, 8);
}

#[test]
fn nothing_to_read_on_a_new_subscription() {
    let mut bus = EventBus::new(BACKLOG_DEPTH);
    let sub = bus.subscribe();
    assert_eq!(sub, 0);
    assert_eq!(bus.next_event(sub), None);
}

#[test]
fn subscribers_are_numbered_in_order() {
    let mut bus = EventBus::new(4);
    assert_eq!(bus.subscribe(), 0);
    assert_eq!(bus.subscribe(), 1);
    assert_eq!(bus.subscribe(), 2);
}

#[test]
fn subscriber_sees_only_what_is_published_after_it_joined() {
    let mut bus = EventBus::new(BACKLOG_DEPTH);
    bus.publish(on(1));
    let sub = bus.subscribe();
    assert_eq!(bus.next_event(sub), None);
    bus.publish(on(2));
    assert_eq!(bus.next_event(sub), Some(Delivery::Message(on(2))));
    assert_eq!(bus.next_event(sub), None);
}

#[test]
fn all_subscribers_receive_every_event() {
    let mut bus = EventBus::new(4);
    let a = bus.subscribe();
    let b = bus.subscribe();
    bus.publish(Message::ClientConnected { addr: 0x0A00_0001 });
    bus.publish(Message::ClientDisconnected);
    assert_eq!(
        bus.next_event(a),
        Some(Delivery::Message(Message::ClientConnected { addr: 0x0A00_0001 }))
    );
    assert_eq!(
        bus.next_event(b),
        Some(Delivery::Message(Message::ClientConnected { addr: 0x0A00_0001 }))
    );
    assert_eq!(bus.next_event(b), Some(Delivery::Message(Message::ClientDisconnected)));
    assert_eq!(bus.next_event(a), Some(Delivery::Message(Message::ClientDisconnected)));
    assert_eq!(bus.next_event(a), None);
    assert_eq!(bus.next_event(b), None);
}

#[test]
fn reader_that_keeps_pace_gets_everything_in_order() {
    let depth = BACKLOG_DEPTH;
    let mut bus = EventBus::new(depth);
    let sub = bus.subscribe();
    let mut got = Vec::new();
    let mut next = 0u64;
    // bursts of every size up to the depth, each read out before the next
    for burst in 1..=depth {
        for _ in 0..burst {
            bus.publish(on(next));
            next += 1;
        }
        while let Some(d) = bus.next_event(sub) {
            match d {
                Delivery::Message(m) => got.push(m),
                Delivery::Lagged(n) => panic!("lagged by {}", n),
            }
        }
    }
    assert_eq!(got.len() as u64, next);
    for (i, m) in got.iter().enumerate() {
        assert_eq!(*m, on(i as u64));
    }
}

#[test]
fn exactly_depth_unread_events_is_no_overrun() {
    let mut bus = EventBus::new(3);
    let sub = bus.subscribe();
    bus.publish(on(1));
    bus.publish(on(2));
    bus.publish(on(3));
    assert_eq!(bus.next_event(sub), Some(Delivery::Message(on(1))));
    bus.publish(on(4));
    assert_eq!(bus.next_event(sub), Some(Delivery::Message(on(2))));
    assert_eq!(bus.next_event(sub), Some(Delivery::Message(on(3))));
    assert_eq!(bus.next_event(sub), Some(Delivery::Message(on(4))));
    assert_eq!(bus.next_event(sub), None);
}

#[test]
fn lag_when_backlog_overflows() {
    let mut bus = EventBus::new(4);
    let sub = bus.subscribe();
    for stamp in 42..=47 {
        bus.publish(on(stamp));
    }
    assert_eq!(bus.next_event(sub), Some(Delivery::Lagged(2)));
    assert_eq!(bus.next_event(sub), Some(Delivery::Message(on(44))));
    assert_eq!(bus.next_event(sub), Some(Delivery::Message(on(45))));
    assert_eq!(bus.next_event(sub), Some(Delivery::Message(on(46))));
    assert_eq!(bus.next_event(sub), Some(Delivery::Message(on(47))));
    assert_eq!(bus.next_event(sub), None);
}

#[test]
fn one_event_too_many_is_a_lag_of_one() {
    let mut bus = EventBus::new(BACKLOG_DEPTH);
    let sub = bus.subscribe();
    for stamp in 0..9 {
        bus.publish(on(stamp));
    }
    assert_eq!(bus.next_event(sub), Some(Delivery::Lagged(1)));
    for stamp in 1..9 {
        assert_eq!(bus.next_event(sub), Some(Delivery::Message(on(stamp))));
    }
    assert_eq!(bus.next_event(sub), None);
}

#[test]
fn each_overrun_is_reported_once() {
    let mut bus = EventBus::new(2);
    let sub = bus.subscribe();
    for stamp in 0..5 {
        bus.publish(on(stamp));
    }
    assert_eq!(bus.next_event(sub), Some(Delivery::Lagged(3)));
    assert_eq!(bus.next_event(sub), Some(Delivery::Message(on(3))));
    // a second stall, a second report
    for stamp in 5..8 {
        bus.publish(on(stamp));
    }
    assert_eq!(bus.next_event(sub), Some(Delivery::Lagged(2)));
    assert_eq!(bus.next_event(sub), Some(Delivery::Message(on(6))));
    assert_eq!(bus.next_event(sub), Some(Delivery::Message(on(7))));
    assert_eq!(bus.next_event(sub), None);
    assert_eq!(bus.next_event(sub), None);
}

#[test]
fn events_dropped_after_a_pending_report_are_added_to_it() {
    let mut bus = EventBus::new(2);
    let sub = bus.subscribe();
    for stamp in 0..3 {
        bus.publish(on(stamp));
    }
    bus.publish(on(3));
    assert_eq!(bus.next_event(sub), Some(Delivery::Lagged(2)));
    assert_eq!(bus.next_event(sub), Some(Delivery::Message(on(2))));
    assert_eq!(bus.next_event(sub), Some(Delivery::Message(on(3))));
}

#[test]
fn slow_subscriber_does_not_disturb_a_fast_one() {
    let mut bus = EventBus::new(2);
    let fast = bus.subscribe();
    let slow = bus.subscribe();
    for stamp in 0..6 {
        bus.publish(on(stamp));
        assert_eq!(bus.next_event(fast), Some(Delivery::Message(on(stamp))));
    }
    assert_eq!(bus.next_event(fast), None);
    assert_eq!(bus.next_event(slow), Some(Delivery::Lagged(4)));
    assert_eq!(bus.next_event(slow), Some(Delivery::Message(on(4))));
    assert_eq!(bus.next_event(slow), Some(Delivery::Message(on(5))));
    assert_eq!(bus.next_event(slow), None);
}

#[test]
fn publish_without_subscribers_is_lost() {
    let mut bus = EventBus::new(BACKLOG_DEPTH);
    bus.publish(on(1));
    bus.publish(on(2));
    let sub = bus.subscribe();
    assert_eq!(bus.next_event(sub), None);
}

#[test]
fn unknown_subscriber_reads_nothing() {
    let mut bus = EventBus::new(BACKLOG_DEPTH);
    let sub = bus.subscribe();
    bus.publish(on(1));
    assert_eq!(bus.next_event(sub + 1), None);
    assert_eq!(bus.next_event(usize::MAX), None);
    assert_eq!(bus.next_event(sub), Some(Delivery::Message(on(1))));
}

#[test]
fn backlog_of_depth_zero_only_counts() {
    let mut bus = EventBus::new(0);
    let sub = bus.subscribe();
    assert_eq!(bus.next_event(sub), None);
    bus.publish(on(1));
    bus.publish(on(2));
    assert_eq!(bus.next_event(sub), Some(Delivery::Lagged(2)));
    assert_eq!(bus.next_event(sub), None);
}

#[test]
fn backlog_of_depth_one_keeps_the_newest() {
    let mut bus = EventBus::new(1);
    let sub = bus.subscribe();
    bus.publish(on(1));
    bus.publish(on(2));
    bus.publish(on(3));
    assert_eq!(bus.next_event(sub), Some(Delivery::Lagged(2)));
    assert_eq!(bus.next_event(sub), Some(Delivery::Message(on(3))));
    assert_eq!(bus.next_event(sub), None);
}
