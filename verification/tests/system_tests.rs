use embassy_sync::blocking_mutex::raw::NoopRawMutex;
use embassy_sync::pubsub::{PubSubChannel, WaitResult};
use sump_telemetry::bus::{Delivery, EventBus, BACKLOG_DEPTH};
use sump_telemetry::monitor::{EdgeMonitor, Level, Sample};
use sump_telemetry::protocol::{parse_packet, Report};
use sump_telemetry::service::{Action, Event, Service};
use sump_telemetry::types::{Message, Pump, ServerState};

/// Runs the service on what its subscription holds, publishing what it
/// asks to have published, and collects the packets it sends.
fn drain(bus: &mut EventBus, sub: usize, service: &mut Service, wire: &mut Vec<[u8; 16]>) {
    while let Some(d) = bus.next_event(sub) {
        for a in service.step(Event::Bus(d)) {
            perform(bus, a, wire);
        }
    }
}

fn perform(bus: &mut EventBus, action: Action, wire: &mut Vec<[u8; 16]>) {
    match action {
        Action::Publish(m) => bus.publish(m),
        Action::Send(r) => wire.push(r.to_bytes()),
        Action::Listen { .. } | Action::Flush | Action::Close => {}
    }
}

#[test]
fn from_float_switch_to_wire() {
    let mut bus = EventBus::new(BACKLOG_DEPTH);
    let display = bus.subscribe();
    let sub = bus.subscribe();
    let mut service = Service::new();
    let mut wire = Vec::new();
    for a in service.start() {
        perform(&mut bus, a, &mut wire);
    }
    let mut primary = EdgeMonitor::new(Pump::Primary, Level::High);
    let mut secondary = EdgeMonitor::new(Pump::Secondary, Level::High);

    // the primary pump starts, with some bouncing before it
    assert_eq!(primary.settle(Sample { level: Level::High, stamp: 900 }), None);
    if let Some(m) = primary.settle(Sample { level: Level::Low, stamp: 1000 }) {
        bus.publish(m);
    }
    if let Some(m) = secondary.settle(Sample { level: Level::Low, stamp: 2000 }) {
        bus.publish(m);
    }
    drain(&mut bus, sub, &mut service, &mut wire);
    assert!(wire.is_empty());

    // a client connects
    for a in service.step(Event::Accepted { peer: Some(0x0A00_0001), now: 3000 }) {
        perform(&mut bus, a, &mut wire);
    }
    assert_eq!(service.state, ServerState::Client { addr: 0x0A00_0001 });

    // the primary pump stops
    if let Some(m) = primary.settle(Sample { level: Level::High, stamp: 5000 }) {
        bus.publish(m);
    }
    drain(&mut bus, sub, &mut service, &mut wire);

    let read: Vec<Report> = wire.iter().map(|p| parse_packet(p).unwrap()).collect();
    assert_eq!(
        read,
        vec![
            Report { stamp: 3000, tc: 0x00, ec: 0 },
            Report { stamp: 1000, tc: 0x03, ec: 0 },
            Report { stamp: 2000, tc: 0x05, ec: 0 },
            Report { stamp: 5000, tc: 0x02, ec: 0 },
        ]
    );

    // the other subscriber saw all of it, the service's own messages too
    let mut seen = Vec::new();
    while let Some(d) = bus.next_event(display) {
        seen.push(d);
    }
    assert_eq!(
        seen,
        vec![
            Delivery::Message(Message::ClientDisconnected),
            Delivery::Message(Message::PumpOn { stamp: 1000, pump: Pump::Primary }),
            Delivery::Message(Message::PumpOn { stamp: 2000, pump: Pump::Secondary }),
            Delivery::Message(Message::ClientConnected { addr: 0x0A00_0001 }),
            Delivery::Message(Message::PumpOff { stamp: 5000, pump: Pump::Primary }),
        ]
    );
}

#[test]
fn service_that_lags_sends_what_is_left() {
    let mut bus = EventBus::new(2);
    let sub = bus.subscribe();
    let mut service = Service::new();
    let mut wire = Vec::new();
    service.step(Event::Accepted { peer: None, now: 0 });
    for stamp in 1..=5 {
        bus.publish(Message::PumpOn { stamp, pump: Pump::Primary });
    }
    drain(&mut bus, sub, &mut service, &mut wire);
    let read: Vec<Report> = wire.iter().map(|p| parse_packet(p).unwrap()).collect();
    assert_eq!(
        read,
        vec![Report { stamp: 4, tc: 0x03, ec: 0 }, Report { stamp: 5, tc: 0x03, ec: 0 }]
    );
}

fn as_delivery(r: Option<WaitResult<Message>>) -> Option<Delivery> {
    match r {
        Some(WaitResult::Lagged(n)) => Some(Delivery::Lagged(n)),
        Some(WaitResult::Message(m)) => Some(Delivery::Message(m)),
        None => None,
    }
}

/// A schedule of publishes and reads, the same on every run.
fn schedule(seed: u64, len: usize) -> Vec<u8> {
    let mut x = seed;
    let mut ops = Vec::new();
    for _ in 0..len {
        x = x.wrapping_mul(6364136223846793005).wrapping_add(1442695040888963407);
        ops.push((x >> 33) as u8);
    }
    ops
}

#[test]
fn bus_reads_as_the_embassy_channel_does() {
    for seed in 0..200u64 {
        let channel = PubSubChannel::<NoopRawMutex, Message, 4, 2, 1>::new();
        let mut theirs = [channel.subscriber().unwrap(), channel.subscriber().unwrap()];
        let publisher = channel.publisher().unwrap();
        let mut bus = EventBus::new(4);
        let ours = [bus.subscribe(), bus.subscribe()];
        let mut stamp = 0u64;
        for op in schedule(seed, 300) {
            match op % 5 {
                // the first subscriber reads twice as often as the second
                0 | 1 => {
                    assert_eq!(
                        bus.next_event(ours[0]),
                        as_delivery(theirs[0].try_next_message())
                    );
                }
                2 => {
                    assert_eq!(
                        bus.next_event(ours[1]),
                        as_delivery(theirs[1].try_next_message())
                    );
                }
                _ => {
                    stamp += 1;
                    let m = Message::PumpOn { stamp, pump: Pump::Secondary };
                    publisher.publish_immediate(m);
                    bus.publish(m);
                }
            }
        }
        // read both out
        for i in 0..2 {
            loop {
                let mine = bus.next_event(ours[i]);
                assert_eq!(mine, as_delivery(theirs[i].try_next_message()));
                if mine.is_none() {
                    break;
                }
            }
        }
    }
}
