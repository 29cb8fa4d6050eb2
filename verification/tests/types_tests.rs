use sump_telemetry::types::{Message, Pump, PumpState, ServerState};

#[test]
fn pump_messages_carry_a_change() {
    assert_eq!(
        Message::PumpOn { stamp: 1, pump: Pump::Primary }.change(),
        Some((Pump::Primary, PumpState::On(1)))
    );
    assert_eq!(
        Message::PumpOff { stamp: 2, pump: Pump::Secondary }.change(),
        Some((Pump::Secondary, PumpState::Off(2)))
    );
}

#[test]
fn client_messages_carry_none() {
    assert_eq!(Message::ClientConnected { addr: 1 }.change(), None);
    assert_eq!(Message::ClientDisconnected.change(), None);
}

#[test]
fn values_are_copied_and_compared() {
    let m = Message::PumpOn { stamp: 1, pump: Pump::Primary };
    let n = m;
    assert_eq!(m, n);
    assert_ne!(m, Message::PumpOff { stamp: 1, pump: Pump::Primary });
    assert_ne!(ServerState::NoClient, ServerState::Client { addr: 0 });
    assert_ne!(PumpState::Unknown, PumpState::Off(0));
}
