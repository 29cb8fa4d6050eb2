//! Value types shared by every component.

use vstd::prelude::*;

verus! {

/// Which of the two float switches an event concerns.
#[derive(Clone, Copy, Debug, PartialEq, Eq, Structural)]
pub enum Pump {
    Primary,
    Secondary,
}

/// Latest settled state of one pump, with the timestamp of the transition
/// that led to it. `Unknown` until the first debounced edge.
#[derive(Clone, Copy, Debug, PartialEq, Eq, Structural)]
pub enum PumpState {
    Off(u64),
    On(u64),
    Unknown,
}

/// An event carried by the bus. Timestamps are microseconds since boot.
#[derive(Clone, Copy, Debug, PartialEq, Eq, Structural)]
pub enum Message {
    PumpOn { stamp: u64, pump: Pump },
    PumpOff { stamp: u64, pump: Pump },
    ClientConnected { addr: u32 },
    ClientDisconnected,
}

/// Connection state of the network service: at most one peer at a time.
#[derive(Clone, Copy, Debug, PartialEq, Eq, Structural)]
pub enum ServerState {
    NoClient,
    Client { addr: u32 },
}

/// The pump that a message is about and the state it reports, where the
/// message is a pump transition.
pub open spec fn pump_change(m: Message) -> Option<(Pump, PumpState)> {
    match m {
        Message::PumpOn { stamp, pump } => Some((pump, PumpState::On(stamp))),
        Message::PumpOff { stamp, pump } => Some((pump, PumpState::Off(stamp))),
        Message::ClientConnected { .. } => None,
        Message::ClientDisconnected => None,
    }
}

impl Message {
    /// The pump that this message is about and the state it reports, if it
    /// is a pump transition.
    pub fn change(&self) -> (r: Option<(Pump, PumpState)>)
        ensures
            r == pump_change(*self),
    {
        match *self {
            Message::PumpOn { stamp, pump } => Some((pump, PumpState::On(stamp))),
            Message::PumpOff { stamp, pump } => Some((pump, PumpState::Off(stamp))),
            _ => None,
        }
    }
}

} // verus!
