//! Network service: one client at a time, told of the pumps' last known
//! state when it connects and of every transition while it stays.
//!
//! The service is a state machine. Whoever runs it owns the socket and the
//! subscription to the bus, waits on both, and hands each thing that
//! happens to [`Service::step`] as an [`Event`]. The step returns the
//! [`Action`]s to perform, in order. Where a `Send` or the `Flush` fails,
//! the rest of the list is dropped and `Event::SendFailed` is handed in.

use crate::bus::{
    delivered, fresh, keeps_pace, law_keeping_pace_loses_nothing, published, BusOp, Delivery,
};
use crate::protocol::{keepalive, state_report, Report, PACKET_LEN};
use crate::types::{pump_change, Message, Pump, PumpState, ServerState};
use vstd::prelude::*;

verus! {

/// TCP port on which the service listens.
pub const SERVICE_PORT: u16 = 10_000;

/// Seconds without traffic after which the socket gives a connection up.
pub const IDLE_TIMEOUT_SECS: u64 = 10;

/// Seconds between the keep-alive probes of the transport.
pub const KEEP_ALIVE_SECS: u64 = 5;

/// Something that happened to the service.
#[derive(Clone, Copy, Debug, PartialEq, Eq, Structural)]
pub enum Event {
    /// The bus delivered to the service's subscription.
    Bus(Delivery),
    /// The listening socket took a connection. `peer` is the client's IPv4
    /// address where the socket knows it, `now` the current timestamp.
    Accepted { peer: Option<u32>, now: u64 },
    /// The read on the client's socket ended: the client sent bytes, which
    /// it must not, or closed, or the socket failed or timed out.
    Inbound,
    /// A write was short or failed, or the flush failed.
    SendFailed,
}

/// Something the service asks for.
#[derive(Clone, Copy, Debug, PartialEq, Eq, Structural)]
pub enum Action {
    /// Publish the message on the bus.
    Publish(Message),
    /// Open a socket that gives a connection up after `timeout_secs`
    /// without traffic and probes it every `keep_alive_secs`, and wait for
    /// a client on `port`.
    Listen { port: u16, timeout_secs: u64, keep_alive_secs: u64 },
    /// Write the report's packet to the client.
    Send(Report),
    /// Wait until all that was written has gone out.
    Flush,
    /// Abort the connection and flush the socket.
    Close,
}

/// The service: whether a client is connected, and the last known state
/// of either pump.
#[derive(Clone, Copy, Debug, PartialEq, Eq, Structural)]
pub struct Service {
    pub state: ServerState,
    pub primary: PumpState,
    pub secondary: PumpState,
}

/// The address under which a client is announced: its own, or zero where
/// the socket does not know it.
pub open spec fn peer_address(peer: Option<u32>) -> u32 {
    match peer {
        Some(addr) => addr,
        None => 0,
    }
}

/// The pump transition in a delivery, if it holds one.
pub open spec fn change_of(d: Delivery) -> Option<(Pump, PumpState)> {
    match d {
        Delivery::Message(m) => pump_change(m),
        Delivery::Lagged(_) => None,
    }
}

/// A report as a list of none or one.
pub open spec fn listed(r: Option<Report>) -> Seq<Report> {
    match r {
        Some(report) => seq![report],
        None => Seq::empty(),
    }
}

/// What a client is sent on connecting: a keepalive with the current
/// timestamp, then the primary pump's state if it is known, then the
/// secondary's if it is known.
pub open spec fn burst(now: u64, primary: PumpState, secondary: PumpState) -> Seq<Report> {
    seq![keepalive(now)] + listed(state_report(Pump::Primary, primary)) + listed(
        state_report(Pump::Secondary, secondary),
    )
}

/// One `Send` for each report.
pub open spec fn sends(reports: Seq<Report>) -> Seq<Action> {
    Seq::new(reports.len(), |i: int| Action::Send(reports[i]))
}

/// The request to listen, with the service's port and timeouts.
pub open spec fn listen() -> Action {
    Action::Listen {
        port: SERVICE_PORT,
        timeout_secs: IDLE_TIMEOUT_SECS,
        keep_alive_secs: KEEP_ALIVE_SECS,
    }
}

/// What the service asks for at boot: the bus is told that no client is
/// connected, and the service listens.
pub open spec fn opening() -> Seq<Action> {
    seq![Action::Publish(Message::ClientDisconnected), listen()]
}

/// What ends a connection: the socket is closed, the bus is told, and the
/// service listens again.
pub open spec fn hang_up() -> Seq<Action> {
    seq![Action::Close, Action::Publish(Message::ClientDisconnected), listen()]
}

impl Service {
    /// Whether a client is connected.
    pub open spec fn connected(self) -> bool {
        self.state is Client
    }

    /// The service with what `d` says of the pumps taken in.
    pub open spec fn noting(self, d: Delivery) -> Service {
        match change_of(d) {
            Some((Pump::Primary, state)) => Service { primary: state, ..self },
            Some((Pump::Secondary, state)) => Service { secondary: state, ..self },
            None => self,
        }
    }

    /// The service after `event`.
    pub open spec fn after(self, event: Event) -> Service {
        match event {
            Event::Bus(d) => self.noting(d),
            Event::Accepted { peer, now } => if self.connected() {
                self
            } else {
                Service { state: ServerState::Client { addr: peer_address(peer) }, ..self }
            },
            Event::Inbound => Service { state: ServerState::NoClient, ..self },
            Event::SendFailed => Service { state: ServerState::NoClient, ..self },
        }
    }

    /// What the service asks for on `event`.
    ///
    /// While it waits for a client it only listens to the bus. Accepting a
    /// client, it announces the client and sends the opening burst. While
    /// a client is connected, each pump transition is one packet, and any
    /// end of the socket's read or failure to send ends the connection.
    pub open spec fn reaction(self, event: Event) -> Seq<Action> {
        match event {
            Event::Bus(d) => if self.connected() {
                match change_of(d) {
                    Some((pump, state)) => sends(listed(state_report(pump, state))),
                    None => Seq::empty(),
                }
            } else {
                Seq::empty()
            },
            Event::Accepted { peer, now } => if self.connected() {
                Seq::empty()
            } else {
                seq![Action::Publish(Message::ClientConnected { addr: peer_address(peer) })]
                    + sends(burst(now, self.primary, self.secondary)) + seq![Action::Flush]
            },
            Event::Inbound => if self.connected() {
                hang_up()
            } else {
                Seq::empty()
            },
            Event::SendFailed => if self.connected() {
                hang_up()
            } else {
                Seq::empty()
            },
        }
    }

    /// The service at boot: no client, nothing known of the pumps.
    pub fn new() -> (s: Self)
        ensures
            s == (Service {
                state: ServerState::NoClient,
                primary: PumpState::Unknown,
                secondary: PumpState::Unknown,
            }),
    {
        Service {
            state: ServerState::NoClient,
            primary: PumpState::Unknown,
            secondary: PumpState::Unknown,
        }
    }

    /// What to do first: tell the bus that no client is connected, and
    /// listen.
    pub fn start(&self) -> (actions: Vec<Action>)
        ensures
            actions@ == opening(),
    {
        let mut actions = Vec::new();
        actions.push(Action::Publish(Message::ClientDisconnected));
        actions.push(listen_action());
        actions
    }

    /// Takes in what a delivery says of the pumps. Returns the report of
    /// the transition, if the delivery was one.
    fn note(&mut self, d: Delivery) -> (r: Option<Report>)
        ensures
            *final(self) == old(self).noting(d),
            r == match change_of(d) {
                Some((pump, state)) => state_report(pump, state),
                None => None,
            },
    {
        match d {
            Delivery::Message(m) => match m.change() {
                Some((pump, state)) => {
                    match pump {
                        Pump::Primary => {
                            self.primary = state;
                        },
                        Pump::Secondary => {
                            self.secondary = state;
                        },
                    }
                    Report::of_state(pump, state)
                },
                None => None,
            },
            Delivery::Lagged(_) => None,
        }
    }

    /// One step while no client is connected.
    fn wait_for_client(&mut self, event: Event) -> (actions: Vec<Action>)
        requires
            !old(self).connected(),
        ensures
            *final(self) == old(self).after(event),
            actions@ == old(self).reaction(event),
    {
        let mut actions = Vec::new();
        match event {
            Event::Bus(d) => {
                self.note(d);
            },
            Event::Accepted { peer, now } => {
                let addr = match peer {
                    Some(addr) => addr,
                    None => 0,
                };
                self.state = ServerState::Client { addr };
                actions.push(Action::Publish(Message::ClientConnected { addr }));
                let reports = initial_reports(now, &self.primary, &self.secondary);
                let mut i: usize = 0;
                while i < reports.len()
                    invariant
                        0 <= i <= reports@.len(),
                        actions@ == seq![Action::Publish(Message::ClientConnected { addr })]
                            + sends(reports@.take(i as int)),
                    decreases reports@.len() - i,
                {
                    actions.push(Action::Send(reports[i]));
                    i += 1;
                    assert(actions@ =~= seq![Action::Publish(Message::ClientConnected { addr })]
                        + sends(reports@.take(i as int)));
                }
                assert(reports@.take(i as int) =~= reports@);
                actions.push(Action::Flush);
            },
            Event::Inbound => {},
            Event::SendFailed => {},
        }
        actions
    }

    /// One step while a client is connected.
    fn serve_client(&mut self, event: Event) -> (actions: Vec<Action>)
        requires
            old(self).connected(),
        ensures
            *final(self) == old(self).after(event),
            actions@ == old(self).reaction(event),
    {
        let mut actions = Vec::new();
        match event {
            Event::Bus(d) => {
                match self.note(d) {
                    Some(report) => {
                        actions.push(Action::Send(report));
                        assert(actions@ =~= sends(seq![report]));
                    },
                    None => {
                        assert(sends(Seq::<Report>::empty()) =~= Seq::<Action>::empty());
                    },
                }
            },
            Event::Accepted { .. } => {},
            Event::Inbound | Event::SendFailed => {
                self.state = ServerState::NoClient;
                actions.push(Action::Close);
                actions.push(Action::Publish(Message::ClientDisconnected));
                actions.push(listen_action());
            },
        }
        actions
    }

    /// Takes in `event` and returns what to do about it, in order.
    pub fn step(&mut self, event: Event) -> (actions: Vec<Action>)
        ensures
            *final(self) == old(self).after(event),
            actions@ == old(self).reaction(event),
    {
        match self.state {
            ServerState::NoClient => self.wait_for_client(event),
            ServerState::Client { .. } => self.serve_client(event),
        }
    }
}

fn listen_action() -> (a: Action)
    ensures
        a == listen(),
{
    Action::Listen {
        port: SERVICE_PORT,
        timeout_secs: IDLE_TIMEOUT_SECS,
        keep_alive_secs: KEEP_ALIVE_SECS,
    }
}

/// The reports that open a connection, in the order in which they are
/// sent.
pub fn initial_reports(now: u64, pri: &PumpState, sec: &PumpState) -> (reports: Vec<Report>)
    ensures
        reports@ == burst(now, *pri, *sec),
{
    let mut reports = Vec::new();
    reports.push(Report::keepalive(now));
    if let Some(r) = Report::of_state(Pump::Primary, *pri) {
        reports.push(r);
    }
    if let Some(r) = Report::of_state(Pump::Secondary, *sec) {
        reports.push(r);
    }
    assert(reports@ =~= burst(now, *pri, *sec));
    reports
}

/// Whether a write put a whole packet on the socket. `written` is the
/// number of bytes that the write took, or `None` where it failed.
pub fn report_written(written: Option<usize>) -> (whole: bool)
    ensures
        whole <==> written == Some(PACKET_LEN),
{
    match written {
        Some(n) => n == PACKET_LEN,
        None => false,
    }
}

/// The service after a run of events.
pub open spec fn run(s: Service, events: Seq<Event>) -> Service
    decreases events.len(),
{
    if events.len() == 0 {
        s
    } else {
        run(s, events.drop_last()).after(events.last())
    }
}

/// All that the service asked for over a run of events, in order.
pub open spec fn asked(s: Service, events: Seq<Event>) -> Seq<Action>
    decreases events.len(),
{
    if events.len() == 0 {
        Seq::empty()
    } else {
        asked(s, events.drop_last()) + run(s, events.drop_last()).reaction(events.last())
    }
}

/// The state that the bus last reported of `pump` in a run of events, if
/// it reported any.
pub open spec fn last_reported(pump: Pump, events: Seq<Event>) -> Option<PumpState>
    decreases events.len(),
{
    if events.len() == 0 {
        None
    } else {
        let earlier = last_reported(pump, events.drop_last());
        match events.last() {
            Event::Bus(d) => match change_of(d) {
                Some((p, state)) => if p == pump {
                    Some(state)
                } else {
                    earlier
                },
                None => earlier,
            },
            _ => earlier,
        }
    }
}

/// What the bus was last told of the client in a list of actions, if it
/// was told anything.
pub open spec fn presence_told(actions: Seq<Action>) -> Option<ServerState>
    decreases actions.len(),
{
    if actions.len() == 0 {
        None
    } else {
        match actions.last() {
            Action::Publish(Message::ClientConnected { addr }) => Some(
                ServerState::Client { addr },
            ),
            Action::Publish(Message::ClientDisconnected) => Some(ServerState::NoClient),
            _ => presence_told(actions.drop_last()),
        }
    }
}

/// The number of packets that a list of actions sends.
pub open spec fn packets(actions: Seq<Action>) -> nat
    decreases actions.len(),
{
    if actions.len() == 0 {
        0
    } else {
        packets(actions.drop_last()) + if actions.last() is Send {
            1nat
        } else {
            0nat
        }
    }
}

/// While the service waits for a client, nothing but a connection makes
/// it ask for anything, and it goes on waiting.
pub proof fn law_quiet_while_waiting(s: Service, event: Event)
    requires
        !s.connected(),
        !(event is Accepted),
    ensures
        s.reaction(event) == Seq::<Action>::empty(),
        !s.after(event).connected(),
{
}

/// One client at a time: while a client is connected, a further
/// connection changes nothing and is answered with nothing.
pub proof fn law_one_client_at_a_time(s: Service, event: Event)
    requires
        s.connected(),
        event is Accepted,
    ensures
        s.reaction(event) == Seq::<Action>::empty(),
        s.after(event) == s,
{
}

/// While a client is connected, a delivery from the bus is at most one
/// packet: one where it is a pump transition, none otherwise. The
/// connection stays.
pub proof fn law_one_packet_per_transition(s: Service, d: Delivery)
    requires
        s.connected(),
    ensures
        s.after(Event::Bus(d)).state == s.state,
        packets(s.reaction(Event::Bus(d))) == if change_of(d) is Some {
            1nat
        } else {
            0nat
        },
        s.reaction(Event::Bus(d)).len() == packets(s.reaction(Event::Bus(d))),
{
    let r = s.reaction(Event::Bus(d));
    if change_of(d) is Some {
        assert(r.len() == 1);
        assert(r.drop_last().len() == 0);
        assert(packets(r.drop_last()) == 0);
    }
}

/// The cache follows the bus: after any run of events, what the service
/// holds of a pump is what the bus last reported of it, or what it held
/// before where the bus reported nothing. Connections, failures and lag
/// reports do not touch it.
pub proof fn law_cache_follows_bus(s: Service, events: Seq<Event>)
    ensures
        run(s, events).primary == match last_reported(Pump::Primary, events) {
            Some(state) => state,
            None => s.primary,
        },
        run(s, events).secondary == match last_reported(Pump::Secondary, events) {
            Some(state) => state,
            None => s.secondary,
        },
    decreases events.len(),
{
    if events.len() > 0 {
        law_cache_follows_bus(s, events.drop_last());
    }
}

proof fn lemma_presence_of_joined(first: Seq<Action>, second: Seq<Action>)
    ensures
        presence_told(first + second) == match presence_told(second) {
            Some(state) => Some(state),
            None => presence_told(first),
        },
    decreases second.len(),
{
    if second.len() == 0 {
        assert(first + second =~= first);
    } else {
        assert((first + second).drop_last() =~= first + second.drop_last());
        assert((first + second).last() == second.last());
        lemma_presence_of_joined(first, second.drop_last());
    }
}

proof fn lemma_sends_tell_nothing(reports: Seq<Report>)
    ensures
        presence_told(sends(reports)) is None,
    decreases reports.len(),
{
    if reports.len() > 0 {
        assert(sends(reports).drop_last() =~= sends(reports.drop_last()));
        lemma_sends_tell_nothing(reports.drop_last());
    }
}

/// The bus knows whether a client is connected: from boot on, after any
/// run of events, the last thing that the service published of the client
/// is the state that it is in.
pub proof fn law_bus_knows_presence(events: Seq<Event>)
    ensures
        ({
            let boot = Service {
                state: ServerState::NoClient,
                primary: PumpState::Unknown,
                secondary: PumpState::Unknown,
            };
            presence_told(opening() + asked(boot, events)) == Some(run(boot, events).state)
        }),
    decreases events.len(),
{
    let boot = Service {
        state: ServerState::NoClient,
        primary: PumpState::Unknown,
        secondary: PumpState::Unknown,
    };
    let opening = opening();
    if events.len() == 0 {
        assert(opening + asked(boot, events) =~= opening);
        assert(opening.drop_last() =~= seq![Action::Publish(Message::ClientDisconnected)]);
        assert(presence_told(opening) == Some(ServerState::NoClient)) by {
            reveal_with_fuel(presence_told, 3);
        }
    } else {
        let head = events.drop_last();
        law_bus_knows_presence(head);
        let mid = run(boot, head);
        let now = mid.reaction(events.last());
        assert(opening + asked(boot, events) =~= (opening + asked(boot, head)) + now);
        lemma_presence_of_joined(opening + asked(boot, head), now);
        match events.last() {
            Event::Bus(d) => {
                match change_of(d) {
                    Some((pump, state)) => {
                        lemma_sends_tell_nothing(listed(state_report(pump, state)));
                    },
                    None => {},
                }
            },
            Event::Accepted { peer, now: stamp } => {
                if !mid.connected() {
                    let told = seq![
                        Action::Publish(Message::ClientConnected { addr: peer_address(peer) }),
                    ];
                    let burst_sends = sends(burst(stamp, mid.primary, mid.secondary));
                    lemma_sends_tell_nothing(burst(stamp, mid.primary, mid.secondary));
                    lemma_presence_of_joined(told, burst_sends);
                    lemma_presence_of_joined(told + burst_sends, seq![Action::Flush]);
                    assert(presence_told(seq![Action::Flush]) is None) by {
                        reveal_with_fuel(presence_told, 2);
                    }
                    assert(presence_told(told) == Some(
                        ServerState::Client { addr: peer_address(peer) },
                    ));
                }
            },
            Event::Inbound => {
                if mid.connected() {
                    assert(presence_told(hang_up()) == Some(ServerState::NoClient)) by {
                        assert(hang_up().drop_last() =~= seq![
                            Action::Close,
                            Action::Publish(Message::ClientDisconnected),
                        ]);
                        assert(hang_up().last() == listen());
                        reveal_with_fuel(presence_told, 3);
                    }
                }
            },
            Event::SendFailed => {
                if mid.connected() {
                    assert(presence_told(hang_up()) == Some(ServerState::NoClient)) by {
                        assert(hang_up().drop_last() =~= seq![
                            Action::Close,
                            Action::Publish(Message::ClientDisconnected),
                        ]);
                        assert(hang_up().last() == listen());
                        reveal_with_fuel(presence_told, 3);
                    }
                }
            },
        }
    }
}

/// The events that hand a run of deliveries to the service.
pub open spec fn bus_events(deliveries: Seq<Delivery>) -> Seq<Event> {
    Seq::new(deliveries.len(), |i: int| Event::Bus(deliveries[i]))
}

/// The reports of the pump transitions in a run of deliveries, in order.
pub open spec fn transitions(deliveries: Seq<Delivery>) -> Seq<Report>
    decreases deliveries.len(),
{
    if deliveries.len() == 0 {
        Seq::empty()
    } else {
        transitions(deliveries.drop_last()) + listed(
            match change_of(deliveries.last()) {
                Some((pump, state)) => state_report(pump, state),
                None => None,
            },
        )
    }
}

proof fn lemma_sends_of_joined(first: Seq<Report>, second: Seq<Report>)
    ensures
        sends(first + second) == sends(first) + sends(second),
{
    assert(sends(first + second) =~= sends(first) + sends(second));
}

/// Packets go out in the order of the bus: while a client stays
/// connected, what the service sends over a run of deliveries is one
/// packet for each pump transition among them, in the order in which the
/// bus delivered them, and nothing else.
pub proof fn law_packets_in_bus_order(s: Service, deliveries: Seq<Delivery>)
    requires
        s.connected(),
    ensures
        run(s, bus_events(deliveries)).state == s.state,
        asked(s, bus_events(deliveries)) == sends(transitions(deliveries)),
    decreases deliveries.len(),
{
    let events = bus_events(deliveries);
    if deliveries.len() == 0 {
        assert(sends(transitions(deliveries)) =~= Seq::<Action>::empty());
    } else {
        let head = deliveries.drop_last();
        assert(events.drop_last() =~= bus_events(head));
        assert(events.last() == Event::Bus(deliveries.last()));
        law_packets_in_bus_order(s, head);
        let now = listed(
            match change_of(deliveries.last()) {
                Some((pump, state)) => state_report(pump, state),
                None => None,
            },
        );
        lemma_sends_of_joined(transitions(head), now);
        assert(sends(Seq::<Report>::empty()) =~= Seq::<Action>::empty());
    }
}

/// What is known of `pump` after a run of events: what the bus last
/// reported of it, or `before` where it reported nothing.
pub open spec fn last_known(before: PumpState, pump: Pump, events: Seq<Event>) -> PumpState {
    match last_reported(pump, events) {
        Some(state) => state,
        None => before,
    }
}

/// A client is told the last known state: whatever happened before, a
/// client that is accepted while none is connected is announced on the
/// bus and sent the keepalive with the current timestamp, then what the
/// bus last reported of the primary pump, then of the secondary, each
/// only if anything is known of it.
pub proof fn law_burst_replays_last_known(
    s: Service,
    events: Seq<Event>,
    peer: Option<u32>,
    now: u64,
)
    requires
        !run(s, events).connected(),
    ensures
        run(s, events).reaction(Event::Accepted { peer, now }) == seq![
            Action::Publish(Message::ClientConnected { addr: peer_address(peer) }),
        ] + sends(
            seq![keepalive(now)] + listed(
                state_report(Pump::Primary, last_known(s.primary, Pump::Primary, events)),
            ) + listed(
                state_report(Pump::Secondary, last_known(s.secondary, Pump::Secondary, events)),
            ),
        ) + seq![Action::Flush],
        run(s, events).after(Event::Accepted { peer, now }).state == (ServerState::Client {
            addr: peer_address(peer),
        }),
{
    law_cache_follows_bus(s, events);
}

/// The deliveries that hand a run of messages to a subscriber.
pub open spec fn messages(events: Seq<Message>) -> Seq<Delivery> {
    Seq::new(events.len(), |i: int| Delivery::Message(events[i]))
}

/// From the bus to the wire nothing is lost and nothing changes place:
/// while a client stays connected and the service reads its subscription
/// often enough to keep pace, the packets it sends are one for each pump
/// transition among the events it has read, which are the first of those
/// published, in the order in which they were published.
pub proof fn law_client_sees_every_transition(s: Service, ops: Seq<BusOp>, depth: nat)
    requires
        s.connected(),
        keeps_pace(ops, depth),
    ensures
        ({
            let got = delivered(fresh(), ops, depth);
            let read = published(ops).take(got.len() as int);
            &&& got.len() <= published(ops).len()
            &&& got == messages(read)
            &&& asked(s, bus_events(got)) == sends(transitions(messages(read)))
        }),
{
    let got = delivered(fresh(), ops, depth);
    let read = published(ops).take(got.len() as int);
    law_keeping_pace_loses_nothing(ops, depth);
    assert(got =~= messages(read));
    law_packets_in_bus_order(s, got);
}

} // verus!
