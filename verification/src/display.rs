//! Status display: what the screen shows, decided from the bus and the
//! clock. Drawing is left to whoever owns the screen.
//!
//! The screen has a sidebar with two icons and a text area. To spare the
//! panel, the two swap sides every quarter of an hour. A running pump
//! always has the text area; while both pumps are off, it shows by turns
//! nothing, the state of the WiFi link, and whether a client is connected.

use crate::bus::Delivery;
use crate::types::{Message, Pump, PumpState, ServerState};
use vstd::prelude::*;

verus! {

/// Milliseconds between two frames.
pub const FRAME_MS: u64 = 250;

/// Vertical position of the WiFi icon in the sidebar.
pub const WIFI_ICON_Y: i32 = 4;

/// Vertical position of the client icon in the sidebar.
pub const CLIENT_ICON_Y: i32 = 36;

/// Milliseconds after which the layout swaps sides: a quarter of an hour.
pub const FLIP_LAYOUT: u64 = 900_000;

/// Milliseconds after which the layout is back where it was.
pub const FLIP_CYCLE: u64 = 1_800_000;

/// What the display knows of the WiFi link.
#[derive(Clone, Copy, Debug, PartialEq, Eq, Structural)]
pub enum WiFiConfig {
    Connected { addr: u32 },
    Disconnected,
}

/// A piece of text for the text area, centred on the frame's `center`.
#[derive(Clone, Copy, Debug, PartialEq, Eq)]
pub struct Label {
    /// The words.
    pub text: &'static str,
    /// An IPv4 address to show two lines below the words, its four
    /// numbers with dots between them.
    pub address: Option<u32>,
    /// Vertical position of the first line.
    pub y: i32,
    /// Whether the text is set in the large bold type.
    pub bold: bool,
}

/// A label as the contracts see it.
pub struct LabelView {
    pub text: Seq<char>,
    pub address: Option<u32>,
    pub y: int,
    pub bold: bool,
}

impl View for Label {
    type V = LabelView;

    open spec fn view(&self) -> LabelView {
        LabelView { text: self.text@, address: self.address, y: self.y as int, bold: self.bold }
    }
}

/// One frame, ready to be drawn.
#[derive(Clone, Copy, Debug, PartialEq, Eq)]
pub struct Frame {
    /// Horizontal offset of the sidebar's icons.
    pub sidebar: i32,
    /// Horizontal centre of the text area.
    pub center: i32,
    /// What the text area shows, if anything.
    pub caption: Option<Label>,
    /// Whether the WiFi icon is drawn: always while the link is up, every
    /// other half second while it is not.
    pub wifi_icon: bool,
    /// Whether the lower icon is the one for a connected client.
    pub client_icon: bool,
}

/// The display's picture of the system.
#[derive(Clone, Copy, Debug, PartialEq, Eq, Structural)]
pub struct Display {
    pub server_state: ServerState,
    pub pri_state: PumpState,
    pub sec_state: PumpState,
    pub wifi_config: WiFiConfig,
}

/// The name of what is running, where a pump is.
pub open spec fn running_text(pri: PumpState, sec: PumpState) -> Option<Seq<char>> {
    if pri is On && sec is On {
        Some("Both"@)
    } else if sec is On {
        Some("Secondary"@)
    } else if pri is On {
        Some("Primary"@)
    } else {
        None
    }
}

/// The text for the pumps: which of them is running, or `None` while
/// neither is.
pub fn pump_message(pri: &PumpState, sec: &PumpState) -> (r: Option<&'static str>)
    ensures
        match r {
            Some(text) => running_text(*pri, *sec) == Some(text@),
            None => running_text(*pri, *sec) is None,
        },
{
    match (pri, sec) {
        (PumpState::On(_), PumpState::On(_)) => Some("Both"),
        (_, PumpState::On(_)) => Some("Secondary"),
        (PumpState::On(_), _) => Some("Primary"),
        (_, _) => None,
    }
}

/// The label for the pumps: what is running, in large type.
pub open spec fn pump_label(pri: PumpState, sec: PumpState) -> Option<LabelView> {
    match running_text(pri, sec) {
        Some(text) => Some(LabelView { text, address: None, y: 32, bold: true }),
        None => None,
    }
}

/// The label for the WiFi link: its address, or that there is none.
pub open spec fn wifi_label(wifi: WiFiConfig) -> LabelView {
    match wifi {
        WiFiConfig::Connected { addr } => LabelView {
            text: "WiFi"@,
            address: Some(addr),
            y: 22,
            bold: false,
        },
        WiFiConfig::Disconnected => LabelView {
            text: "No WiFi\nconnection"@,
            address: None,
            y: 27,
            bold: false,
        },
    }
}

/// The label for the client: its address, or that there is none.
pub open spec fn client_label(state: ServerState) -> LabelView {
    match state {
        ServerState::Client { addr } => LabelView {
            text: "Client"@,
            address: Some(addr),
            y: 22,
            bold: false,
        },
        ServerState::NoClient => LabelView {
            text: "No client\nconnected"@,
            address: None,
            y: 27,
            bold: false,
        },
    }
}

/// The label that says which pumps are running, or `None` while neither
/// is.
pub fn report_pump_state(pri: &PumpState, sec: &PumpState) -> (r: Option<Label>)
    ensures
        match r {
            Some(label) => pump_label(*pri, *sec) == Some(label@),
            None => pump_label(*pri, *sec) is None,
        },
{
    match pump_message(pri, sec) {
        Some(text) => Some(Label { text, address: None, y: 32, bold: true }),
        None => None,
    }
}

/// The label that says how the WiFi link is.
pub fn report_wifi_state(wifi: &WiFiConfig) -> (label: Label)
    ensures
        label@ == wifi_label(*wifi),
{
    match wifi {
        WiFiConfig::Connected { addr } => Label {
            text: "WiFi",
            address: Some(*addr),
            y: 22,
            bold: false,
        },
        WiFiConfig::Disconnected => Label {
            text: "No WiFi\nconnection",
            address: None,
            y: 27,
            bold: false,
        },
    }
}

/// The label that says whether a client is connected.
pub fn report_client_state(state: &ServerState) -> (label: Label)
    ensures
        label@ == client_label(*state),
{
    match state {
        ServerState::Client { addr } => Label {
            text: "Client",
            address: Some(*addr),
            y: 22,
            bold: false,
        },
        ServerState::NoClient => Label {
            text: "No client\nconnected",
            address: None,
            y: 27,
            bold: false,
        },
    }
}

/// The four numbers of an IPv4 address, first to last.
pub open spec fn octets(addr: u32) -> Seq<u8> {
    seq![
        (addr / 0x100_0000 % 0x100) as u8,
        (addr / 0x1_0000 % 0x100) as u8,
        (addr / 0x100 % 0x100) as u8,
        (addr % 0x100) as u8,
    ]
}

/// Splits an address into the four numbers that are shown with dots
/// between them.
pub fn address_octets(addr: u32) -> (r: [u8; 4])
    ensures
        r@ == octets(addr),
{
    assert({
        &&& ((addr >> 24) & 0xFF) as u8 == (addr / 0x100_0000 % 0x100) as u8
        &&& ((addr >> 16) & 0xFF) as u8 == (addr / 0x1_0000 % 0x100) as u8
        &&& ((addr >> 8) & 0xFF) as u8 == (addr / 0x100 % 0x100) as u8
        &&& (addr & 0xFF) as u8 == (addr % 0x100) as u8
    }) by (bit_vector);
    let r = [
        ((addr >> 24) & 0xFF) as u8,
        ((addr >> 16) & 0xFF) as u8,
        ((addr >> 8) & 0xFF) as u8,
        (addr & 0xFF) as u8,
    ];
    assert(r@ =~= octets(addr));
    r
}

/// Whether the layout is the swapped one at `now` milliseconds.
pub open spec fn flipped(now: u64) -> bool {
    now % FLIP_CYCLE >= FLIP_LAYOUT
}

/// Whether the WiFi icon is drawn at `now` milliseconds.
pub open spec fn wifi_icon_shown(now: u64, config_up: bool) -> bool {
    config_up || now % 1000 >= 500
}

/// What the display knows of the link after a frame. Where the icon is
/// drawn and the link has come up, the address is taken (zero where there
/// is none); where the icon is not drawn, the link is down.
pub open spec fn wifi_after(
    wifi: WiFiConfig,
    now: u64,
    config_up: bool,
    address: Option<u32>,
) -> WiFiConfig {
    if wifi_icon_shown(now, config_up) {
        if wifi is Disconnected && config_up {
            WiFiConfig::Connected {
                addr: match address {
                    Some(addr) => addr,
                    None => 0,
                },
            }
        } else {
            wifi
        }
    } else {
        WiFiConfig::Disconnected
    }
}

/// What the text area of a display in state `d` shows at `now`
/// milliseconds. A running pump always has it. While both pumps are off,
/// each ten seconds show nothing for four, the link for three, and the
/// client for three.
pub open spec fn caption_at(d: Display, now: u64) -> Option<LabelView> {
    match pump_label(d.pri_state, d.sec_state) {
        Some(label) => Some(label),
        None => {
            let turn = now % 10_000;
            if turn < 4_000 {
                None
            } else if turn < 7_000 {
                Some(wifi_label(d.wifi_config))
            } else {
                Some(client_label(d.server_state))
            }
        },
    }
}

impl Display {
    /// The display with what the delivery says taken in. A lag report
    /// changes nothing.
    pub open spec fn noting(self, d: Delivery) -> Display {
        match d {
            Delivery::Message(Message::PumpOn { stamp, pump: Pump::Primary }) => Display {
                pri_state: PumpState::On(stamp),
                ..self
            },
            Delivery::Message(Message::PumpOn { stamp, pump: Pump::Secondary }) => Display {
                sec_state: PumpState::On(stamp),
                ..self
            },
            Delivery::Message(Message::PumpOff { stamp, pump: Pump::Primary }) => Display {
                pri_state: PumpState::Off(stamp),
                ..self
            },
            Delivery::Message(Message::PumpOff { stamp, pump: Pump::Secondary }) => Display {
                sec_state: PumpState::Off(stamp),
                ..self
            },
            Delivery::Message(Message::ClientConnected { addr }) => Display {
                server_state: ServerState::Client { addr },
                ..self
            },
            Delivery::Message(Message::ClientDisconnected) => Display {
                server_state: ServerState::NoClient,
                ..self
            },
            Delivery::Lagged(_) => self,
        }
    }

    /// The display at boot: no client, no link, nothing known of the
    /// pumps.
    pub fn new() -> (d: Self)
        ensures
            d == (Display {
                server_state: ServerState::NoClient,
                pri_state: PumpState::Unknown,
                sec_state: PumpState::Unknown,
                wifi_config: WiFiConfig::Disconnected,
            }),
    {
        Display {
            server_state: ServerState::NoClient,
            pri_state: PumpState::Unknown,
            sec_state: PumpState::Unknown,
            wifi_config: WiFiConfig::Disconnected,
        }
    }

    /// Takes in a delivery from the bus.
    pub fn note(&mut self, d: Delivery)
        ensures
            *final(self) == old(self).noting(d),
    {
        match d {
            Delivery::Message(Message::PumpOn { stamp, pump }) => match pump {
                Pump::Primary => {
                    self.pri_state = PumpState::On(stamp);
                },
                Pump::Secondary => {
                    self.sec_state = PumpState::On(stamp);
                },
            },
            Delivery::Message(Message::PumpOff { stamp, pump }) => match pump {
                Pump::Primary => {
                    self.pri_state = PumpState::Off(stamp);
                },
                Pump::Secondary => {
                    self.sec_state = PumpState::Off(stamp);
                },
            },
            Delivery::Message(Message::ClientConnected { addr }) => {
                self.server_state = ServerState::Client { addr };
            },
            Delivery::Message(Message::ClientDisconnected) => {
                self.server_state = ServerState::NoClient;
            },
            Delivery::Lagged(_) => {},
        }
    }

    /// Composes the frame for `now`, in milliseconds since boot.
    /// `config_up` says whether the network has an address, `address`
    /// which. The caption shows the link as the display knew it before
    /// this frame.
    pub fn tick(&mut self, now: u64, config_up: bool, address: Option<u32>) -> (frame: Frame)
        ensures
            *final(self) == (Display {
                wifi_config: wifi_after(old(self).wifi_config, now, config_up, address),
                ..*old(self)
            }),
            frame.sidebar == if flipped(now) {
                104i32
            } else {
                0i32
            },
            frame.center == if flipped(now) {
                52i32
            } else {
                76i32
            },
            match frame.caption {
                Some(label) => caption_at(*old(self), now) == Some(label@),
                None => caption_at(*old(self), now) is None,
            },
            frame.wifi_icon == wifi_icon_shown(now, config_up),
            frame.client_icon == (old(self).server_state is Client),
    {
        let flip_layout = now % FLIP_CYCLE >= FLIP_LAYOUT;
        let sidebar: i32 = if flip_layout {
            104
        } else {
            0
        };
        let center: i32 = if flip_layout {
            52
        } else {
            76
        };
        let caption = match report_pump_state(&self.pri_state, &self.sec_state) {
            Some(label) => Some(label),
            None => {
                let turn = now % 10_000;
                if turn < 4_000 {
                    None
                } else if turn < 7_000 {
                    Some(report_wifi_state(&self.wifi_config))
                } else {
                    Some(report_client_state(&self.server_state))
                }
            },
        };
        let wifi_icon = config_up || (now % 1000) >= 500;
        if wifi_icon {
            if matches!(self.wifi_config, WiFiConfig::Disconnected) && config_up {
                self.wifi_config = WiFiConfig::Connected {
                    addr: match address {
                        Some(addr) => addr,
                        None => 0,
                    },
                };
            }
        } else if matches!(self.wifi_config, WiFiConfig::Connected { .. }) {
            self.wifi_config = WiFiConfig::Disconnected;
        }
        let client_icon = matches!(self.server_state, ServerState::Client { .. });
        Frame { sidebar, center, caption, wifi_icon, client_icon }
    }
}

} // verus!
