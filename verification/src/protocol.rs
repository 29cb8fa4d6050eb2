//! The wire format: fixed 16-byte big-endian packets, server to client.
//!
//! ```text
//!      +----+----+----+----+----+----+----+----+
//!   0  |         microsecond timestamp         |
//!      +----+----+----+----+----+----+----+----+
//!   8  | 00 | 00 | 00 | 00 | 00 | 00 | EC | TC |
//!      +----+----+----+----+----+----+----+----+
//! ```

use crate::types::{Pump, PumpState};
use vstd::prelude::*;

verus! {

/// Length of every packet on the wire.
pub const PACKET_LEN: usize = 16;

/// Type code: keepalive, carries only the controller's timestamp.
pub const NOOP: u8 = 0x00;

/// Type code: error condition; the error-code byte is populated.
pub const ERROR: u8 = 0x01;

/// Type code: primary pump turned off.
pub const PRIMARY_OFF: u8 = 0x02;

/// Type code: primary pump turned on.
pub const PRIMARY_ON: u8 = 0x03;

/// Type code: secondary pump turned off.
pub const SECONDARY_OFF: u8 = 0x04;

/// Type code: secondary pump turned on.
pub const SECONDARY_ON: u8 = 0x05;

/// The eight bytes of `stamp`, most significant first.
pub open spec fn stamp_bytes(stamp: u64) -> Seq<u8> {
    seq![
        (stamp / 0x100_0000_0000_0000 % 0x100) as u8,
        (stamp / 0x1_0000_0000_0000 % 0x100) as u8,
        (stamp / 0x100_0000_0000 % 0x100) as u8,
        (stamp / 0x1_0000_0000 % 0x100) as u8,
        (stamp / 0x100_0000 % 0x100) as u8,
        (stamp / 0x1_0000 % 0x100) as u8,
        (stamp / 0x100 % 0x100) as u8,
        (stamp % 0x100) as u8,
    ]
}

/// The packet for a timestamp, a type code and an error code: the
/// timestamp big-endian, six reserved zero bytes, then EC and TC.
pub open spec fn packet_bytes(stamp: u64, tc: u8, ec: u8) -> Seq<u8> {
    stamp_bytes(stamp) + seq![0u8, 0u8, 0u8, 0u8, 0u8, 0u8, ec, tc]
}

/// Writes the packet for `(stamp, tc, ec)` into `buf`.
pub fn build_packet(stamp: u64, tc: u8, ec: u8, buf: &mut [u8; 16])
    ensures
        final(buf)@ == packet_bytes(stamp, tc, ec),
{
    assert({
        &&& (stamp >> 56) as u8 == (stamp / 0x100_0000_0000_0000 % 0x100) as u8
        &&& (stamp >> 48) as u8 == (stamp / 0x1_0000_0000_0000 % 0x100) as u8
        &&& (stamp >> 40) as u8 == (stamp / 0x100_0000_0000 % 0x100) as u8
        &&& (stamp >> 32) as u8 == (stamp / 0x1_0000_0000 % 0x100) as u8
        &&& (stamp >> 24) as u8 == (stamp / 0x100_0000 % 0x100) as u8
        &&& (stamp >> 16) as u8 == (stamp / 0x1_0000 % 0x100) as u8
        &&& (stamp >> 8) as u8 == (stamp / 0x100 % 0x100) as u8
        &&& stamp as u8 == (stamp % 0x100) as u8
    }) by (bit_vector);
    buf[0] = (stamp >> 56) as u8;
    buf[1] = (stamp >> 48) as u8;
    buf[2] = (stamp >> 40) as u8;
    buf[3] = (stamp >> 32) as u8;
    buf[4] = (stamp >> 24) as u8;
    buf[5] = (stamp >> 16) as u8;
    buf[6] = (stamp >> 8) as u8;
    buf[7] = stamp as u8;
    buf[8] = 0;
    buf[9] = 0;
    buf[10] = 0;
    buf[11] = 0;
    buf[12] = 0;
    buf[13] = 0;
    buf[14] = ec;
    buf[15] = tc;
    assert(buf@ =~= packet_bytes(stamp, tc, ec));
}

/// The fields of one packet: timestamp, type code and error code.
#[derive(Clone, Copy, Debug, PartialEq, Eq, Structural)]
pub struct Report {
    pub stamp: u64,
    pub tc: u8,
    pub ec: u8,
}

/// The type code that reports `pump` running or stopped.
pub open spec fn pump_code(pump: Pump, running: bool) -> u8 {
    match (pump, running) {
        (Pump::Primary, false) => PRIMARY_OFF,
        (Pump::Primary, true) => PRIMARY_ON,
        (Pump::Secondary, false) => SECONDARY_OFF,
        (Pump::Secondary, true) => SECONDARY_ON,
    }
}

/// The keepalive report: the controller's timestamp and nothing else.
pub open spec fn keepalive(now: u64) -> Report {
    Report { stamp: now, tc: NOOP, ec: 0 }
}

/// The report of a pump's state: none while the state is unknown, else
/// the pump's type code with the timestamp of the transition.
pub open spec fn state_report(pump: Pump, state: PumpState) -> Option<Report> {
    match state {
        PumpState::Off(stamp) => Some(Report { stamp, tc: pump_code(pump, false), ec: 0 }),
        PumpState::On(stamp) => Some(Report { stamp, tc: pump_code(pump, true), ec: 0 }),
        PumpState::Unknown => None,
    }
}

impl Report {
    /// The keepalive report for the timestamp `now`.
    pub fn keepalive(now: u64) -> (r: Report)
        ensures
            r == keepalive(now),
    {
        Report { stamp: now, tc: NOOP, ec: 0 }
    }

    /// The report of `pump` being in `state`, if the state is known.
    pub fn of_state(pump: Pump, state: PumpState) -> (r: Option<Report>)
        ensures
            r == state_report(pump, state),
    {
        match (pump, state) {
            (_, PumpState::Unknown) => None,
            (Pump::Primary, PumpState::Off(stamp)) => Some(Report { stamp, tc: PRIMARY_OFF, ec: 0 }),
            (Pump::Primary, PumpState::On(stamp)) => Some(Report { stamp, tc: PRIMARY_ON, ec: 0 }),
            (Pump::Secondary, PumpState::Off(stamp)) => Some(
                Report { stamp, tc: SECONDARY_OFF, ec: 0 },
            ),
            (Pump::Secondary, PumpState::On(stamp)) => Some(
                Report { stamp, tc: SECONDARY_ON, ec: 0 },
            ),
        }
    }

    /// This report as the sixteen bytes that go on the wire.
    pub fn to_bytes(&self) -> (buf: [u8; 16])
        ensures
            buf@ == packet_bytes(self.stamp, self.tc, self.ec),
    {
        let mut buf = [0u8; 16];
        build_packet(self.stamp, self.tc, self.ec, &mut buf);
        buf
    }
}

/// Why a byte string is not a packet.
#[derive(Clone, Copy, Debug, PartialEq, Eq, Structural)]
pub enum PacketError {
    /// It is not exactly sixteen bytes long.
    Length,
    /// One of the six reserved bytes is not zero.
    Reserved,
    /// The type code is none of the six defined ones.
    TypeCode,
}

/// The number that the first eight bytes spell, most significant first.
pub open spec fn stamp_value(bytes: Seq<u8>) -> int {
    bytes[0] * 0x100_0000_0000_0000 + bytes[1] * 0x1_0000_0000_0000 + bytes[2] * 0x100_0000_0000
        + bytes[3] * 0x1_0000_0000 + bytes[4] * 0x100_0000 + bytes[5] * 0x1_0000 + bytes[6] * 0x100
        + bytes[7]
}

/// Whether the six bytes between the timestamp and the error code are zero.
pub open spec fn reserved_clear(bytes: Seq<u8>) -> bool {
    forall|i: int| 8 <= i < 14 ==> bytes[i] == 0
}

/// What a client reads out of `bytes`. The length is tested first, then the
/// reserved bytes, then the type code; the error code is taken as it is.
pub open spec fn packet_fields(bytes: Seq<u8>) -> Result<Report, PacketError> {
    if bytes.len() != PACKET_LEN {
        Err(PacketError::Length)
    } else if !reserved_clear(bytes) {
        Err(PacketError::Reserved)
    } else if bytes[15] > SECONDARY_ON {
        Err(PacketError::TypeCode)
    } else {
        Ok(Report { stamp: stamp_value(bytes) as u64, tc: bytes[15], ec: bytes[14] })
    }
}

/// Reads a packet back into its fields.
pub fn parse_packet(buf: &[u8]) -> (r: Result<Report, PacketError>)
    ensures
        r == packet_fields(buf@),
{
    if buf.len() != PACKET_LEN {
        return Err(PacketError::Length);
    }
    let mut i: usize = 8;
    while i < 14
        invariant
            8 <= i <= 14,
            buf@.len() == 16,
            forall|j: int| 8 <= j < i ==> buf@[j] == 0,
        decreases 14 - i,
    {
        if buf[i] != 0 {
            return Err(PacketError::Reserved);
        }
        i += 1;
    }
    if buf[15] > SECONDARY_ON {
        return Err(PacketError::TypeCode);
    }
    let stamp: u64 = (buf[0] as u64) * 0x100_0000_0000_0000 + (buf[1] as u64) * 0x1_0000_0000_0000
        + (buf[2] as u64) * 0x100_0000_0000 + (buf[3] as u64) * 0x1_0000_0000 + (buf[4] as u64)
        * 0x100_0000 + (buf[5] as u64) * 0x1_0000 + (buf[6] as u64) * 0x100 + (buf[7] as u64);
    Ok(Report { stamp, tc: buf[15], ec: buf[14] })
}

proof fn lemma_bytes_spell_stamp(x: u64)
    by (bit_vector)
    ensures
        x == (x / 0x100_0000_0000_0000 % 0x100) * 0x100_0000_0000_0000 + (x / 0x1_0000_0000_0000
            % 0x100) * 0x1_0000_0000_0000 + (x / 0x100_0000_0000 % 0x100) * 0x100_0000_0000 + (x
            / 0x1_0000_0000 % 0x100) * 0x1_0000_0000 + (x / 0x100_0000 % 0x100) * 0x100_0000 + (x
            / 0x1_0000 % 0x100) * 0x1_0000 + (x / 0x100 % 0x100) * 0x100 + x % 0x100,
{
}

proof fn lemma_stamp_splits_into_bytes(
    x: u64,
    b0: u8,
    b1: u8,
    b2: u8,
    b3: u8,
    b4: u8,
    b5: u8,
    b6: u8,
    b7: u8,
)
    by (bit_vector)
    requires
        x == b0 * 0x100_0000_0000_0000 + b1 * 0x1_0000_0000_0000 + b2 * 0x100_0000_0000 + b3
            * 0x1_0000_0000 + b4 * 0x100_0000 + b5 * 0x1_0000 + b6 * 0x100 + b7,
    ensures
        x / 0x100_0000_0000_0000 % 0x100 == b0,
        x / 0x1_0000_0000_0000 % 0x100 == b1,
        x / 0x100_0000_0000 % 0x100 == b2,
        x / 0x1_0000_0000 % 0x100 == b3,
        x / 0x100_0000 % 0x100 == b4,
        x / 0x1_0000 % 0x100 == b5,
        x / 0x100 % 0x100 == b6,
        x % 0x100 == b7,
{
}

/// Encoding a timestamp, one of the six type codes and an error code, then
/// decoding the sixteen bytes, gives the same three values back.
pub proof fn law_packet_round_trip(stamp: u64, tc: u8, ec: u8)
    requires
        tc <= SECONDARY_ON,
    ensures
        packet_fields(packet_bytes(stamp, tc, ec)) == Ok::<Report, PacketError>(
            Report { stamp, tc, ec },
        ),
{
    let bytes = packet_bytes(stamp, tc, ec);
    assert(bytes.len() == 16);
    assert(reserved_clear(bytes));
    lemma_bytes_spell_stamp(stamp);
    assert(stamp_value(bytes) == stamp);
}

/// A byte string that decodes is the encoding of what it decodes to: no
/// two packets carry the same fields.
pub proof fn law_packet_canonical(bytes: Seq<u8>)
    requires
        packet_fields(bytes) is Ok,
    ensures
        ({
            let r = packet_fields(bytes)->Ok_0;
            packet_bytes(r.stamp, r.tc, r.ec) == bytes
        }),
{
    let r = packet_fields(bytes)->Ok_0;
    let again = packet_bytes(r.stamp, r.tc, r.ec);
    assert(stamp_value(bytes) == r.stamp);
    lemma_stamp_splits_into_bytes(
        r.stamp,
        bytes[0],
        bytes[1],
        bytes[2],
        bytes[3],
        bytes[4],
        bytes[5],
        bytes[6],
        bytes[7],
    );
    assert forall|i: int| 0 <= i < 16 implies again[i] == bytes[i] by {
        if 8 <= i < 14 {
            assert(bytes[i] == 0);
        }
    }
    assert(again =~= bytes);
}

} // verus!
