use sump_telemetry::protocol::{
    build_packet, parse_packet, PacketError, Report, ERROR, NOOP, PACKET_LEN, PRIMARY_OFF,
    PRIMARY_ON, SECONDARY_OFF, SECONDARY_ON,
};
use sump_telemetry::types::{Pump, PumpState};

#[test]
fn type_codes_are_the_documented_ones() {
    assert_eq!(NOOP, 0x00);
    assert_eq!(ERROR, 0x01);
    assert_eq!(PRIMARY_OFF, 0x02);
    assert_eq!(PRIMARY_ON, 0x03);
    assert_eq!(SECONDARY_OFF, 0x04);
    assert_eq!(SECONDARY_ON, 0x05);
    assert_eq!(PACKET_LEN, 16);
}

#[test]
fn packet_for_primary_off_at_5000() {
    let mut buf = [0xAAu8; 16];
    build_packet(5000, PRIMARY_OFF, 0, &mut buf);
    assert_eq!(buf, [0, 0, 0, 0, 0, 0, 0x13, 0x88, 0, 0, 0, 0, 0, 0, 0, 0x02]);
}

#[test]
fn timestamp_is_big_endian() {
    let mut buf = [0u8; 16];
    build_packet(0x0102_0304_0506_0708, NOOP, 0, &mut buf);
    assert_eq!(buf, [1, 2, 3, 4, 5, 6, 7, 8, 0, 0, 0, 0, 0, 0, 0, 0]);
    assert_eq!(&buf[0..8], &0x0102_0304_0506_0708u64.to_be_bytes());
}

#[test]
fn largest_timestamp_fills_eight_bytes() {
    let mut buf = [0u8; 16];
    build_packet(u64::MAX, SECONDARY_ON, 0, &mut buf);
    assert_eq!(
        buf,
        [0xFF, 0xFF, 0xFF, 0xFF, 0xFF, 0xFF, 0xFF, 0xFF, 0, 0, 0, 0, 0, 0, 0, 0x05]
    );
}

#[test]
fn error_packet_carries_the_error_code() {
    let mut buf = [0u8; 16];
    build_packet(1, ERROR, 0x7F, &mut buf);
    assert_eq!(buf, [0, 0, 0, 0, 0, 0, 0, 1, 0, 0, 0, 0, 0, 0, 0x7F, 0x01]);
}

#[test]
fn build_overwrites_every_byte() {
    let mut buf = [0xFFu8; 16];
    build_packet(0, NOOP, 0, &mut buf);
    assert_eq!(buf, [0u8; 16]);
}

#[test]
fn round_trip_for_every_type_code() {
    let stamps = [0u64, 1, 255, 256, 5000, 0xDEAD_BEEF, 1 << 56, u64::MAX - 1, u64::MAX];
    for &stamp in stamps.iter() {
        for tc in 0u8..=5 {
            for &ec in [0u8, 1, 200, 255].iter() {
                let mut buf = [0u8; 16];
                build_packet(stamp, tc, ec, &mut buf);
                assert_eq!(parse_packet(&buf), Ok(Report { stamp, tc, ec }));
            }
        }
    }
}

#[test]
fn parse_reads_fields_from_bytes() {
    let bytes = [0, 0, 0, 0, 0, 0, 0x03, 0xE8, 0, 0, 0, 0, 0, 0, 0, 0x03];
    assert_eq!(
        parse_packet(&bytes),
        Ok(Report { stamp: 1000, tc: PRIMARY_ON, ec: 0 })
    );
}

#[test]
fn parse_rejects_wrong_length() {
    assert_eq!(parse_packet(&[]), Err(PacketError::Length));
    assert_eq!(parse_packet(&[0u8; 15]), Err(PacketError::Length));
    assert_eq!(parse_packet(&[0u8; 17]), Err(PacketError::Length));
}

#[test]
fn parse_rejects_reserved_bytes() {
    for i in 8..14 {
        let mut bytes = [0u8; 16];
        bytes[i] = 1;
        assert_eq!(parse_packet(&bytes), Err(PacketError::Reserved));
    }
}

#[test]
fn parse_rejects_unknown_type_code() {
    let mut bytes = [0u8; 16];
    bytes[15] = 6;
    assert_eq!(parse_packet(&bytes), Err(PacketError::TypeCode));
    bytes[15] = 0xFF;
    assert_eq!(parse_packet(&bytes), Err(PacketError::TypeCode));
}

#[test]
fn parse_tests_reserved_bytes_before_type_code() {
    let mut bytes = [0u8; 16];
    bytes[13] = 9;
    bytes[15] = 9;
    assert_eq!(parse_packet(&bytes), Err(PacketError::Reserved));
}

#[test]
fn parsed_packet_builds_the_same_bytes() {
    let bytes = [9, 8, 7, 6, 5, 4, 3, 2, 0, 0, 0, 0, 0, 0, 3, 1];
    let r = parse_packet(&bytes).unwrap();
    assert_eq!(r.to_bytes(), bytes);
}

#[test]
fn keepalive_report() {
    assert_eq!(Report::keepalive(77), Report { stamp: 77, tc: 0x00, ec: 0 });
}

#[test]
fn report_of_each_pump_state() {
    assert_eq!(Report::of_state(Pump::Primary, PumpState::Unknown), None);
    assert_eq!(Report::of_state(Pump::Secondary, PumpState::Unknown), None);
    assert_eq!(
        Report::of_state(Pump::Primary, PumpState::Off(10)),
        Some(Report { stamp: 10, tc: 0x02, ec: 0 })
    );
    assert_eq!(
        Report::of_state(Pump::Primary, PumpState::On(11)),
        Some(Report { stamp: 11, tc: 0x03, ec: 0 })
    );
    assert_eq!(
        Report::of_state(Pump::Secondary, PumpState::Off(12)),
        Some(Report { stamp: 12, tc: 0x04, ec: 0 })
    );
    assert_eq!(
        Report::of_state(Pump::Secondary, PumpState::On(13)),
        Some(Report { stamp: 13, tc: 0x05, ec: 0 })
    );
}

#[test]
fn report_to_bytes_is_the_built_packet() {
    let r = Report { stamp: 2000, tc: SECONDARY_ON, ec: 0 };
    let mut buf = [0u8; 16];
    build_packet(2000, SECONDARY_ON, 0, &mut buf);
    assert_eq!(r.to_bytes(), buf);
    assert_eq!(r.to_bytes(), [0, 0, 0, 0, 0, 0, 0x07, 0xD0, 0, 0, 0, 0, 0, 0, 0, 5]);
}
