//! Payloads that the real library encodes, read back.

use groundhog::dialect::largest_payload;
use groundhog::ident::{Ident, MavlinkId};
use groundhog::telemetry::{MavSeverity, Telemetry};
use groundhog::value::MavParamType;
use groundhog::wire::{
    checksum_holds, command_ack, decode, decode_frame, other_message, payload_fits, RawFrame,
    RawPayload, KNOWN_CAPABILITIES,
};
use mavio::dialects::common::enums;
use mavio::dialects::common::messages;
use mavio::dialects::common::Common;
use mavio::protocol::{Dialect, IntoPayload, MavLinkVersion, Message, Payload, V1, V2};
use mavio::Frame;

fn wire_name(raw: &[u8; 16]) -> Option<Ident> {
    let end = raw.iter().position(|b| *b == 0).unwrap_or(16);
    std::str::from_utf8(&raw[..end]).ok().and_then(Ident::new)
}

fn raw(payload: Payload) -> RawPayload {
    RawPayload {
        id: payload.id(),
        v2: payload.version() == MavLinkVersion::V2,
        bytes: payload.bytes().to_vec(),
    }
}

fn both(message: &dyn IntoPayload) -> Vec<RawPayload> {
    [MavLinkVersion::V1, MavLinkVersion::V2]
        .into_iter()
        .filter_map(|version| message.encode(version).ok())
        .map(raw)
        .collect()
}

fn read(id: u32, v2: bool, bytes: Vec<u8>) -> Option<Telemetry> {
    let payload = RawPayload { id, v2, bytes };
    assert!(payload_fits(&payload));
    decode(&payload, &wire_name)
}

fn bytes(size: usize, set: &[(usize, u8)]) -> Vec<u8> {
    let mut v = vec![0u8; size];
    for (at, b) in set {
        v[*at] = *b;
    }
    v
}

#[test]
fn heartbeats_are_read() {
    let message = messages::Heartbeat {
        type_: enums::MavType::Quadrotor,
        system_status: enums::MavState::Active,
        ..Default::default()
    };
    let payloads = both(&message);
    assert_eq!(payloads.len(), 2);
    for payload in payloads {
        match decode(&payload, &wire_name) {
            Some(Telemetry::Heartbeat(m)) => assert_eq!((m.mav_type, m.system_status), (2, 4)),
            _ => panic!("a heartbeat"),
        }
    }
}

#[test]
fn heartbeats_have_numbers_with_a_meaning() {
    assert!(read(0, false, bytes(9, &[(4, 44), (5, 20), (7, 8)])).is_some());
    assert!(read(0, true, bytes(9, &[(4, 44), (5, 20), (7, 8)])).is_some());
    assert!(read(0, false, bytes(9, &[(4, 45)])).is_none());
    assert!(read(0, false, bytes(9, &[(5, 21)])).is_none());
    assert!(read(0, true, bytes(9, &[(7, 9)])).is_none());
    // MAVLink 1 does not leave bytes away.
    assert!(read(0, false, bytes(8, &[(4, 2)])).is_none());
    assert!(read(0, false, bytes(10, &[(4, 2)])).is_none());
    assert!(read(0, true, bytes(5, &[(4, 2)])).is_some());
    assert!(read(0, true, vec![]).is_some());
}

#[test]
fn the_state_of_the_system_is_read() {
    let message = messages::SysStatus {
        voltage_battery: 12600,
        current_battery: -150,
        battery_remaining: -1,
        ..Default::default()
    };
    for payload in both(&message) {
        match decode(&payload, &wire_name) {
            Some(Telemetry::SysStatus(m)) => {
                assert_eq!(
                    (m.voltage_battery, m.current_battery, m.battery_remaining),
                    (12600, -150, -1)
                );
            }
            _ => panic!("the state of the system"),
        }
    }
    match read(1, true, bytes(43, &[(14, 1), (15, 2), (16, 0xff), (17, 0xff), (30, 0x80), (42, 9)])) {
        Some(Telemetry::SysStatus(m)) => {
            assert_eq!((m.voltage_battery, m.current_battery, m.battery_remaining), (513, -1, -128));
        }
        _ => panic!("the state of the system"),
    }
    assert!(read(1, false, bytes(43, &[])).is_none());
}

#[test]
fn parameters_are_read() {
    let mut param_id = [0u8; 16];
    param_id[..8].copy_from_slice(b"RC_SPEED");
    let message = messages::ParamValue {
        param_id,
        param_value: -2.5,
        param_type: enums::MavParamType::Real32,
        param_count: 700,
        param_index: 65535,
    };
    for payload in both(&message) {
        match decode(&payload, &wire_name) {
            Some(Telemetry::ParamValue(m)) => {
                assert_eq!(m.param_id.map(|n| n.as_str().to_string()), Some("RC_SPEED".to_string()));
                assert_eq!(m.param_value, (-2.5f32).to_bits());
                assert_eq!(m.param_type, MavParamType::Real32);
                assert_eq!((m.param_count, m.param_index), (700, 65535));
            }
            _ => panic!("a parameter"),
        }
    }
}

#[test]
fn parameters_have_types_with_a_meaning() {
    let types = [
        MavParamType::Uint8,
        MavParamType::Int8,
        MavParamType::Uint16,
        MavParamType::Int16,
        MavParamType::Uint32,
        MavParamType::Int32,
        MavParamType::Uint64,
        MavParamType::Int64,
        MavParamType::Real32,
        MavParamType::Real64,
    ];
    for (i, ty) in types.iter().enumerate() {
        match read(22, true, bytes(25, &[(24, i as u8 + 1), (8, 0xff)])) {
            Some(Telemetry::ParamValue(m)) => {
                assert_eq!(m.param_type, *ty);
                assert!(m.param_id.is_none());
            }
            _ => panic!("a parameter"),
        }
    }
    assert!(read(22, true, bytes(25, &[(24, 0)])).is_none());
    assert!(read(22, true, bytes(25, &[(24, 11)])).is_none());
    assert!(read(22, false, bytes(24, &[(8, 1)])).is_none());
}

#[test]
fn attitudes_are_read() {
    let message = messages::Attitude {
        roll: 0.1,
        pitch: -0.2,
        yaw: 3.0,
        rollspeed: 4.0,
        pitchspeed: 5.0,
        yawspeed: -6.0,
        ..Default::default()
    };
    for payload in both(&message) {
        match decode(&payload, &wire_name) {
            Some(Telemetry::Attitude(m)) => {
                assert_eq!(m.roll, 0.1f32.to_bits());
                assert_eq!(m.pitch, (-0.2f32).to_bits());
                assert_eq!(m.yaw, 3.0f32.to_bits());
                assert_eq!(m.rollspeed, 4.0f32.to_bits());
                assert_eq!(m.pitchspeed, 5.0f32.to_bits());
                assert_eq!(m.yawspeed, (-6.0f32).to_bits());
            }
            _ => panic!("an attitude"),
        }
    }
    assert!(read(30, false, bytes(27, &[])).is_none());
}

#[test]
fn quaternions_are_read() {
    let message = messages::AttitudeQuaternion {
        q1: 1.0,
        q2: 2.0,
        q3: 3.0,
        q4: 4.0,
        rollspeed: 5.0,
        pitchspeed: 6.0,
        yawspeed: 7.0,
        ..Default::default()
    };
    for payload in both(&message) {
        match decode(&payload, &wire_name) {
            Some(Telemetry::AttitudeQuaternion(m)) => {
                let got = [m.q1, m.q2, m.q3, m.q4, m.rollspeed, m.pitchspeed, m.yawspeed];
                let want = [1.0f32, 2.0, 3.0, 4.0, 5.0, 6.0, 7.0].map(f32::to_bits);
                assert_eq!(got, want);
            }
            _ => panic!("an attitude"),
        }
    }
    assert!(read(31, true, bytes(48, &[(47, 1)])).is_some());
    assert!(read(31, false, bytes(48, &[])).is_none());
}

#[test]
fn positions_are_read() {
    let message = messages::GlobalPositionInt {
        lat: -473_977_420,
        lon: 85_455_940,
        alt: -1,
        relative_alt: 123_456,
        vx: -100,
        vy: 200,
        vz: -32768,
        ..Default::default()
    };
    for payload in both(&message) {
        match decode(&payload, &wire_name) {
            Some(Telemetry::GlobalPositionInt(m)) => {
                assert_eq!((m.lat, m.lon, m.alt, m.relative_alt), (-473_977_420, 85_455_940, -1, 123_456));
                assert_eq!((m.vx, m.vy, m.vz), (-100, 200, -32768));
            }
            _ => panic!("a position"),
        }
    }
    assert!(read(33, false, bytes(26, &[])).is_none());
}

#[test]
fn filtered_positions_are_read() {
    let message = messages::GlobalPositionIntCov {
        lat: 1,
        lon: -2,
        alt: 3,
        relative_alt: -4,
        vx: 0.5,
        vy: -0.5,
        vz: 8.0,
        estimator_type: enums::MavEstimatorType::Gps,
        ..Default::default()
    };
    for payload in both(&message) {
        match decode(&payload, &wire_name) {
            Some(Telemetry::GlobalPositionIntCov(m)) => {
                assert_eq!((m.lat, m.lon, m.alt, m.relative_alt), (1, -2, 3, -4));
                assert_eq!([m.vx, m.vy, m.vz], [0.5f32, -0.5, 8.0].map(f32::to_bits));
            }
            _ => panic!("a position"),
        }
    }
    assert!(read(63, true, bytes(181, &[(180, 8)])).is_some());
    assert!(read(63, true, bytes(181, &[(180, 9)])).is_none());
    assert!(read(63, false, bytes(180, &[])).is_none());
}

#[test]
fn batteries_are_read() {
    let message = messages::BatteryStatus {
        voltages: [4000, 4001, 4002, 65535, 65535, 65535, 65535, 65535, 65535, 1],
        current_battery: 2500,
        battery_remaining: 77,
        ..Default::default()
    };
    for payload in both(&message) {
        match decode(&payload, &wire_name) {
            Some(Telemetry::BatteryStatus(m)) => {
                assert_eq!(m.voltages, [4000, 4001, 4002, 65535, 65535, 65535, 65535, 65535, 65535, 1]);
                assert_eq!((m.current_battery, m.battery_remaining), (2500, 77));
            }
            _ => panic!("a battery"),
        }
    }
}

#[test]
fn batteries_have_numbers_with_a_meaning() {
    assert!(read(147, true, bytes(54, &[(33, 4), (34, 4), (40, 7), (49, 2)])).is_some());
    for (at, b) in [(33, 5), (34, 5), (40, 8), (49, 3)] {
        assert!(read(147, true, bytes(54, &[(at, b)])).is_none());
    }
    assert!(read(147, false, bytes(36, &[(33, 4), (34, 4)])).is_some());
    assert!(read(147, false, bytes(36, &[(34, 5)])).is_none());
    assert!(read(147, false, bytes(54, &[])).is_none());
}

#[test]
fn capabilities_are_read_without_bits_that_stand_for_nothing() {
    let bits = [0xff, 0xff, 0xff, 0xff, 0xff, 0xff, 0xff, 0xff];
    let set: Vec<(usize, u8)> = bits.iter().enumerate().map(|(i, b)| (i, *b)).collect();
    for (v2, size) in [(true, 78), (false, 60)] {
        match read(148, v2, bytes(size, &set)) {
            Some(Telemetry::AutopilotVersion(m)) => assert_eq!(m.capabilities, KNOWN_CAPABILITIES),
            _ => panic!("a version"),
        }
    }
    match read(148, true, vec![0x10, 0x00, 0x02]) {
        Some(Telemetry::AutopilotVersion(m)) => assert_eq!(m.capabilities, 0x2_0010),
        _ => panic!("a version"),
    }
    assert!(read(148, false, bytes(61, &[])).is_none());
}

#[test]
fn status_texts_are_read() {
    let mut text = [0u8; 50];
    text[..5].copy_from_slice(b"Armed");
    text[49] = b'!';
    let message = messages::Statustext {
        severity: enums::MavSeverity::Warning,
        text,
        ..Default::default()
    };
    for payload in both(&message) {
        match decode(&payload, &wire_name) {
            Some(Telemetry::Statustext(m)) => {
                assert_eq!(m.severity, MavSeverity::Warning);
                assert_eq!(m.text, text.to_vec());
            }
            _ => panic!("a status text"),
        }
    }
    let severities = [
        MavSeverity::Emergency,
        MavSeverity::Alert,
        MavSeverity::Critical,
        MavSeverity::Error,
        MavSeverity::Warning,
        MavSeverity::Notice,
        MavSeverity::Info,
        MavSeverity::Debug,
    ];
    for (i, severity) in severities.iter().enumerate() {
        match read(253, true, vec![i as u8]) {
            Some(Telemetry::Statustext(m)) => assert_eq!(m.severity, *severity),
            _ => panic!("a status text"),
        }
    }
    assert!(read(253, true, vec![8]).is_none());
    assert!(read(253, false, bytes(50, &[])).is_none());
}

#[test]
fn components_are_read() {
    let mut vendor_name = [0u8; 32];
    vendor_name[..4].copy_from_slice(b"Acme");
    let mut model_name = [0u8; 32];
    model_name[..3].copy_from_slice(b"One");
    let message = messages::ComponentInformationBasic {
        capabilities: enums::MavProtocolCapability::from_bits_truncate(0x10),
        vendor_name,
        model_name,
        ..Default::default()
    };
    let payloads = both(&message);
    assert_eq!(payloads.len(), 1);
    match decode(&payloads[0], &wire_name) {
        Some(Telemetry::ComponentInformationBasic(m)) => {
            assert_eq!(m.capabilities, 0x10);
            assert_eq!(m.vendor_name, vendor_name.to_vec());
            assert_eq!(m.model_name, model_name.to_vec());
        }
        _ => panic!("a component"),
    }
    assert!(read(396, false, bytes(160, &[])).is_none());
}

#[test]
fn other_messages_are_told_by_their_numbers() {
    match read(24, true, vec![1, 2, 3]) {
        Some(Telemetry::Other(m)) => assert_eq!(m.id, 24),
        _ => panic!("another message"),
    }
    // A kind of fix that has no meaning.
    assert!(read(24, true, bytes(30, &[(28, 200)])).is_none());
    assert!(read(24, false, bytes(30, &[])).is_some());
    assert!(read(24, false, bytes(29, &[])).is_none());
    assert!(read(16_000_000, true, vec![1]).is_none());
    assert!(other_message(24, false).is_none());
    assert!(matches!(other_message(24, true), Some(Telemetry::Other(m)) if m.id == 24));
}

#[test]
fn payloads_are_no_longer_than_their_messages() {
    for (id, size) in [
        (0, 9), (1, 43), (22, 25), (24, 52), (30, 28), (31, 48), (33, 28), (63, 181), (77, 10),
        (147, 54), (148, 78), (253, 54), (396, 160),
    ] {
        assert_eq!(largest_payload(id), Some(size));
        assert!(payload_fits(&RawPayload { id, v2: true, bytes: vec![1; size] }));
        assert!(!payload_fits(&RawPayload { id, v2: true, bytes: vec![1; size + 1] }));
        assert!(payload_fits(&RawPayload { id, v2: false, bytes: vec![1; size + 1] }));
    }
    assert!(payload_fits(&RawPayload { id: 16_000_000, v2: true, bytes: vec![1; 255] }));
}

#[test]
fn the_dialect_has_the_messages_whose_sizes_are_known() {
    let mut count = 0;
    for id in 0..70_000 {
        assert_eq!(largest_payload(id).is_some(), Common::message_info(id).is_ok());
        if let Some(size) = largest_payload(id) {
            count += 1;
            // The real library takes payloads of that size.
            let mut full = vec![0u8; size];
            full[size - 1] = 1;
            let payload = RawPayload { id, v2: true, bytes: full };
            assert!(payload_fits(&payload));
            decode(&payload, &wire_name);
        }
    }
    assert_eq!(count, 226);
    assert_eq!(Common::spec().message_info(16_000_000).is_ok(), false);
}

fn real_frame(message: &dyn Message, v2: bool) -> RawFrame {
    let builder = Frame::builder().sequence(17).system_id(3).component_id(4);
    let frame = if v2 {
        builder.version(V2).message(message).expect("a frame").build().into_versionless()
    } else {
        builder.version(V1).message(message).expect("a frame").build().into_versionless()
    };
    RawFrame {
        sender: MavlinkId { system: frame.system_id(), component: frame.component_id() },
        head: frame.header().decode().crc_data().to_vec(),
        payload: RawPayload {
            id: frame.message_id(),
            v2: frame.version() == MavLinkVersion::V2,
            bytes: frame.payload().bytes().to_vec(),
        },
        checksum: frame.checksum(),
    }
}

#[test]
fn real_frames_are_read() {
    let heartbeat = messages::Heartbeat {
        type_: enums::MavType::Quadrotor,
        system_status: enums::MavState::Active,
        ..Default::default()
    };
    for v2 in [false, true] {
        let mut frame = real_frame(&heartbeat, v2);
        assert_eq!(frame.sender, MavlinkId { system: 3, component: 4 });
        assert!(checksum_holds(&frame, 50));
        assert!(!checksum_holds(&frame, 51));
        match decode_frame(&frame, &wire_name) {
            Some(Telemetry::Heartbeat(m)) => assert_eq!((m.mav_type, m.system_status), (2, 4)),
            _ => panic!("a heartbeat"),
        }
        frame.checksum ^= 0x100;
        assert!(decode_frame(&frame, &wire_name).is_none());
        frame.checksum ^= 0x100;
        frame.head[0] ^= 1;
        assert!(decode_frame(&frame, &wire_name).is_none());
        frame.head[0] ^= 1;
        frame.payload.bytes[0] ^= 1;
        assert!(decode_frame(&frame, &wire_name).is_none());
    }
}

#[test]
fn checksums_are_those_of_the_standard() {
    let payload = RawPayload { id: 0, v2: true, bytes: b"4567".to_vec() };
    let sender = MavlinkId { system: 1, component: 1 };
    let mut frame = RawFrame { sender, head: b"123".to_vec(), payload, checksum: 0 };
    frame.payload.bytes.push(b'8');
    frame.checksum = 0x6f91;
    assert!(checksum_holds(&frame, b'9'));
    frame.checksum = 0x6f90;
    assert!(!checksum_holds(&frame, b'9'));
}

#[test]
fn acknowledgements_are_read() {
    let ack = messages::CommandAck {
        command: enums::MavCmd::RequestMessage,
        result: enums::MavResult::Accepted,
        target_system: 250,
        target_component: 191,
        ..Default::default()
    };
    let frame = real_frame(&ack, true);
    let target = MavlinkId { system: 250, component: 191 };
    assert_eq!(command_ack(&frame), Some((512, target)));
    // MAVLink 1 does not tell to whom.
    let mut frame = real_frame(&ack, false);
    assert_eq!(command_ack(&frame), Some((512, MavlinkId { system: 0, component: 0 })));
    frame.checksum ^= 1;
    assert_eq!(command_ack(&frame), None);
    assert_eq!(command_ack(&real_frame(&messages::Heartbeat::default(), true)), None);
    assert!(read(77, true, vec![0, 2, 9]).is_some());
    assert!(read(77, true, vec![0, 2, 10]).is_none());
    assert!(read(77, true, vec![0xff, 0xff, 0]).is_none());
}

#[test]
fn zeros_at_the_end_of_a_payload_do_not_count() {
    let mut v = vec![0u8; 200];
    v[4] = 2;
    v[7] = 4;
    match read(0, true, v) {
        Some(Telemetry::Heartbeat(m)) => assert_eq!((m.mav_type, m.system_status), (2, 4)),
        _ => panic!("a heartbeat"),
    }
    assert!(read(1, true, vec![0; 255]).is_some());
    assert!(read(1, false, vec![0; 255]).is_none());
}

#[test]
fn full_payloads_of_all_sizes_are_read() {
    for (id, size) in [(1, 43), (30, 28), (31, 48), (33, 28), (148, 78), (396, 160)] {
        assert!(read(id, true, vec![1; size]).is_some());
    }
}
