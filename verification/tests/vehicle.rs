//! Vehicles and what their messages tell.

use groundhog::ident::{Ident, MavlinkId};
use groundhog::link::LinkId;
use groundhog::parameters::ParamState;
use groundhog::telemetry::{
    sum_voltages, AttitudeEuler, AttitudeQuaternion, AutopilotVersion, BatteryStatus,
    ComponentInformationBasic, GlobalPositionInt, GlobalPositionIntCov, Heartbeat, MavSeverity,
    OtherMessage, ParamValue, Statustext, SysStatus, Telemetry,
};
use groundhog::value::{MavParamType, Value, PARAM_ENCODE_BYTEWISE, PARAM_ENCODE_C_CAST};
use groundhog::vehicle::{Orientation, Vehicle, Velocity, HISTORY_SIZE, TRACK_SIZE};
use groundhog::wire::{RawPayload, WireMessage};
use std::time::{Duration, Instant};

fn vehicle() -> Vehicle {
    Vehicle::new(MavlinkId { system: 1, component: 1 })
}

fn name(s: &str) -> Ident {
    Ident::new(s).expect("a short name")
}

fn param(s: Option<&str>, bits: u32, ty: MavParamType, count: u16, index: u16) -> ParamValue {
    ParamValue {
        param_id: s.map(name),
        param_value: bits,
        param_type: ty,
        param_count: count,
        param_index: index,
    }
}

fn wire(content: Telemetry) -> WireMessage {
    let payload = RawPayload { id: content.id(), v2: true, bytes: vec![7, 8] };
    WireMessage { payload, content }
}

fn hear(v: &mut Vehicle, time: Instant, content: Telemetry) {
    v.handle_message(time, wire(content));
}

fn other(id: u32) -> Telemetry {
    Telemetry::Other(OtherMessage { id })
}

fn position(lat: i32) -> Telemetry {
    Telemetry::GlobalPositionInt(GlobalPositionInt {
        lat,
        lon: -lat,
        alt: 1000,
        relative_alt: 500,
        vx: 1,
        vy: -2,
        vz: 3,
    })
}

#[test]
fn a_new_vehicle_is_known_by_its_id_alone() {
    let v = vehicle();
    assert_eq!(v.mav_id, MavlinkId { system: 1, component: 1 });
    assert!(v.mav_state.is_none() && v.mav_type.is_none() && v.capabilities.is_none());
    assert!(v.parameters.map.is_empty() && v.message_history.is_empty() && v.status_texts.is_empty());
    assert_eq!(v.pretty_name(), "Unknown Unknown (mav 1:1)");
}

#[test]
fn heartbeats_tell_type_and_state() {
    let mut v = vehicle();
    let now = Instant::now();
    hear(&mut v, now, Telemetry::Heartbeat(Heartbeat { mav_type: 2, system_status: 4 }));
    assert_eq!((v.mav_type, v.mav_state), (Some(2), Some(4)));
    hear(&mut v, now, Telemetry::Heartbeat(Heartbeat { mav_type: 2, system_status: 3 }));
    assert_eq!(v.mav_state, Some(3));
}

#[test]
fn capabilities_come_from_two_messages() {
    let mut v = vehicle();
    let now = Instant::now();
    hear(&mut v, now, Telemetry::AutopilotVersion(AutopilotVersion { capabilities: 16 }));
    assert_eq!(v.capabilities, Some(16));
    hear(&mut v, now,
        Telemetry::ComponentInformationBasic(ComponentInformationBasic {
            capabilities: 17,
            vendor_name: b"Acme\0xx".to_vec(),
            model_name: b"\0".to_vec(),
        }),
    );
    assert_eq!(v.capabilities, Some(17));
    v.set_mav_capability(18);
    assert_eq!(v.capabilities, Some(18));
}

#[test]
fn names_are_taken_over_unless_they_are_empty_or_no_text() {
    let mut v = vehicle();
    let mut message = ComponentInformationBasic {
        capabilities: 0,
        vendor_name: b"Acme\0".to_vec(),
        model_name: b"Quad\0".to_vec(),
    };
    v.on_component_information_basic(&message);
    assert_eq!(v.pretty_name(), "Acme Quad (mav 1:1)");
    message.vendor_name = vec![0xff];
    message.model_name = vec![];
    v.on_component_information_basic(&message);
    assert_eq!(v.pretty_name(), "Acme Quad (mav 1:1)");
    message.model_name = b"Hexa".to_vec();
    v.on_component_information_basic(&message);
    assert_eq!(v.pretty_name(), "Acme Hexa (mav 1:1)");
}

#[test]
fn parameters_are_unpacked_as_the_vehicle_packs_them() {
    let mut v = vehicle();
    let message = param(Some("RC_SPEED"), 7, MavParamType::Uint8, 3, 2);
    v.on_param_value(&message);
    assert!(v.parameters.map.is_empty());
    v.set_mav_capability(PARAM_ENCODE_BYTEWISE);
    v.on_param_value(&message);
    let p = v.parameters.map.get(&name("RC_SPEED")).expect("the parameter is there");
    assert_eq!((p.value, p.state), (Value::U8(7), ParamState::Unchanged));
    assert!(v.parameters.loading_state.has_loaded.contains(&2));
    assert_eq!(v.parameters.loading_state.expected_count, 3);
    v.set_mav_capability(PARAM_ENCODE_C_CAST);
    v.on_param_value(&param(Some("RC_SPEED"), 9.7f32.to_bits(), MavParamType::Uint8, 0, 5));
    let p = v.parameters.map.get(&name("RC_SPEED")).expect("the parameter is there");
    assert_eq!(p.value, Value::U8(9));
    assert!(!v.parameters.loading_state.has_loaded.contains(&5));
    assert_eq!(v.parameters.loading_state.expected_count, 3);
}

#[test]
fn parameters_without_a_name_or_of_sixty_four_bits_are_left_out() {
    let mut v = vehicle();
    v.set_mav_capability(PARAM_ENCODE_BYTEWISE);
    v.on_param_value(&param(None, 7, MavParamType::Uint8, 3, 2));
    v.on_param_value(&param(Some("A"), 7, MavParamType::Uint64, 3, 2));
    assert!(v.parameters.map.is_empty());
    assert!(v.parameters.loading_state.has_loaded.is_empty());
    v.on_param_value(&param(Some("A"), 7, MavParamType::Uint8, 65535, 65535));
    assert!(v.parameters.loading_state.has_loaded.contains(&65535));
}

#[test]
fn batteries_are_told_by_two_messages() {
    let mut v = vehicle();
    let now = Instant::now();
    hear(&mut v, now,
        Telemetry::SysStatus(SysStatus {
            voltage_battery: 12600,
            current_battery: -100,
            battery_remaining: 50,
        }),
    );
    let b = v.battery_state.expect("a battery");
    assert_eq!((b.voltage, b.current, b.charge), (12600, -100, 50));
    hear(&mut v, now,
        Telemetry::BatteryStatus(BatteryStatus {
            voltages: [4000, 4100, 4200, 65535, 65535, 65535, 65535, 65535, 65535, 65535],
            current_battery: 5,
            battery_remaining: -1,
        }),
    );
    let b = v.battery_state.expect("a battery");
    assert_eq!((b.voltage, b.current, b.charge), (12300, 5, -1));
    assert_eq!(sum_voltages(&[65535; 10]), 0);
    assert_eq!(sum_voltages(&[65534; 10]), 655340);
}

#[test]
fn attitudes_are_kept_as_they_came() {
    let mut v = vehicle();
    let now = Instant::now();
    hear(&mut v, now,
        Telemetry::Attitude(AttitudeEuler {
            roll: 1,
            pitch: 2,
            yaw: 3,
            rollspeed: 4,
            pitchspeed: 5,
            yawspeed: 6,
        }),
    );
    assert!(matches!(
        v.attitude.map(|a| a.attitude),
        Some(Orientation::Euler { roll: 1, pitch: 2, yaw: 3 })
    ));
    let rates = v.angular_rates.expect("rates");
    assert_eq!((rates.rollspeed, rates.pitchspeed, rates.yawspeed), (4, 5, 6));
    assert_eq!(rates.at, now);
    hear(&mut v, now,
        Telemetry::AttitudeQuaternion(AttitudeQuaternion {
            q1: 1,
            q2: 2,
            q3: 3,
            q4: 4,
            rollspeed: 7,
            pitchspeed: 8,
            yawspeed: 9,
        }),
    );
    assert!(matches!(
        v.attitude.map(|a| a.attitude),
        Some(Orientation::Quaternion { q1: 1, q2: 2, q3: 3, q4: 4 })
    ));
    assert_eq!(v.angular_rates.map(|r| r.yawspeed), Some(9));
}

#[test]
fn positions_make_a_track() {
    let mut v = vehicle();
    let now = Instant::now();
    for lat in 0..(TRACK_SIZE as i32 + 3) {
        hear(&mut v, now, position(lat));
    }
    assert_eq!(v.global_positions.len(), TRACK_SIZE);
    assert_eq!(v.global_positions[0].lat, 3);
    assert_eq!(v.global_positions[TRACK_SIZE - 1].lat, TRACK_SIZE as i32 + 2);
    let last = v.global_position.expect("a position");
    assert_eq!((last.lat, last.lon, last.alt_agl), (502, -502, 500));
    assert_eq!(v.altitude_msl, Some(1000));
    assert!(matches!(v.velocity_ned, Some(Velocity::Integers(1, -2, 3))));
    hear(&mut v, now,
        Telemetry::GlobalPositionIntCov(GlobalPositionIntCov {
            lat: 7,
            lon: 8,
            alt: 9,
            relative_alt: 10,
            vx: 11,
            vy: 12,
            vz: 13,
        }),
    );
    assert!(matches!(v.velocity_ned, Some(Velocity::Singles(11, 12, 13))));
    assert_eq!(v.global_position.map(|p| (p.lat, p.lon, p.alt_agl)), Some((7, 8, 10)));
    assert_eq!(v.altitude_msl, Some(9));
}

#[test]
fn status_texts_are_kept_where_they_are_text() {
    let mut v = vehicle();
    let now = Instant::now();
    let mut message = Statustext { severity: MavSeverity::Info, text: b"Armed\0\xff".to_vec() };
    v.on_status_text(&message, now);
    message.text = vec![0xff];
    v.on_status_text(&message, now);
    message.text = vec![];
    v.on_status_text(&message, now);
    let texts: Vec<&str> = v.status_texts.iter().map(|s| s.text.as_str()).collect();
    assert_eq!(texts, vec!["Armed", ""]);
    assert_eq!(v.status_texts[0].severity, MavSeverity::Info);
}

#[test]
fn the_last_messages_are_remembered() {
    let mut v = vehicle();
    let start = Instant::now();
    for i in 0..(HISTORY_SIZE as u32 + 5) {
        hear(&mut v, start + Duration::from_millis(i as u64), other(1000 + i));
    }
    assert_eq!(v.message_history.len(), HISTORY_SIZE);
    assert_eq!(v.message_history[0].message.content.id(), 2004);
    assert_eq!(v.message_history[HISTORY_SIZE - 1].message.content.id(), 1005);
    assert_eq!(v.latest_message.len(), HISTORY_SIZE + 5);
    assert_eq!(v.latest_message.get(&1000).map(|m| m.at), Some(start));
}

#[test]
fn the_latest_message_of_a_kind_is_at_hand() {
    let mut v = vehicle();
    let first = Instant::now();
    let second = first + Duration::from_secs(1);
    hear(&mut v, first, position(1));
    hear(&mut v, first, other(24));
    hear(&mut v, second, position(2));
    let mut ids: Vec<u32> = v.latest_message.keys().copied().collect();
    ids.sort();
    assert_eq!(ids, vec![24, 33]);
    assert_eq!(v.latest_message.get(&24).map(|m| m.message.payload.bytes.clone()), Some(vec![7, 8]));
    assert_eq!(v.latest_message.get(&33).map(|m| m.at), Some(second));
    assert_eq!(v.latest_message.get(&24).map(|m| m.at), Some(first));
    assert_eq!(v.message_history.len(), 3);
}

#[test]
fn links_are_told_apart() {
    let mut v = vehicle();
    let now = Instant::now();
    assert!(v.link_info_mut(LinkId(3)).last_message.is_none());
    v.link_info_mut(LinkId(1)).last_message = Some(now);
    assert_eq!(v.link_info_mut(LinkId(1)).last_message, Some(now));
    assert!(v.link_info_mut(LinkId(3)).last_message.is_none());
    assert_eq!(v.link_info.len(), 2);
}

#[test]
fn messages_have_their_numbers() {
    let now = [
        (Telemetry::Heartbeat(Heartbeat { mav_type: 0, system_status: 0 }), 0),
        (position(1), 33),
        (Telemetry::AutopilotVersion(AutopilotVersion { capabilities: 0 }), 148),
        (Telemetry::ParamValue(param(None, 0, MavParamType::Int8, 0, 0)), 22),
        (other(77), 77),
    ];
    for (message, id) in now {
        assert_eq!(message.id(), id);
    }
}
