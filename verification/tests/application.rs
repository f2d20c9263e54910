//! The station: what happens to it, and what it asks for.

use groundhog::application::{
    Action, Application, Configuration, ConnectionMessage, Message, ParameterMessage,
};
use groundhog::command::{
    acknowledges, fly_to, request_parameters, request_vehicle_info, Geodetic, MavCmd, MavFrame,
    Outgoing, Step,
};
use groundhog::ident::{Ident, MavlinkId};
use groundhog::link::{
    Ipv4Addr, LinkBuilder, LinkConfig, LinkId, LinkVariant, SerialPort, SocketAddrV4,
};
use groundhog::parameter_update::{load_choice, picked_directory, save_choice};
use groundhog::parameters::{ParamState, Parameter, Parameters, TimerId};
use groundhog::telemetry::{GlobalPositionInt, OtherMessage, Telemetry};
use groundhog::value::{MavParamType, Value, PARAM_ENCODE_BYTEWISE, PARAM_ENCODE_C_CAST};
use groundhog::wire::{RawFrame, RawPayload, WireMessage};
use mavio::dialects::common::Common;
use mavio::protocol::Dialect;
use std::path::PathBuf;
use std::time::Instant;

fn real_text(bits: u32) -> String {
    f32::from_bits(bits).to_string()
}

fn wire_name(raw: &[u8; 16]) -> Option<Ident> {
    let end = raw.iter().position(|b| *b == 0).unwrap_or(16);
    std::str::from_utf8(&raw[..end]).ok().and_then(Ident::new)
}

fn name(s: &str) -> Ident {
    Ident::new(s).expect("a short name")
}

fn id(system: u8) -> MavlinkId {
    MavlinkId { system, component: 1 }
}

fn station() -> Application {
    Application::boot(Configuration::new())
}

fn update(app: &mut Application, message: Message) -> Vec<Action> {
    app.maybe_update(Instant::now(), message, &real_text, &wire_name)
}

fn connection(app: &mut Application, message: ConnectionMessage) -> Vec<Action> {
    update(app, Message::Connection(message))
}

fn parameter(app: &mut Application, message: ParameterMessage) -> Vec<Action> {
    update(app, Message::Parameter(message))
}

/// CRC-16/MCRF4XX, a byte at a time.
fn crc(bytes: &[u8]) -> u16 {
    let mut crc = 0xffffu16;
    for b in bytes {
        let t = *b ^ (crc as u8);
        let t = (t ^ (t << 4)) as u16;
        crc = (crc >> 8) ^ (t << 8) ^ (t << 3) ^ (t >> 4);
    }
    crc
}

fn raw_frame(sender: MavlinkId, id: u32, bytes: Vec<u8>) -> RawFrame {
    let head = vec![bytes.len() as u8, 0, 0, 9, sender.system, sender.component, id as u8, 0, 0];
    let extra = Common::message_info(id).map(|info| info.crc_extra()).unwrap_or(0);
    let mut covered = head.clone();
    covered.extend(&bytes);
    covered.push(extra);
    let checksum = crc(&covered);
    RawFrame { sender, head, payload: RawPayload { id, v2: true, bytes }, checksum }
}

fn receive(app: &mut Application, frame: RawFrame) -> Vec<Action> {
    connection(app, ConnectionMessage::RecvFrame(frame, LinkId(0)))
}

fn frame(app: &mut Application, mav_id: MavlinkId, id: u32, bytes: Vec<u8>) -> Vec<Action> {
    receive(app, raw_frame(mav_id, id, bytes))
}

fn wire(content: Telemetry) -> WireMessage {
    WireMessage { payload: RawPayload { id: content.id(), v2: true, bytes: vec![] }, content }
}

fn param_bytes(s: &str, bits: u32, kind: u8, count: u16, index: u16) -> Vec<u8> {
    let mut b = Vec::new();
    b.extend(bits.to_le_bytes());
    b.extend(count.to_le_bytes());
    b.extend(index.to_le_bytes());
    let mut raw = [0u8; 16];
    raw[..s.len()].copy_from_slice(s.as_bytes());
    b.extend(raw);
    b.push(kind);
    b
}

/// A station that is connected to a vehicle with two parameters and a known packing.
fn connected() -> Application {
    let mut app = station();
    connection(&mut app, ConnectionMessage::ConnectSuccess);
    frame(&mut app, id(1), 148, PARAM_ENCODE_BYTEWISE.to_le_bytes().to_vec());
    frame(&mut app, id(1), 22, param_bytes("RC_MIN", 10, 1, 2, 0));
    frame(&mut app, id(1), 22, param_bytes("ALT_MAX", 20, 5, 2, 1));
    app
}

fn state(app: &Application, s: &str) -> ParamState {
    let vehicle = app.vehicles.get(&id(1)).expect("the vehicle is known");
    vehicle.parameters.map.get(&name(s)).expect("the parameter is there").state
}

fn edit(app: &mut Application, s: &str, text: &str) {
    let actions =
        parameter(app, ParameterMessage::BufferEdit(id(1), name(s), text.to_string(), None));
    assert!(actions.is_empty());
}

fn place(n: u64) -> Geodetic {
    Geodetic { latitude: n, longitude: n + 1 }
}

#[test]
fn the_station_starts_with_a_link_over_udp() {
    let app = station();
    assert!(matches!(&app.builder, LinkBuilder::Udp { port, .. } if port == "14550"));
    assert!(matches!(app.build, Some(LinkConfig::Udp { .. })));
    assert!(!app.connected && app.vehicles.is_empty() && app.primary_vehicle.is_none());
    assert_eq!(app.parameter_namespace_sep, '_');
    assert_eq!(app.next_timer, 0);
}

#[test]
fn the_station_starts_with_the_link_of_the_last_run() {
    let app = Application::boot(Configuration {
        link_config: Some(LinkConfig::Serial { port: "COM7".to_string(), baud: 9600 }),
        file_picker_path: None,
    });
    assert!(matches!(&app.builder, LinkBuilder::Serial { port: Some(p), .. } if p == "COM7"));
    assert!(matches!(&app.build, Some(LinkConfig::Serial { port, baud: 9600 }) if port == "COM7"));
}

#[test]
fn the_first_vehicle_that_is_heard_is_the_primary_one() {
    let mut app = station();
    assert!(frame(&mut app, id(7), 0, vec![0, 0, 0, 0, 2, 3, 0, 4, 3]).is_empty());
    assert_eq!(app.primary_vehicle, Some(id(7)));
    frame(&mut app, id(3), 0, vec![0, 0, 0, 0, 2]);
    assert_eq!(app.primary_vehicle, Some(id(7)));
    let ids: Vec<MavlinkId> = app.vehicles.entries.iter().map(|(i, _)| *i).collect();
    assert_eq!(ids, vec![id(3), id(7)]);
    assert_eq!(app.vehicles.get(&id(7)).and_then(|v| v.mav_type), Some(2));
    assert_eq!(app.vehicles.get(&id(3)).and_then(|v| v.mav_state), Some(0));
}

#[test]
fn new_vehicles_are_asked_to_introduce_themselves() {
    let mut app = station();
    connection(&mut app, ConnectionMessage::ConnectSuccess);
    let actions = frame(&mut app, id(1), 0, vec![0]);
    assert_eq!(actions.len(), 1);
    match &actions[0] {
        Action::Talk(steps) => {
            assert_eq!(steps.len(), 3);
            assert!(matches!(steps[2], Step::AwaitAck(MavCmd::RequestMessage)));
        }
        _ => panic!("a conversation"),
    }
    assert!(frame(&mut app, id(1), 0, vec![0]).is_empty());
    assert_eq!(frame(&mut app, id(2), 0, vec![0]).len(), 1);
}

#[test]
fn frames_without_a_message_change_nothing() {
    let mut app = station();
    // A heartbeat with a type that has no meaning.
    assert!(frame(&mut app, id(1), 0, vec![0, 0, 0, 0, 200]).is_empty());
    // A number that no message has.
    assert!(frame(&mut app, id(1), 16_000_000, vec![1]).is_empty());
    // A message that is not listened to, with a result that has no meaning.
    assert!(frame(&mut app, id(1), 77, vec![0, 2, 99]).is_empty());
    // A heartbeat with another checksum.
    let mut broken = raw_frame(id(1), 0, vec![0, 0, 0, 0, 2]);
    broken.checksum ^= 1;
    assert!(receive(&mut app, broken).is_empty());
    assert!(connection(&mut app, ConnectionMessage::RecvError(LinkId(0))).is_empty());
    assert!(connection(&mut app, ConnectionMessage::ConnectFailed).is_empty());
    assert!(app.vehicles.is_empty() && app.primary_vehicle.is_none());
}

#[test]
fn messages_that_are_not_listened_to_make_a_vehicle_known() {
    let mut app = station();
    frame(&mut app, id(4), 77, vec![0, 2, 0]);
    assert_eq!(app.primary_vehicle, Some(id(4)));
    let vehicle = app.vehicles.get(&id(4)).expect("the vehicle is known");
    let latest = vehicle.latest_message.get(&77).expect("the message is remembered");
    assert_eq!(latest.message.payload.bytes, vec![0, 2, 0]);
}

#[test]
fn the_time_of_the_last_message_is_kept_per_link() {
    let mut app = station();
    let now = Instant::now();
    let message = wire(Telemetry::Other(OtherMessage { id: 24 }));
    app.receive_frame(now, id(1), message, LinkId(5));
    let vehicle = app.vehicles.get(&id(1)).expect("the vehicle is known");
    assert_eq!(vehicle.link_info.get(&LinkId(5)).and_then(|i| i.last_message), Some(now));
    assert!(vehicle.link_info.get(&LinkId(4)).is_none());
    assert_eq!(vehicle.message_history.len(), 1);
}

#[test]
fn a_vehicle_that_is_followed_is_shown() {
    let mut app = station();
    let position = |lat: i32| {
        wire(Telemetry::GlobalPositionInt(GlobalPositionInt {
            lat,
            lon: 5,
            alt: 0,
            relative_alt: 0,
            vx: 0,
            vy: 0,
            vz: 0,
        }))
    };
    assert!(app.receive_frame(Instant::now(), id(1), position(1), LinkId(0)).is_empty());
    update(&mut app, Message::SetFollowPrimaryVehicle(true));
    let actions = app.receive_frame(Instant::now(), id(1), position(2), LinkId(0));
    assert!(matches!(actions[..], [Action::ShowPosition { lat: 2, lon: 5 }]));
    assert!(app.receive_frame(Instant::now(), id(2), position(3), LinkId(0)).is_empty());
    update(&mut app, Message::SetPrimaryVehicle(id(2)));
    assert_eq!(frame(&mut app, id(2), 0, vec![0]).len(), 1);
    update(&mut app, Message::MapMoved);
    assert!(!app.follow_primary_vehicle);
    assert!(frame(&mut app, id(2), 0, vec![0]).is_empty());
}

#[test]
fn changing_the_kind_of_link_starts_a_new_one() {
    let mut app = station();
    assert!(connection(&mut app, ConnectionMessage::ChangeLinkVariant(LinkVariant::Udp)).is_empty());
    let actions = connection(&mut app, ConnectionMessage::ChangeLinkVariant(LinkVariant::Tcp));
    assert!(matches!(actions[..], [Action::SaveLater]));
    assert!(matches!(app.configuration.link_config, Some(LinkConfig::Tcp { .. })));
    assert!(connection(&mut app, ConnectionMessage::ChangeLinkVariant(LinkVariant::Serial)).is_empty());
    assert!(app.build.is_none());
    // What could be built last is still kept.
    assert!(matches!(app.configuration.link_config, Some(LinkConfig::Tcp { .. })));
}

#[test]
fn a_link_that_is_typed_in_is_kept_once_it_builds() {
    let mut app = station();
    let builder =
        |port: &str| LinkBuilder::Tcp { addr: "1.2.3.4".to_string(), port: port.to_string() };
    assert!(connection(&mut app, ConnectionMessage::UpdateLinkBuilder(builder("x"))).is_empty());
    assert!(app.build.is_none() && app.configuration.link_config.is_none());
    let actions = connection(&mut app, ConnectionMessage::UpdateLinkBuilder(builder("80")));
    assert!(matches!(actions[..], [Action::SaveLater]));
    let again = Application::boot(app.configuration);
    assert!(matches!(
        again.build,
        Some(LinkConfig::Tcp {
            sock_addr: SocketAddrV4 { ip: Ipv4Addr { a: 1, b: 2, c: 3, d: 4 }, port: 80 }
        })
    ));
}

#[test]
fn serial_ports_are_looked_for_by_serial_links_only() {
    let mut app = station();
    assert!(connection(&mut app, ConnectionMessage::DetectSerialPorts).is_empty());
    let found = |names: &[&str]| {
        Some(names.iter().map(|n| SerialPort { name: n.to_string(), usb: *n != "S0" }).collect())
    };
    connection(&mut app, ConnectionMessage::FoundSerialPorts(found(&["B", "A"])));
    assert!(matches!(app.builder, LinkBuilder::Udp { .. }));
    connection(&mut app, ConnectionMessage::ChangeLinkVariant(LinkVariant::Serial));
    let actions = connection(&mut app, ConnectionMessage::DetectSerialPorts);
    assert!(matches!(actions[..], [Action::ListSerialPorts]));
    connection(&mut app, ConnectionMessage::FoundSerialPorts(found(&["B", "S0", "A"])));
    connection(&mut app, ConnectionMessage::FoundSerialPorts(None));
    match &app.builder {
        LinkBuilder::Serial { available_ports, .. } => assert_eq!(available_ports, &vec!["A", "B"]),
        _ => panic!("a serial link"),
    }
}

#[test]
fn links_are_opened_and_closed() {
    let mut app = station();
    assert!(connection(&mut app, ConnectionMessage::DisconnectLink).is_empty());
    let config = LinkConfig::Serial { port: "COM1".to_string(), baud: 2400 };
    let actions = connection(&mut app, ConnectionMessage::ConnectToLink(config));
    assert!(matches!(&actions[..], [Action::Connect(LinkConfig::Serial { baud: 2400, .. })]));
    assert!(matches!(app.configuration.link_config, Some(LinkConfig::Serial { .. })));
    assert!(!app.connected);
    let actions = connection(&mut app, ConnectionMessage::ConnectSuccess);
    assert!(matches!(actions[..], [Action::StartHeartbeat]));
    assert!(app.connected);
    let actions = connection(&mut app, ConnectionMessage::DisconnectLink);
    assert!(matches!(actions[..], [Action::Close]));
    assert!(!app.connected);
}

#[test]
fn the_configuration_is_written_when_asked() {
    let mut app = station();
    assert!(matches!(
        update(&mut app, Message::SaveConfigurationToFile)[..],
        [Action::WriteConfiguration]
    ));
    let configuration = Configuration {
        link_config: None,
        file_picker_path: Some(PathBuf::from("/tmp")),
    };
    let actions = update(&mut app, Message::UpdateAndSaveConfiguration(configuration));
    assert!(matches!(actions[..], [Action::WriteConfiguration]));
    assert_eq!(app.configuration.file_picker_path, Some(PathBuf::from("/tmp")));
}

#[test]
fn filtering_lists_what_matches() {
    let mut app = connected();
    parameter(&mut app, ParameterMessage::FilterBuf("alt".to_string()));
    let listed = |app: &Application| -> Option<Vec<String>> {
        app.parameter_filtered.as_ref().map(|p| {
            p.map.entries.iter().map(|(n, _)| n.as_str().to_string()).collect()
        })
    };
    assert_eq!(listed(&app), Some(vec!["ALT_MAX".to_string()]));
    // A parameter that comes in is filtered too.
    frame(&mut app, id(1), 22, param_bytes("alt_min", 1, 1, 3, 2));
    assert_eq!(listed(&app), Some(vec!["ALT_MAX".to_string(), "alt_min".to_string()]));
    parameter(&mut app, ParameterMessage::FilterBuf(String::new()));
    assert_eq!(listed(&app), None);
    let mut empty = station();
    parameter(&mut empty, ParameterMessage::FilterBuf("alt".to_string()));
    assert_eq!(listed(&empty), None);
    assert_eq!(empty.parameter_filter, "alt");
}

#[test]
fn parameters_are_asked_for_over_a_connection() {
    let mut app = connected();
    let actions = parameter(&mut app, ParameterMessage::ListReload(id(1)));
    match &actions[..] {
        [Action::Talk(steps)] => {
            assert_eq!(steps.len(), 1);
            assert!(matches!(
                steps[0],
                Step::Send(Outgoing::ParamRequestList { target }) if target == id(1)
            ));
        }
        _ => panic!("a conversation"),
    }
    let vehicle = app.vehicles.get(&id(1)).expect("the vehicle is known");
    assert!(vehicle.parameters.loading_state.has_loaded.is_empty());
    assert_eq!(vehicle.parameters.loading_state.expected_count, 2);
    assert!(parameter(&mut app, ParameterMessage::ListReload(id(9))).is_empty());
    connection(&mut app, ConnectionMessage::DisconnectLink);
    assert!(parameter(&mut app, ParameterMessage::ListReload(id(1))).is_empty());
}

#[test]
fn changed_parameters_are_uploaded_together() {
    let mut app = connected();
    edit(&mut app, "RC_MIN", "11");
    edit(&mut app, "ALT_MAX", "21");
    let actions = parameter(&mut app, ParameterMessage::UploadAll(id(1)));
    match &actions[..] {
        [Action::Send(Outgoing::ParamSet { target, param_id, param_value, param_type }), Action::StartTimer { timer: first, .. }, Action::Send(Outgoing::ParamSet { param_id: second_id, param_value: second_value, .. }), Action::StartTimer { timer: second, mav_id, ident }] =>
        {
            assert_eq!(*target, id(1));
            assert_eq!((param_id.as_str(), *param_value), ("ALT_MAX", 21));
            assert_eq!(*param_type, MavParamType::Uint32);
            assert_eq!((second_id.as_str(), *second_value), ("RC_MIN", 11));
            assert_eq!((*first, *second), (TimerId(0), TimerId(1)));
            assert_eq!((*mav_id, ident.as_str()), (id(1), "RC_MIN"));
        }
        _ => panic!("two uploads"),
    }
    assert_eq!(app.next_timer, 2);
    assert_eq!(state(&app, "RC_MIN"), ParamState::Uploading(TimerId(1), Value::U8(10)));
    assert!(parameter(&mut app, ParameterMessage::UploadAll(id(1))).is_empty());
}

#[test]
fn uploads_need_a_known_packing() {
    let mut app = connected();
    frame(&mut app, id(1), 148, vec![1]);
    edit(&mut app, "RC_MIN", "11");
    edit(&mut app, "ALT_MAX", "21");
    assert!(parameter(&mut app, ParameterMessage::UploadAll(id(1))).is_empty());
    // Only the first one was marked, and nothing was sent.
    assert_eq!(state(&app, "ALT_MAX"), ParamState::Uploading(TimerId(0), Value::U32(20)));
    assert_eq!(state(&app, "RC_MIN"), ParamState::Changed(Value::U8(11)));
    assert_eq!(app.next_timer, 1);
    let message = ParameterMessage::ValueUpload(id(1), name("RC_MIN"), Value::U8(11));
    assert!(parameter(&mut app, message).is_empty());
    assert_eq!(state(&app, "RC_MIN"), ParamState::Uploading(TimerId(1), Value::U8(10)));
}

#[test]
fn a_parameter_is_packed_by_a_cast_where_the_vehicle_says_so() {
    let mut app = connected();
    frame(&mut app, id(1), 148, PARAM_ENCODE_C_CAST.to_le_bytes().to_vec());
    let message = ParameterMessage::ValueUpload(id(1), name("RC_MIN"), Value::U8(11));
    match &parameter(&mut app, message)[..] {
        [Action::Send(Outgoing::ParamSet { param_value, .. }), Action::StartTimer { .. }] => {
            assert_eq!(*param_value, 11.0f32.to_bits());
        }
        _ => panic!("an upload"),
    }
}

#[test]
fn an_upload_times_out_or_is_reported_back() {
    let mut app = connected();
    edit(&mut app, "RC_MIN", "11");
    let message = ParameterMessage::ValueUpload(id(1), name("RC_MIN"), Value::U8(11));
    assert_eq!(parameter(&mut app, message).len(), 2);
    let actions = parameter(&mut app, ParameterMessage::ValueUploadTimeout(id(1), name("RC_MIN")));
    assert!(matches!(actions[..], [Action::AbortTimer(TimerId(0))]));
    assert_eq!(state(&app, "RC_MIN"), ParamState::Changed(Value::U8(10)));
    let message = ParameterMessage::ValueUpload(id(1), name("RC_MIN"), Value::U8(11));
    parameter(&mut app, message);
    frame(&mut app, id(1), 22, param_bytes("RC_MIN", 11, 1, 2, 0));
    assert_eq!(state(&app, "RC_MIN"), ParamState::Unchanged);
    let actions = parameter(&mut app, ParameterMessage::ValueUploadTimeout(id(1), name("RC_MIN")));
    assert!(actions.is_empty());
    let gone = ParameterMessage::ValueUpload(id(1), name("GONE"), Value::U8(11));
    assert!(parameter(&mut app, gone).is_empty());
    assert_eq!(app.next_timer, 2);
}

#[test]
fn uploads_need_a_connection() {
    let mut app = connected();
    edit(&mut app, "RC_MIN", "11");
    connection(&mut app, ConnectionMessage::DisconnectLink);
    assert!(parameter(&mut app, ParameterMessage::UploadAll(id(1))).is_empty());
    let message = ParameterMessage::ValueUpload(id(1), name("RC_MIN"), Value::U8(11));
    assert!(parameter(&mut app, message).is_empty());
    assert_eq!(state(&app, "RC_MIN"), ParamState::Changed(Value::U8(11)));
}

#[test]
fn edits_are_dropped_by_a_reset() {
    let mut app = connected();
    edit(&mut app, "RC_MIN", "11");
    assert_eq!(state(&app, "RC_MIN"), ParamState::Changed(Value::U8(11)));
    assert!(parameter(&mut app, ParameterMessage::ValueReset(id(1), name("RC_MIN"))).is_empty());
    assert_eq!(state(&app, "RC_MIN"), ParamState::Unchanged);
    assert!(parameter(&mut app, ParameterMessage::ValueReset(id(9), name("RC_MIN"))).is_empty());
}

#[test]
fn files_are_picked_saved_and_loaded() {
    let mut app = connected();
    let actions = parameter(&mut app, ParameterMessage::SaveDialog(Parameters::new()));
    assert!(matches!(actions[..], [Action::OpenSaveDialog(_)]));
    let actions = parameter(
        &mut app,
        ParameterMessage::SaveToFile(PathBuf::from("/tmp/a.ini"), Parameters::new()),
    );
    assert!(matches!(&actions[..], [Action::SaveFile(path, _)] if path == &PathBuf::from("/tmp/a.ini")));
    let actions = parameter(&mut app, ParameterMessage::LoadDialog(id(1)));
    assert!(matches!(actions[..], [Action::OpenLoadDialog(mav_id)] if mav_id == id(1)));
    let path = PathBuf::from("/tmp/a.ini");
    let actions = parameter(&mut app, ParameterMessage::LoadFromFile(path.clone(), id(1)));
    assert!(matches!(&actions[..], [Action::LoadFile(p, mav_id)] if p == &path && *mav_id == id(1)));
    assert!(parameter(&mut app, ParameterMessage::LoadFromFile(path, id(9))).is_empty());
}

#[test]
fn a_loaded_file_changes_parameters() {
    let mut app = connected();
    let mut loaded = Parameters::new();
    loaded.map.insert(name("RC_MIN"), Parameter::new(Value::U8(99)));
    loaded.map.insert(name("ALT_MAX"), Parameter::new(Value::U32(20)));
    let directory = Some(PathBuf::from("/data"));
    let actions = parameter(&mut app, ParameterMessage::Loaded(id(1), Some(loaded), directory));
    assert!(matches!(actions[..], [Action::WriteConfiguration]));
    assert_eq!(app.configuration.file_picker_path, Some(PathBuf::from("/data")));
    assert_eq!(state(&app, "RC_MIN"), ParamState::Changed(Value::U8(99)));
    assert_eq!(state(&app, "ALT_MAX"), ParamState::Unchanged);
    assert!(parameter(&mut app, ParameterMessage::Loaded(id(1), None, None)).is_empty());
    let message = ParameterMessage::Loaded(id(9), Some(Parameters::new()), Some(PathBuf::from("/x")));
    assert!(parameter(&mut app, message).is_empty());
    assert_eq!(app.configuration.file_picker_path, Some(PathBuf::from("/data")));
}

#[test]
fn the_directory_of_a_file_is_its_parent() {
    let file = PathBuf::from("/data/a.ini");
    let parent = file.parent().map(|p| p.to_path_buf());
    assert_eq!(picked_directory(file.clone(), false, parent.clone()), Some(PathBuf::from("/data")));
    assert_eq!(picked_directory(file.clone(), true, parent), Some(file.clone()));
    assert_eq!(picked_directory(file, false, None), None);
    let mut app = station();
    assert!(app.set_file_picker_path_config(None).is_empty());
    assert_eq!(app.set_file_picker_path_config(Some(PathBuf::from("/d"))).len(), 1);
}

#[test]
fn the_primary_vehicle_flies_the_circle_that_is_drawn() {
    let mut app = connected();
    assert!(update(&mut app, Message::FlyToPositionFinalize(place(9), 5)).is_empty());
    assert!(app.fly_to_position.end.is_none());
    update(&mut app, Message::FlyToPositionStart(place(1)));
    update(&mut app, Message::FlyToPositionInProgress(place(2)));
    assert_eq!(app.fly_to_position.end, Some(place(2)));
    let radius = 120.0f32.to_bits();
    let actions = update(&mut app, Message::FlyToPositionFinalize(place(3), radius));
    match &actions[..] {
        [Action::Send(Outgoing::CommandInt { target, command, frame, param1, param2, param3, param4, position, z })] =>
        {
            assert_eq!(*target, id(1));
            assert_eq!((*command, *frame), (MavCmd::DoReposition, MavFrame::GlobalInt));
            assert_eq!(*param1, (-1.0f32).to_bits());
            assert_eq!((*param2, *param3), (0, radius));
            assert!(f32::from_bits(*param4).is_nan());
            assert_eq!(*position, Some(place(1)));
            assert_eq!(*z, 1000.0f32.to_bits());
        }
        _ => panic!("a command"),
    }
    assert_eq!(app.fly_to_position.radius, Some(radius));
    assert_eq!(app.fly_to_position.end, Some(place(3)));
    update(&mut app, Message::FlyToPositionStart(place(5)));
    assert!(app.fly_to_position.radius.is_none() && app.fly_to_position.end.is_none());
    connection(&mut app, ConnectionMessage::DisconnectLink);
    assert!(update(&mut app, Message::FlyToPositionFinalize(place(6), radius)).is_empty());
}

#[test]
fn conversations_ask_in_order() {
    let steps = request_vehicle_info(id(4));
    assert!(matches!(
        steps[0],
        Step::Send(Outgoing::ParamRequestList { target }) if target == id(4)
    ));
    match &steps[1] {
        Step::Send(Outgoing::CommandLong { target, command, param1 }) => {
            assert_eq!((*target, *command), (id(4), MavCmd::RequestMessage));
            assert_eq!(*param1, 396.0f32.to_bits());
        }
        _ => panic!("a command"),
    }
    let steps = request_parameters(id(4), true);
    assert_eq!(steps.len(), 3);
    match &steps[0] {
        Step::Send(Outgoing::CommandInt { command, frame, param1, position, .. }) => {
            assert_eq!((*command, *frame), (MavCmd::RequestMessage, MavFrame::Global));
            assert_eq!(*param1, 148.0f32.to_bits());
            assert_eq!(*position, None);
        }
        _ => panic!("a command"),
    }
    assert!(matches!(steps[1], Step::Sleep { millis: 100 }));
    assert!(matches!(steps[2], Step::Send(Outgoing::ParamRequestList { .. })));
    assert_eq!(request_parameters(id(4), false).len(), 1);
    assert!(matches!(
        fly_to(id(4), place(1), 7),
        Outgoing::CommandInt { param3: 7, .. }
    ));
}

#[test]
fn acknowledgements_answer_their_command_and_station() {
    let own = MavlinkId { system: 255, component: 1 };
    assert!(acknowledges(own, MavCmd::RequestMessage, 512, own));
    assert!(!acknowledges(own, MavCmd::RequestMessage, 192, own));
    assert!(!acknowledges(own, MavCmd::RequestMessage, 512, id(1)));
    assert_eq!(MavCmd::DoReposition.number(), 192);
}

#[test]
fn a_parameter_of_one_vehicle_leaves_the_others_alone() {
    let mut app = connected();
    frame(&mut app, id(2), 148, PARAM_ENCODE_BYTEWISE.to_le_bytes().to_vec());
    frame(&mut app, id(2), 22, param_bytes("RC_MIN", 77, 1, 1, 0));
    assert_eq!(state(&app, "RC_MIN"), ParamState::Unchanged);
    let value = |app: &Application, n: u8| {
        app.vehicles
            .get(&id(n))
            .and_then(|v| v.parameters.map.get(&name("RC_MIN")).map(|p| p.value))
    };
    assert_eq!(value(&app, 1), Some(Value::U8(10)));
    assert_eq!(value(&app, 2), Some(Value::U8(77)));
    assert_eq!(app.vehicles.len(), 2);
}

#[test]
fn the_values_that_were_reported_change_by_reports_only() {
    let mut app = connected();
    let value = |app: &Application| {
        let vehicle = app.vehicles.get(&id(1)).expect("the vehicle is known");
        vehicle.parameters.map.get(&name("RC_MIN")).expect("the parameter is there").value
    };
    edit(&mut app, "RC_MIN", "11");
    assert_eq!(value(&app), Value::U8(10));
    parameter(&mut app, ParameterMessage::UploadAll(id(1)));
    assert_eq!(value(&app), Value::U8(10));
    parameter(&mut app, ParameterMessage::ValueUploadTimeout(id(1), name("RC_MIN")));
    assert_eq!(value(&app), Value::U8(10));
    parameter(&mut app, ParameterMessage::ListReload(id(1)));
    assert_eq!(value(&app), Value::U8(10));
    frame(&mut app, id(1), 22, param_bytes("RC_MIN", 11, 1, 2, 0));
    assert_eq!(value(&app), Value::U8(11));
}

#[test]
fn the_directory_of_a_saved_file_is_kept() {
    let mut app = connected();
    let path = PathBuf::from("/data/a.ini");
    let actions = parameter(&mut app, ParameterMessage::SaveToFile(path, Parameters::new()));
    assert!(matches!(actions[..], [Action::SaveFile(_, _)]));
    assert!(app.configuration.file_picker_path.is_none());
    let saved = ParameterMessage::Saved(Some(PathBuf::from("/data")));
    assert!(matches!(parameter(&mut app, saved)[..], [Action::WriteConfiguration]));
    assert_eq!(app.configuration.file_picker_path, Some(PathBuf::from("/data")));
    assert!(parameter(&mut app, ParameterMessage::Saved(None)).is_empty());
    assert_eq!(app.configuration.file_picker_path, Some(PathBuf::from("/data")));
    assert_eq!(app.vehicles.len(), 1);
}

#[test]
fn the_choice_of_a_file_leads_to_it() {
    let path = PathBuf::from("/data/a.ini");
    let mut parameters = Parameters::new();
    parameters.map.insert(name("A"), Parameter::new(Value::U8(1)));
    assert!(matches!(
        save_choice(Some(path.clone()), parameters),
        Some(ParameterMessage::SaveToFile(p, all)) if p == path && all.map.len() == 1
    ));
    assert!(save_choice(None, Parameters::new()).is_none());
    assert!(matches!(
        load_choice(Some(path.clone()), id(3)),
        Some(ParameterMessage::LoadFromFile(p, mav_id)) if p == path && mav_id == id(3)
    ));
    assert!(load_choice(None, id(3)).is_none());
}
