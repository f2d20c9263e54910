//! What the station shows.

use groundhog::application::{
    Application, Configuration, ConnectionMessage, Message, ParameterMessage,
};
use groundhog::command::Geodetic;
use groundhog::ident::{Ident, MavlinkId};
use groundhog::link::{LinkBuilder, LinkConfig, LinkId, LinkVariant, SerialPort};
use groundhog::panel::{
    FieldMark, Gesture, LinkButton, LinkFields, LinkRequest, ParamLine, ParameterRequest,
    PointerEvent, StatusColor,
};
use groundhog::parameters::{Parameter, Parameters};
use groundhog::telemetry::{
    AttitudeEuler, GlobalPositionInt, Heartbeat, MavSeverity, Statustext, SysStatus, Telemetry,
};
use groundhog::value::Value;
use groundhog::wire::{RawPayload, WireMessage};
use std::time::Instant;

fn real_text(bits: u32) -> String {
    f32::from_bits(bits).to_string()
}

fn wire_name(_raw: &[u8; 16]) -> Option<Ident> {
    None
}

fn name(s: &str) -> Ident {
    Ident::new(s).expect("a short name")
}

fn id(system: u8) -> MavlinkId {
    MavlinkId { system, component: 1 }
}

fn hear(app: &mut Application, mav_id: MavlinkId, content: Telemetry) {
    let payload = RawPayload { id: content.id(), v2: true, bytes: vec![] };
    let message = WireMessage { payload, content };
    app.receive_frame(Instant::now(), mav_id, message, LinkId(0));
}

fn heartbeat() -> Telemetry {
    Telemetry::Heartbeat(Heartbeat { mav_type: 1, system_status: 1 })
}

fn position(lat: i32) -> Telemetry {
    Telemetry::GlobalPositionInt(GlobalPositionInt {
        lat,
        lon: 0,
        alt: 0,
        relative_alt: 0,
        vx: 0,
        vy: 0,
        vz: 0,
    })
}

fn update(app: &mut Application, message: Message) {
    app.maybe_update(Instant::now(), message, &real_text, &wire_name);
}

fn station() -> Application {
    Application::boot(Configuration::new())
}

fn with_parameters(names: &[&str]) -> Application {
    let mut app = station();
    hear(&mut app, id(1), heartbeat());
    let mut parameters = Parameters::new();
    for n in names {
        parameters.map.insert(name(n), Parameter::new(Value::F32(0.5f32.to_bits())));
    }
    match app.vehicles.get_mut(&id(1)) {
        Some(vehicle) => vehicle.parameters = parameters,
        None => panic!("the vehicle is known"),
    }
    app
}

fn outline(lines: &[ParamLine]) -> Vec<String> {
    lines
        .iter()
        .map(|line| match line {
            ParamLine::Rule => "---".to_string(),
            ParamLine::Header(text) => text.clone(),
            ParamLine::Row(row) => row.ident.as_str().to_string(),
        })
        .collect()
}

#[test]
fn parameters_are_listed_by_section() {
    let app = with_parameters(&["A_ONE", "A_TWO", "B_ONE", "plain", "z_last"]);
    let lines = app.view_param_list(&real_text).expect("a vehicle is known");
    assert_eq!(
        outline(&lines),
        vec![
            "[A]", "A_ONE", "A_TWO", "---", "[B]", "B_ONE", "---", "plain", "[z]", "z_last",
        ]
    );
}

#[test]
fn there_is_no_list_without_a_vehicle() {
    let mut app = station();
    assert!(app.view_param_list(&real_text).is_none());
    assert!(app.view_parameter_panel().is_none());
    assert!(app.parameter_panel_message(ParameterRequest::Save).is_none());
    update(&mut app, Message::SetPrimaryVehicle(id(5)));
    assert!(app.view_param_list(&real_text).is_none());
    assert!(app.view_parameter_panel().is_none());
}

#[test]
fn rows_show_what_can_be_done() {
    let mut app = with_parameters(&["A"]);
    let row = |app: &Application| match app.view_param_list(&real_text) {
        Some(mut lines) => match lines.pop() {
            Some(ParamLine::Row(row)) => row,
            _ => panic!("a row"),
        },
        None => panic!("a list"),
    };
    let first = row(&app);
    assert_eq!((first.kind, first.text.as_str(), first.mark), ("f32", "0.5", FieldMark::Plain));
    assert!(!first.restore && first.upload.is_none());
    assert_eq!(first.mav_id, id(1));
    assert!(first.restore_message().is_none() && first.upload_message().is_none());
    let bits = 2.0f32.to_bits();
    update(
        &mut app,
        Message::Parameter(ParameterMessage::BufferEdit(id(1), name("A"), "2.0".to_string(), Some(bits))),
    );
    let second = row(&app);
    assert_eq!((second.text.as_str(), second.mark), ("2.0", FieldMark::Changed));
    assert!(second.restore);
    assert_eq!(second.upload, Some(Value::F32(bits)));
    assert!(matches!(
        second.restore_message(),
        Some(ParameterMessage::ValueReset(mav_id, ident)) if mav_id == id(1) && ident.as_str() == "A"
    ));
    assert!(matches!(
        second.upload_message(),
        Some(ParameterMessage::ValueUpload(mav_id, ident, Value::F32(b)))
            if mav_id == id(1) && ident.as_str() == "A" && b == bits
    ));
    assert!(matches!(
        second.edit_message("7".to_string(), None),
        ParameterMessage::BufferEdit(mav_id, ident, text, None)
            if mav_id == id(1) && ident.as_str() == "A" && text == "7"
    ));
    update(&mut app, Message::Connection(ConnectionMessage::ConnectSuccess));
    update(
        &mut app,
        Message::Parameter(ParameterMessage::ValueUpload(id(1), name("A"), Value::F32(bits))),
    );
    let third = row(&app);
    assert_eq!(third.mark, FieldMark::Uploading);
    assert!(!third.restore && third.upload.is_none());
}

#[test]
fn a_filter_shortens_the_list_but_not_what_is_saved() {
    let mut app = with_parameters(&["A_ONE", "B_ONE"]);
    update(&mut app, Message::Parameter(ParameterMessage::FilterBuf("b_".to_string())));
    let lines = app.view_param_list(&real_text).expect("a vehicle is known");
    assert_eq!(outline(&lines), vec!["[B]", "B_ONE"]);
    match app.parameter_panel_message(ParameterRequest::Save) {
        Some(ParameterMessage::SaveDialog(parameters)) => assert_eq!(parameters.map.len(), 2),
        _ => panic!("all parameters are saved"),
    }
}

#[test]
fn the_panel_tells_how_many_parameters_came_in() {
    let mut app = with_parameters(&["A"]);
    match app.vehicles.get_mut(&id(1)) {
        Some(vehicle) => {
            vehicle.parameters.loading_state.expected_count = 2;
            vehicle.parameters.loading_state.has_loaded.insert(0);
        }
        None => panic!("the vehicle is known"),
    }
    let panel = app.view_parameter_panel().expect("a vehicle is known");
    assert_eq!((panel.mav_id, panel.got, panel.expected, panel.complete), (id(1), 1, 2, false));
    match app.vehicles.get_mut(&id(1)) {
        Some(vehicle) => {
            vehicle.parameters.loading_state.has_loaded.insert(1);
        }
        None => panic!("the vehicle is known"),
    }
    assert!(app.view_parameter_panel().is_some_and(|p| p.complete));
}

#[test]
fn the_top_panel_shows_the_link() {
    let mut app = station();
    let panel = app.view_top_panel();
    assert_eq!(panel.variant, LinkVariant::Udp);
    assert!(matches!(&panel.fields, LinkFields::Network { port, .. } if port == "14550"));
    assert!(matches!(panel.button, LinkButton::Connect(Some(_))));
    assert!(!panel.follow && panel.vehicles.is_empty() && panel.primary.is_none());
    update(&mut app, Message::Connection(ConnectionMessage::ChangeLinkVariant(LinkVariant::Serial)));
    let panel = app.view_top_panel();
    match &panel.fields {
        LinkFields::Serial { port, ports, placeholder, baud } => {
            assert!(port.is_none() && ports.is_empty());
            assert_eq!((*placeholder, *baud), ("No connection", 115_200));
        }
        _ => panic!("a serial link"),
    }
    assert!(matches!(panel.button, LinkButton::Connect(None)));
    let found = vec![SerialPort { name: "COM1".to_string(), usb: true }];
    update(&mut app, Message::Connection(ConnectionMessage::FoundSerialPorts(Some(found))));
    assert!(matches!(
        app.view_top_panel().fields,
        LinkFields::Serial { placeholder: "Select a port", .. }
    ));
    update(&mut app, Message::Connection(ConnectionMessage::ConnectSuccess));
    assert!(matches!(app.view_top_panel().button, LinkButton::Disconnect));
}

#[test]
fn vehicles_are_offered_once_there_is_a_choice() {
    let mut app = station();
    hear(&mut app, id(2), heartbeat());
    assert!(app.view_top_panel().vehicles.is_empty());
    hear(&mut app, id(1), heartbeat());
    let panel = app.view_top_panel();
    assert_eq!(
        panel.vehicles,
        vec![
            (id(1), "Unknown Unknown (mav 1:1)".to_string()),
            (id(2), "Unknown Unknown (mav 2:1)".to_string()),
        ]
    );
    assert_eq!(panel.primary, Some(id(2)));
}

#[test]
fn the_side_panel_shows_the_primary_vehicle() {
    let mut app = station();
    let panel = app.view_right_side_panel();
    assert!(panel.attitude.is_none() && panel.battery.is_none() && panel.statuses.is_none());
    hear(
        &mut app,
        id(1),
        Telemetry::SysStatus(SysStatus { voltage_battery: 1, current_battery: 2, battery_remaining: 3 }),
    );
    hear(
        &mut app,
        id(1),
        Telemetry::Attitude(AttitudeEuler {
            roll: 1,
            pitch: 2,
            yaw: 3,
            rollspeed: 0,
            pitchspeed: 0,
            yawspeed: 0,
        }),
    );
    let panel = app.view_right_side_panel();
    assert_eq!(panel.battery.map(|b| b.voltage), Some(1));
    assert!(panel.attitude.is_some());
    assert!(panel.statuses.is_some_and(|s| s.is_empty()));
}

#[test]
fn status_texts_are_told_apart_by_colour() {
    let mut app = station();
    let all = [
        (MavSeverity::Emergency, "[Emergency]", StatusColor::Danger),
        (MavSeverity::Alert, "[Alert]", StatusColor::Danger),
        (MavSeverity::Critical, "[Critical]", StatusColor::Danger),
        (MavSeverity::Error, "[Error]", StatusColor::Danger),
        (MavSeverity::Warning, "[Warning]", StatusColor::Warning),
        (MavSeverity::Notice, "[Notice]", StatusColor::Warning),
        (MavSeverity::Info, "[Info]", StatusColor::Primary),
        (MavSeverity::Debug, "[Debug]", StatusColor::Secondary),
    ];
    for (severity, _, _) in all {
        hear(&mut app, id(1), Telemetry::Statustext(Statustext { severity, text: b"x".to_vec() }));
    }
    let lines = app.view_right_side_panel().statuses.expect("a vehicle is known");
    assert_eq!(lines.len(), all.len());
    for (i, (severity, label, color)) in all.iter().enumerate() {
        assert_eq!(lines[i].label, *label);
        assert_eq!(lines[i].label, format!("[{:?}]", severity));
        assert_eq!(lines[i].color, *color);
        assert_eq!(lines[i].text, "x");
        assert_eq!(lines[i].brighter, i % 2 == 1);
    }
}

#[test]
fn the_map_shows_vehicles_and_their_tracks() {
    let mut app = station();
    hear(&mut app, id(1), heartbeat());
    assert!(app.view_osm_map().is_empty());
    hear(&mut app, id(2), position(1));
    let markers = app.view_osm_map();
    assert_eq!(markers.len(), 1);
    assert!(markers[0].track.is_empty() && markers[0].circle.is_none());
    hear(&mut app, id(2), position(2));
    hear(&mut app, id(2), position(3));
    hear(&mut app, id(1), position(9));
    let markers = app.view_osm_map();
    assert_eq!(markers.iter().map(|m| m.position.lat).collect::<Vec<i32>>(), vec![9, 3]);
    let pieces: Vec<(i32, i32)> = markers[1].track.iter().map(|(a, b)| (a.lat, b.lat)).collect();
    assert_eq!(pieces, vec![(1, 2), (2, 3)]);
}

#[test]
fn circles_are_drawn_with_the_right_button() {
    let mut app = station();
    let here = Geodetic { latitude: 1, longitude: 2 };
    let there = Geodetic { latitude: 3, longitude: 4 };
    assert_eq!(app.map_gesture(PointerEvent::Moved, true, there), None);
    assert_eq!(app.map_gesture(PointerEvent::RightPressed, false, there), None);
    assert_eq!(app.map_gesture(PointerEvent::RightPressed, true, there), Some(Gesture::Start(there)));
    update(&mut app, Message::FlyToPositionStart(here));
    assert_eq!(app.map_gesture(PointerEvent::Moved, true, there), Some(Gesture::Draw(there)));
    update(&mut app, Message::FlyToPositionInProgress(there));
    hear(&mut app, id(1), position(1));
    assert_eq!(app.view_osm_map()[0].circle, Some((here, there)));
    assert_eq!(app.map_gesture(PointerEvent::RightReleased, true, there), Some(Gesture::Finish(there)));
    assert_eq!(app.map_gesture(PointerEvent::RightReleased, false, there), None);
    update(&mut app, Message::FlyToPositionFinalize(there, 7));
    assert_eq!(app.map_gesture(PointerEvent::Moved, true, there), None);
    assert_eq!(app.map_gesture(PointerEvent::Other, true, there), None);
}

#[test]
fn gestures_call_for_a_circle() {
    let place = Geodetic { latitude: 3, longitude: 4 };
    assert!(matches!(
        Gesture::Start(place).message(7),
        Message::FlyToPositionStart(p) if p == place
    ));
    assert!(matches!(
        Gesture::Draw(place).message(7),
        Message::FlyToPositionInProgress(p) if p == place
    ));
    assert!(matches!(
        Gesture::Finish(place).message(7),
        Message::FlyToPositionFinalize(p, 7) if p == place
    ));
}

#[test]
fn the_panel_of_parameters_calls_for_the_primary_vehicle() {
    let mut app = with_parameters(&["A"]);
    hear(&mut app, id(2), heartbeat());
    assert!(matches!(
        app.parameter_panel_message(ParameterRequest::Reload),
        Some(ParameterMessage::ListReload(mav_id)) if mav_id == id(1)
    ));
    assert!(matches!(
        app.parameter_panel_message(ParameterRequest::Upload),
        Some(ParameterMessage::UploadAll(mav_id)) if mav_id == id(1)
    ));
    assert!(matches!(
        app.parameter_panel_message(ParameterRequest::Load),
        Some(ParameterMessage::LoadDialog(mav_id)) if mav_id == id(1)
    ));
    assert!(matches!(
        app.parameter_panel_message(ParameterRequest::Filter("x".to_string())),
        Some(ParameterMessage::FilterBuf(text)) if text == "x"
    ));
}

#[test]
fn the_panel_of_the_link_calls_for_links() {
    let mut app = station();
    let connection = |app: &Application, request| match app.top_panel_message(request) {
        Some(Message::Connection(message)) => message,
        _ => panic!("something about the connection"),
    };
    assert!(matches!(
        connection(&app, LinkRequest::Variant(LinkVariant::Tcp)),
        ConnectionMessage::ChangeLinkVariant(LinkVariant::Tcp)
    ));
    assert!(matches!(
        connection(&app, LinkRequest::Address("1.2.3.4".to_string())),
        ConnectionMessage::UpdateLinkBuilder(LinkBuilder::Udp { addr, port })
            if addr == "1.2.3.4" && port == "14550"
    ));
    assert!(matches!(
        connection(&app, LinkRequest::Port("9".to_string())),
        ConnectionMessage::UpdateLinkBuilder(LinkBuilder::Udp { port, .. }) if port == "9"
    ));
    assert!(matches!(
        app.top_panel_message(LinkRequest::Follow(true)),
        Some(Message::SetFollowPrimaryVehicle(true))
    ));
    assert!(matches!(
        app.top_panel_message(LinkRequest::Primary(id(6))),
        Some(Message::SetPrimaryVehicle(mav_id)) if mav_id == id(6)
    ));
    assert!(matches!(
        connection(&app, LinkRequest::Press),
        ConnectionMessage::ConnectToLink(LinkConfig::Udp { .. })
    ));
    update(&mut app, Message::Connection(ConnectionMessage::ChangeLinkVariant(LinkVariant::Serial)));
    assert!(app.top_panel_message(LinkRequest::Press).is_none());
    assert!(matches!(
        connection(&app, LinkRequest::Opened),
        ConnectionMessage::DetectSerialPorts
    ));
    assert!(matches!(
        connection(&app, LinkRequest::Baud(9600)),
        ConnectionMessage::UpdateLinkBuilder(LinkBuilder::Serial { baud: 9600, .. })
    ));
    update(&mut app, Message::Connection(ConnectionMessage::ConnectSuccess));
    assert!(matches!(connection(&app, LinkRequest::Press), ConnectionMessage::DisconnectLink));
}
