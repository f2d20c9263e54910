//! Flight modes, the sizes of messages, orders, what stands for what, and the text of
//! files.

use crate::application::{
    acts, maybe_config, Act, Action, Application, Configuration, ConnectionMessage, Message,
    Station,
};
use crate::dialect::{largest_payload, message_size};
use crate::file_text::{escaped, escaped_char, is_newline, writes_file, written, written_properties};
use crate::flight_mode::{Copter, Plane};
use crate::ident::{text_rank, AtomicMavlinkId, Ident, MavlinkId};
use crate::link::{maybe_text, variant_of, Builder, Config, LinkBuilder, LinkConfig, LinkVariant};
use crate::panel::{
    color_of, label_of, link_calls_for, list_statuses, marks_all, shows_line, shows_list, Line,
    LinkRequest, Marker, ParamLine, StatusLine,
};
use crate::parameter_file::{holds_value, lines, loaded, loads_sections, reads_lines, saves};
use crate::parameters::{Parameter, Parameters};
use crate::sorted::before;
use crate::udp::{settle, settle_connected, PollStep, SocketReply};
use crate::value::Value;
use crate::vehicle::{Status, Vehicle, VehicleState};
use crate::wire::{fits, kept, payload_fits, RawPayload};
use vstd::prelude::*;

verus! {

/// The numbers of the flight modes of a copter, both ways; other numbers stand for no
/// mode that is known.
pub proof fn law_copter_modes(number: u8, mode: Copter, a: Copter, b: u8)
    requires
        call_ensures(Copter::from_primitive, (number,), a),
        call_ensures(Copter::number, (&mode,), b),
    ensures
        number == 0 ==> a == Copter::Stabilize,
        number == 1 ==> a == Copter::Acro,
        number == 2 ==> a == Copter::AltHold,
        number == 3 ==> a == Copter::Auto,
        number == 4 ==> a == Copter::Guided,
        number == 5 ==> a == Copter::Loiter,
        number == 6 ==> a == Copter::Rtl,
        number == 7 ==> a == Copter::Circle,
        number == 9 ==> a == Copter::Land,
        number == 11 ==> a == Copter::Drift,
        number == 13 ==> a == Copter::Sport,
        number == 14 ==> a == Copter::Flip,
        number == 15 ==> a == Copter::Autotune,
        number == 16 ==> a == Copter::Poshold,
        number == 17 ==> a == Copter::Brake,
        number == 18 ==> a == Copter::Thriw,
        number == 19 ==> a == Copter::AvoidAdsb,
        number == 20 ==> a == Copter::GuidedNogps,
        number == 21 ==> a == Copter::SmartRtl,
        number == 22 ==> a == Copter::Flowhold,
        number == 23 ==> a == Copter::Follow,
        number == 24 ==> a == Copter::Zigzag,
        number == 25 ==> a == Copter::Systemid,
        number == 26 ==> a == Copter::Autorotate,
        number == 27 ==> a == Copter::AutoRtl,
        number == 28 ==> a == Copter::Turtle,
        number != 0 && number != 1 && number != 2 && number != 3 && number != 4 && number != 5 &&
            number != 6 && number != 7 && number != 9 && number != 11 && number != 13 &&
            number != 14 && number != 15 && number != 16 && number != 17 && number != 18 &&
            number != 19 && number != 20 && number != 21 && number != 22 && number != 23 &&
            number != 24 && number != 25 && number != 26 && number != 27 &&
            number != 28 ==> a == Copter::Unknown,
        mode == Copter::Stabilize ==> b == 0,
        mode == Copter::Acro ==> b == 1,
        mode == Copter::AltHold ==> b == 2,
        mode == Copter::Auto ==> b == 3,
        mode == Copter::Guided ==> b == 4,
        mode == Copter::Loiter ==> b == 5,
        mode == Copter::Rtl ==> b == 6,
        mode == Copter::Circle ==> b == 7,
        mode == Copter::Land ==> b == 9,
        mode == Copter::Drift ==> b == 11,
        mode == Copter::Sport ==> b == 13,
        mode == Copter::Flip ==> b == 14,
        mode == Copter::Autotune ==> b == 15,
        mode == Copter::Poshold ==> b == 16,
        mode == Copter::Brake ==> b == 17,
        mode == Copter::Thriw ==> b == 18,
        mode == Copter::AvoidAdsb ==> b == 19,
        mode == Copter::GuidedNogps ==> b == 20,
        mode == Copter::SmartRtl ==> b == 21,
        mode == Copter::Flowhold ==> b == 22,
        mode == Copter::Follow ==> b == 23,
        mode == Copter::Zigzag ==> b == 24,
        mode == Copter::Systemid ==> b == 25,
        mode == Copter::Autorotate ==> b == 26,
        mode == Copter::AutoRtl ==> b == 27,
        mode == Copter::Turtle ==> b == 28,
        mode == Copter::Unknown ==> b == 255,
{
    assert(crate::flight_mode::copter_number(Copter::Stabilize) == 0);
    assert(crate::flight_mode::copter_number(Copter::Acro) == 1);
    assert(crate::flight_mode::copter_number(Copter::AltHold) == 2);
    assert(crate::flight_mode::copter_number(Copter::Auto) == 3);
    assert(crate::flight_mode::copter_number(Copter::Guided) == 4);
    assert(crate::flight_mode::copter_number(Copter::Loiter) == 5);
    assert(crate::flight_mode::copter_number(Copter::Rtl) == 6);
    assert(crate::flight_mode::copter_number(Copter::Circle) == 7);
    assert(crate::flight_mode::copter_number(Copter::Land) == 9);
    assert(crate::flight_mode::copter_number(Copter::Drift) == 11);
    assert(crate::flight_mode::copter_number(Copter::Sport) == 13);
    assert(crate::flight_mode::copter_number(Copter::Flip) == 14);
    assert(crate::flight_mode::copter_number(Copter::Autotune) == 15);
    assert(crate::flight_mode::copter_number(Copter::Poshold) == 16);
    assert(crate::flight_mode::copter_number(Copter::Brake) == 17);
    assert(crate::flight_mode::copter_number(Copter::Thriw) == 18);
    assert(crate::flight_mode::copter_number(Copter::AvoidAdsb) == 19);
    assert(crate::flight_mode::copter_number(Copter::GuidedNogps) == 20);
    assert(crate::flight_mode::copter_number(Copter::SmartRtl) == 21);
    assert(crate::flight_mode::copter_number(Copter::Flowhold) == 22);
    assert(crate::flight_mode::copter_number(Copter::Follow) == 23);
    assert(crate::flight_mode::copter_number(Copter::Zigzag) == 24);
    assert(crate::flight_mode::copter_number(Copter::Systemid) == 25);
    assert(crate::flight_mode::copter_number(Copter::Autorotate) == 26);
    assert(crate::flight_mode::copter_number(Copter::AutoRtl) == 27);
    assert(crate::flight_mode::copter_number(Copter::Turtle) == 28);
    if number != 0 && number != 1 && number != 2 && number != 3 && number != 4 && number != 5 &&
        number != 6 && number != 7 && number != 9 && number != 11 && number != 13 &&
        number != 14 && number != 15 && number != 16 && number != 17 && number != 18 &&
        number != 19 && number != 20 && number != 21 && number != 22 && number != 23 &&
        number != 24 && number != 25 && number != 26 && number != 27 && number != 28 {
        assert forall|x: Copter| #[trigger] crate::flight_mode::copter_number(x) == number implies x
            == Copter::Unknown by {}
        assert(crate::flight_mode::copter_number(Copter::Unknown) == 255);
    }
}

/// The numbers of the flight modes of a plane, both ways; other numbers stand for no
/// mode that is known.
pub proof fn law_plane_modes(number: u8, mode: Plane, a: Plane, b: u8)
    requires
        call_ensures(Plane::from_primitive, (number,), a),
        call_ensures(Plane::number, (&mode,), b),
    ensures
        number == 0 ==> a == Plane::Manual,
        number == 1 ==> a == Plane::Circle,
        number == 2 ==> a == Plane::Stabilize,
        number == 3 ==> a == Plane::Training,
        number == 4 ==> a == Plane::Acro,
        number == 5 ==> a == Plane::FlyByWireA,
        number == 6 ==> a == Plane::FlyByWireB,
        number == 7 ==> a == Plane::Cruise,
        number == 8 ==> a == Plane::Autotune,
        number == 10 ==> a == Plane::Auto,
        number == 11 ==> a == Plane::Rtl,
        number == 12 ==> a == Plane::Loiter,
        number == 13 ==> a == Plane::Takeoff,
        number == 14 ==> a == Plane::AvoidAdsb,
        number == 15 ==> a == Plane::Guided,
        number == 16 ==> a == Plane::Initialising,
        number == 17 ==> a == Plane::Qstabilise,
        number == 18 ==> a == Plane::QHover,
        number == 19 ==> a == Plane::Qloiter,
        number == 20 ==> a == Plane::Qland,
        number == 21 ==> a == Plane::Qrtl,
        number == 22 ==> a == Plane::Qautotune,
        number == 23 ==> a == Plane::Qacro,
        number == 24 ==> a == Plane::Thermal,
        number == 25 ==> a == Plane::LoiterAltQland,
        number == 26 ==> a == Plane::Autoland,
        number != 0 && number != 1 && number != 2 && number != 3 && number != 4 && number != 5 &&
            number != 6 && number != 7 && number != 8 && number != 10 && number != 11 &&
            number != 12 && number != 13 && number != 14 && number != 15 && number != 16 &&
            number != 17 && number != 18 && number != 19 && number != 20 && number != 21 &&
            number != 22 && number != 23 && number != 24 && number != 25 &&
            number != 26 ==> a == Plane::Unknown,
        mode == Plane::Manual ==> b == 0,
        mode == Plane::Circle ==> b == 1,
        mode == Plane::Stabilize ==> b == 2,
        mode == Plane::Training ==> b == 3,
        mode == Plane::Acro ==> b == 4,
        mode == Plane::FlyByWireA ==> b == 5,
        mode == Plane::FlyByWireB ==> b == 6,
        mode == Plane::Cruise ==> b == 7,
        mode == Plane::Autotune ==> b == 8,
        mode == Plane::Auto ==> b == 10,
        mode == Plane::Rtl ==> b == 11,
        mode == Plane::Loiter ==> b == 12,
        mode == Plane::Takeoff ==> b == 13,
        mode == Plane::AvoidAdsb ==> b == 14,
        mode == Plane::Guided ==> b == 15,
        mode == Plane::Initialising ==> b == 16,
        mode == Plane::Qstabilise ==> b == 17,
        mode == Plane::QHover ==> b == 18,
        mode == Plane::Qloiter ==> b == 19,
        mode == Plane::Qland ==> b == 20,
        mode == Plane::Qrtl ==> b == 21,
        mode == Plane::Qautotune ==> b == 22,
        mode == Plane::Qacro ==> b == 23,
        mode == Plane::Thermal ==> b == 24,
        mode == Plane::LoiterAltQland ==> b == 25,
        mode == Plane::Autoland ==> b == 26,
        mode == Plane::Unknown ==> b == 255,
{
    assert(crate::flight_mode::plane_number(Plane::Manual) == 0);
    assert(crate::flight_mode::plane_number(Plane::Circle) == 1);
    assert(crate::flight_mode::plane_number(Plane::Stabilize) == 2);
    assert(crate::flight_mode::plane_number(Plane::Training) == 3);
    assert(crate::flight_mode::plane_number(Plane::Acro) == 4);
    assert(crate::flight_mode::plane_number(Plane::FlyByWireA) == 5);
    assert(crate::flight_mode::plane_number(Plane::FlyByWireB) == 6);
    assert(crate::flight_mode::plane_number(Plane::Cruise) == 7);
    assert(crate::flight_mode::plane_number(Plane::Autotune) == 8);
    assert(crate::flight_mode::plane_number(Plane::Auto) == 10);
    assert(crate::flight_mode::plane_number(Plane::Rtl) == 11);
    assert(crate::flight_mode::plane_number(Plane::Loiter) == 12);
    assert(crate::flight_mode::plane_number(Plane::Takeoff) == 13);
    assert(crate::flight_mode::plane_number(Plane::AvoidAdsb) == 14);
    assert(crate::flight_mode::plane_number(Plane::Guided) == 15);
    assert(crate::flight_mode::plane_number(Plane::Initialising) == 16);
    assert(crate::flight_mode::plane_number(Plane::Qstabilise) == 17);
    assert(crate::flight_mode::plane_number(Plane::QHover) == 18);
    assert(crate::flight_mode::plane_number(Plane::Qloiter) == 19);
    assert(crate::flight_mode::plane_number(Plane::Qland) == 20);
    assert(crate::flight_mode::plane_number(Plane::Qrtl) == 21);
    assert(crate::flight_mode::plane_number(Plane::Qautotune) == 22);
    assert(crate::flight_mode::plane_number(Plane::Qacro) == 23);
    assert(crate::flight_mode::plane_number(Plane::Thermal) == 24);
    assert(crate::flight_mode::plane_number(Plane::LoiterAltQland) == 25);
    assert(crate::flight_mode::plane_number(Plane::Autoland) == 26);
    if number != 0 && number != 1 && number != 2 && number != 3 && number != 4 && number != 5 &&
        number != 6 && number != 7 && number != 8 && number != 10 && number != 11 &&
        number != 12 && number != 13 && number != 14 && number != 15 && number != 16 &&
        number != 17 && number != 18 && number != 19 && number != 20 && number != 21 &&
        number != 22 && number != 23 && number != 24 && number != 25 && number != 26 {
        assert forall|x: Plane| #[trigger] crate::flight_mode::plane_number(x) == number implies x
            == Plane::Unknown by {}
        assert(crate::flight_mode::plane_number(Plane::Unknown) == 255);
    }
}

/// The sizes of the messages that are listened to, and of acknowledgements. Numbers that no
/// message has have no size.
pub proof fn law_sizes(id: u32, a: Option<usize>)
    requires
        call_ensures(largest_payload, (id,), a),
    ensures
        a matches Some(size) ==> message_size(id) == Some(size as nat),
        a is None ==> message_size(id) is None,
        message_size(0) == Some(9nat),
        message_size(1) == Some(43nat),
        message_size(22) == Some(25nat),
        message_size(30) == Some(28nat),
        message_size(31) == Some(48nat),
        message_size(33) == Some(28nat),
        message_size(63) == Some(181nat),
        message_size(77) == Some(10nat),
        message_size(147) == Some(54nat),
        message_size(148) == Some(78nat),
        message_size(253) == Some(54nat),
        message_size(396) == Some(160nat),
        id > 12920 ==> message_size(id) is None,
        message_size(id) matches Some(size) ==> 0 < size <= 255,
{
    reveal(message_size);
}

/// A payload fits where it is of MAVLink 1, or no longer than its message but for zeros at
/// its end, or of no message that is known.
pub proof fn law_fitting(payload: RawPayload, a: bool)
    requires
        call_ensures(payload_fits, (&payload,), a),
    ensures
        a == fits(payload),
        !payload.v2 ==> a,
        message_size(payload.id) is None ==> a,
        payload.v2 ==> (message_size(payload.id) matches Some(size) ==> a == (kept(
            payload.bytes@,
        ) <= size)),
{
}

/// Texts are ordered by their first difference, as the numbers of the characters are; a text
/// stands before every longer one that begins with it.
pub proof fn law_texts_are_ordered(
    common: Seq<char>,
    x: char,
    y: char,
    r: Seq<char>,
    s: Seq<char>,
)
    ensures
        x < y ==> before(text_rank(common + seq![x] + r), text_rank(common + seq![y] + s)),
        before(text_rank(common), text_rank(common + seq![x] + r)),
        !before(text_rank(common + seq![x] + r), text_rank(common)),
        !before(text_rank(common), text_rank(common)),
    decreases common.len(),
{
    let a = text_rank(common + seq![x] + r);
    let b = text_rank(common + seq![y] + s);
    let c = text_rank(common);
    if common.len() > 0 {
        let rest = common.skip(1);
        law_texts_are_ordered(rest, x, y, r, s);
        assert(a.skip(1) =~= text_rank(rest + seq![x] + r));
        assert(b.skip(1) =~= text_rank(rest + seq![y] + s));
        assert(c.skip(1) =~= text_rank(rest));
        assert(a[0] == common[0] as int && b[0] == common[0] as int && c[0] == common[0] as int);
    } else {
        assert(a[0] == x as int);
        assert(b[0] == y as int);
        assert(c.len() == 0);
    }
}

/// An id comes out of its cell as it was put in.
pub proof fn law_cells(sys: u8, com: u8, a: AtomicMavlinkId, cell: AtomicMavlinkId, b: MavlinkId)
    requires
        call_ensures(AtomicMavlinkId::new, (sys, com), a),
        call_ensures(AtomicMavlinkId::load, (&cell,), b),
    ensures
        a@.system == sys && a@.component == com,
        b == cell@,
        forall|c: &mut AtomicMavlinkId, mav_id: MavlinkId| #[trigger]
            call_ensures(AtomicMavlinkId::store, (c, mav_id), ()) ==> final(c)@ == mav_id,
{
}

/// A task that polls a socket is ready with what went through, waits where the socket is not
/// ready, and fails where it fails; it asks to be woken where the socket will not do that.
pub proof fn law_polling(reply: SocketReply, a: PollStep, b: PollStep)
    requires
        call_ensures(settle, (reply,), a),
        call_ensures(settle_connected, (reply,), b),
    ensures
        reply matches SocketReply::Done(n) ==> a == PollStep::Ready(n) && b == PollStep::Ready(n),
        reply is WouldBlock ==> a == (PollStep::Pending { wake: true }) && b == (PollStep::Pending {
            wake: true,
        }),
        reply is NotReady ==> a == (PollStep::Pending { wake: false }) && b == (PollStep::Pending {
            wake: false,
        }),
        reply is Failed ==> a == (PollStep::Fail { wake: true }) && b == (PollStep::Fail {
            wake: false,
        }),
{
}

/// What the user does in the panel of the link calls for just that: one field is changed, one
/// setting is set, and the button opens the link as it is built, or closes the connection.
pub proof fn law_link_requests(
    s: Station,
    request: LinkRequest,
    message: Option<Message>,
    text: String,
    baud: u32,
    variant: LinkVariant,
    follow: bool,
    mav_id: MavlinkId,
)
    requires
        link_calls_for(s, request, message),
    ensures
        request == LinkRequest::Variant(variant) ==> message == Some(
            Message::Connection(ConnectionMessage::ChangeLinkVariant(variant)),
        ),
        request == LinkRequest::Follow(follow) ==> message == Some(
            Message::SetFollowPrimaryVehicle(follow),
        ),
        request == LinkRequest::Primary(mav_id) ==> message == Some(
            Message::SetPrimaryVehicle(mav_id),
        ),
        request is Opened ==> message == Some(
            Message::Connection(ConnectionMessage::DetectSerialPorts),
        ),
        request == LinkRequest::Address(text) ==> (message matches Some(
            Message::Connection(ConnectionMessage::UpdateLinkBuilder(b)),
        ) && match s.builder {
            Builder::Tcp { addr, port } => b@ == (Builder::Tcp { addr: text@, port }),
            Builder::Udp { addr, port } => b@ == (Builder::Udp { addr: text@, port }),
            _ => b@ == s.builder,
        }),
        request == LinkRequest::Port(text) ==> (message matches Some(
            Message::Connection(ConnectionMessage::UpdateLinkBuilder(b)),
        ) && match s.builder {
            Builder::Tcp { addr, port } => b@ == (Builder::Tcp { addr, port: text@ }),
            Builder::Udp { addr, port } => b@ == (Builder::Udp { addr, port: text@ }),
            Builder::Serial { port, baud: rate, available_ports } => b@ == (Builder::Serial {
                port: Some(text@),
                baud: rate,
                available_ports,
            }),
        }),
        request == LinkRequest::Baud(baud) ==> (message matches Some(
            Message::Connection(ConnectionMessage::UpdateLinkBuilder(b)),
        ) && match s.builder {
            Builder::Serial { port, baud: rate, available_ports } => b@ == (Builder::Serial {
                port,
                baud,
                available_ports,
            }),
            _ => b@ == s.builder,
        }),
        request is Press && s.connected ==> message == Some(
            Message::Connection(ConnectionMessage::DisconnectLink),
        ),
        request is Press && !s.connected && s.build is None ==> message is None,
        request is Press && !s.connected && s.build is Some ==> (message matches Some(
            Message::Connection(ConnectionMessage::ConnectToLink(c)),
        ) && Some(c@) == s.build),
{
}

/// What the station holds is what its model has, each thing in its place.
pub proof fn law_models(app: Application, configuration: Configuration, vehicle: Vehicle)
    ensures
        app@.builder == app.builder@,
        app@.build == maybe_config(app.build),
        app@.connected == app.connected,
        app@.configuration == app.configuration@,
        app@.vehicles.len() == app.vehicles.entries@.len(),
        forall|i: int|
            0 <= i < app@.vehicles.len() ==> (#[trigger] app@.vehicles[i]).0
                == app.vehicles.entries@[i].0 && app@.vehicles[i].1
                == app.vehicles.entries@[i].1@,
        app@.parameter_filter == app.parameter_filter@,
        app.parameter_filtered is None <==> app@.parameter_filtered is None,
        app.parameter_filtered matches Some(p) ==> app@.parameter_filtered == Some(p@),
        app@.primary_vehicle == app.primary_vehicle,
        app@.follow_primary_vehicle == app.follow_primary_vehicle,
        app@.parameter_namespace_sep == app.parameter_namespace_sep,
        app@.fly_to_position == app.fly_to_position,
        app@.next_timer == app.next_timer,
        configuration@.link_config == maybe_config(configuration.link_config),
        configuration@.file_picker_path == configuration.file_picker_path,
        vehicle@.mav_id == vehicle.mav_id,
        vehicle@.mav_state == vehicle.mav_state,
        vehicle@.mav_type == vehicle.mav_type,
        vehicle@.capabilities == vehicle.capabilities,
        vehicle@.model_name == maybe_text(vehicle.model_name),
        vehicle@.vendor_name == maybe_text(vehicle.vendor_name),
        vehicle@.parameters == vehicle.parameters@.entries,
        vehicle@.has_loaded == vehicle.parameters@.has_loaded,
        vehicle@.expected_count == vehicle.parameters@.expected_count,
        vehicle@.link_info == vehicle.link_info.entries@,
        vehicle@.message_history == vehicle.message_history@,
        vehicle@.latest_message == vehicle.latest_message@,
        vehicle@.attitude == vehicle.attitude,
        vehicle@.angular_rates == vehicle.angular_rates,
        vehicle@.velocity_ned == vehicle.velocity_ned,
        vehicle@.altitude_msl == vehicle.altitude_msl,
        vehicle@.global_position == vehicle.global_position,
        vehicle@.global_positions == vehicle.global_positions@,
        vehicle@.battery_state == vehicle.battery_state,
        vehicle@.status_texts.len() == vehicle.status_texts@.len(),
        forall|i: int|
            0 <= i < vehicle@.status_texts.len() ==> {
                &&& (#[trigger] vehicle@.status_texts[i]).at == vehicle.status_texts@[i].at
                &&& vehicle@.status_texts[i].severity == vehicle.status_texts@[i].severity
                &&& vehicle@.status_texts[i].text == vehicle.status_texts@[i].text@
            },
{
}

/// What parameters and links hold is what their models have.
pub proof fn law_part_models(
    parameters: Parameters,
    builder: LinkBuilder,
    config: LinkConfig,
    config_there: Option<LinkConfig>,
    text_there: Option<String>,
)
    ensures
        parameters@.entries == parameters.map.entries@,
        parameters@.has_loaded == parameters.loading_state.has_loaded@,
        parameters@.expected_count == parameters.loading_state.expected_count,
        match builder {
            LinkBuilder::Tcp { addr, port } => builder@ == (Builder::Tcp {
                addr: addr@,
                port: port@,
            }),
            LinkBuilder::Udp { addr, port } => builder@ == (Builder::Udp {
                addr: addr@,
                port: port@,
            }),
            LinkBuilder::Serial { port, baud, available_ports } => builder@ matches Builder::Serial {
                port: p,
                baud: b,
                available_ports: all,
            } && p == maybe_text(port) && b == baud && all.len() == available_ports@.len() && forall|
                i: int,
            |
                0 <= i < all.len() ==> #[trigger] all[i] == available_ports@[i]@,
        },
        match config {
            LinkConfig::Tcp { sock_addr } => config@ == (Config::Tcp { sock_addr }),
            LinkConfig::Udp { sock_addr } => config@ == (Config::Udp { sock_addr }),
            LinkConfig::Serial { port, baud } => config@ == (Config::Serial { port: port@, baud }),
        },
        config_there matches Some(c) ==> maybe_config(config_there) == Some(c@),
        config_there is None ==> maybe_config(config_there) is None,
        text_there matches Some(t) ==> maybe_text(text_there) == Some(t@),
        text_there is None ==> maybe_text(text_there) is None,
{
}

/// An action is what its model has, with all that it holds, and actions keep their order.
pub proof fn law_actions(action: Action, all: Seq<Action>, i: int)
    ensures
        match action {
            Action::WriteConfiguration => action@ == Act::WriteConfiguration,
            Action::SaveLater => action@ == Act::SaveLater,
            Action::ShowPosition { lat, lon } => action@ == (Act::ShowPosition { lat, lon }),
            Action::Talk(steps) => action@ == Act::Talk(steps@),
            Action::Send(outgoing) => action@ == Act::Send(outgoing),
            Action::StartTimer { timer, mav_id, ident } => action@ == (Act::StartTimer {
                timer,
                mav_id,
                ident,
            }),
            Action::AbortTimer(timer) => action@ == Act::AbortTimer(timer),
            Action::Connect(config) => action@ == Act::Connect(config@),
            Action::Close => action@ == Act::Close,
            Action::StartHeartbeat => action@ == Act::StartHeartbeat,
            Action::ListSerialPorts => action@ == Act::ListSerialPorts,
            Action::OpenSaveDialog(parameters) => action@ == Act::OpenSaveDialog(parameters@),
            Action::OpenLoadDialog(mav_id) => action@ == Act::OpenLoadDialog(mav_id),
            Action::SaveFile(path, parameters) => action@ == Act::SaveFile(path, parameters@),
            Action::LoadFile(path, mav_id) => action@ == Act::LoadFile(path, mav_id),
        },
        acts(all).len() == all.len(),
        0 <= i < all.len() ==> acts(all)[i] == all[i]@,
{
}

/// The kind of a link.
pub proof fn law_kinds(builder: Builder)
    ensures
        builder is Tcp <==> variant_of(builder) == LinkVariant::Tcp,
        builder is Udp <==> variant_of(builder) == LinkVariant::Udp,
        builder is Serial <==> variant_of(builder) == LinkVariant::Serial,
{
}

/// A list shows line by line what it is to show.
pub proof fn law_shown_lists<F: Fn(u32) -> String>(
    real_text: F,
    mav_id: MavlinkId,
    entries: Seq<(Ident, Parameter)>,
    model: Seq<Line>,
    all: Seq<ParamLine>,
    k: int,
)
    requires
        shows_list(real_text, mav_id, entries, model, all),
        0 <= k < model.len(),
    ensures
        all.len() == model.len(),
        match model[k] {
            Line::Rule => all[k] is Rule,
            Line::Header(name) => all[k] matches ParamLine::Header(text) && text@ == name,
            Line::Row(i) => all[k] matches ParamLine::Row(row) && 0 <= i < entries.len()
                && crate::panel::shows(real_text, mav_id, entries[i], row),
        },
{
    assert(shows_line(real_text, mav_id, entries, model[k], all[k]));
}

/// Status texts are listed one by one, each with its severity in brackets, its text, and
/// every other one brighter.
pub proof fn law_shown_statuses(vehicle: Vehicle, r: Vec<StatusLine>, i: int)
    requires
        call_ensures(list_statuses, (&vehicle,), r),
        0 <= i < vehicle@.status_texts.len(),
    ensures
        r@.len() == vehicle@.status_texts.len(),
        r@[i].text@ == vehicle@.status_texts[i].text,
        r@[i].label@ == label_of(vehicle@.status_texts[i].severity),
        r@[i].color == color_of(vehicle@.status_texts[i].severity),
        r@[i].brighter <==> i % 2 == 1,
{
}

/// The vehicles on the map are shown one by one.
pub proof fn law_shown_markers(s: Station, known: Seq<VehicleState>, all: Seq<Marker>, i: int)
    requires
        marks_all(s, known, all),
        0 <= i < known.len(),
    ensures
        all.len() == known.len(),
        crate::panel::marks(s, known[i], all[i]),
{
}

/// The names and the values of lines are made one by one, each of its own line.
pub proof fn law_lines_are_read<F: Fn(&str) -> Ident, G: Fn(&str) -> Option<u32>>(
    ident_of: F,
    read_real: G,
    all: Seq<(Seq<char>, Seq<char>)>,
    idents: Seq<Ident>,
    values: Seq<Option<Value>>,
    j: int,
)
    requires
        reads_lines(ident_of, read_real, all, idents, values),
        0 <= j < all.len(),
    ensures
        idents.len() == all.len() && values.len() == all.len(),
        exists|s: &str| s@ == all[j].0 && #[trigger] call_ensures(ident_of, (s,), idents[j]),
        holds_value(read_real, all[j].1, values[j]),
{
    assert(crate::parameter_file::names(ident_of, all[j].0, idents[j]));
    assert(holds_value(read_real, all[j].1, values[j]));
}

/// What is loaded of a document are its lines, and the count of what came in starts at none.
pub proof fn law_documents_are_loaded<F: Fn(&str) -> Ident, G: Fn(&str) -> Option<u32>>(
    ident_of: F,
    read_real: G,
    sections: Seq<(Option<Seq<char>>, Seq<(Seq<char>, Seq<char>)>)>,
    r: Parameters,
)
    requires
        loads_sections(ident_of, read_real, sections, r),
    ensures
        r@.has_loaded == Set::<u16>::empty(),
        r@.expected_count == 0,
        exists|idents: Seq<Ident>, values: Seq<Option<Value>>| #[trigger]
            reads_lines(ident_of, read_real, lines(sections), idents, values) && forall|
                key: Seq<int>,
            | #[trigger] r.map.at(key) == loaded(idents, values, key),
{
}

/// The text of a file is that of its document, with a colon and a blank between keys and
/// values.
pub proof fn law_files_are_written<F: Fn(u32) -> String>(
    real_text: F,
    entries: Seq<(Ident, Parameter)>,
    sep: char,
    text: Seq<char>,
)
    requires
        writes_file(real_text, entries, sep, text),
    ensures
        exists|
            sections: Seq<(Option<Seq<char>>, Seq<(Seq<char>, Seq<char>)>)>,
            kv: Seq<char>,
            newline: Seq<char>,
        |
            #![trigger written(sections, kv, newline)]
            saves(real_text, entries, sep, sections) && kv == seq![':', ' '] && (newline
                == seq!['\n'] || newline == seq!['\r', '\n']) && text == written(
                sections,
                kv,
                newline,
            ),
{
    let sections = choose|
        sections: Seq<(Option<Seq<char>>, Seq<(Seq<char>, Seq<char>)>)>,
    | #[trigger]
        saves(real_text, entries, sep, sections) && crate::file_text::is_text_of(sections, text);
    let kv = seq![':', ' '];
    let newline = choose|newline: Seq<char>|
        is_newline(newline) && text == #[trigger] written(sections, kv, newline);
    assert(text == written(sections, kv, newline));
}

/// Each property is written on a line of its own, and text without control characters and
/// backslashes as it is.
pub proof fn law_properties_are_written(
    properties: Seq<(Seq<char>, Seq<char>)>,
    key: Seq<char>,
    value: Seq<char>,
    kv: Seq<char>,
    newline: Seq<char>,
    c: char,
)
    ensures
        written_properties(Seq::<(Seq<char>, Seq<char>)>::empty(), kv, newline).len() == 0,
        written_properties(properties.push((key, value)), kv, newline) == written_properties(
            properties,
            kv,
            newline,
        ) + escaped(key) + kv + escaped(value) + newline,
        escaped(Seq::<char>::empty()).len() == 0,
        escaped(key.push(c)) == escaped(key) + escaped_char(c),
        c as int >= 32 && c as int != 127 && c as int != 92 ==> escaped_char(c) == seq![c],
{
    assert(properties.push((key, value)).drop_last() =~= properties);
    assert(key.push(c).drop_last() =~= key);
}

/// Sections are written one behind the other: the name in brackets on a line, then the
/// properties, with an empty line between two sections that have some.
pub proof fn law_sections_are_written(
    sections: Seq<(Option<Seq<char>>, Seq<(Seq<char>, Seq<char>)>)>,
    name: Seq<char>,
    properties: Seq<(Seq<char>, Seq<char>)>,
    kv: Seq<char>,
    newline: Seq<char>,
)
    requires
        properties.len() > 0,
    ensures
        (exists|i: int| 0 <= i < sections.len() && (#[trigger] sections[i]).1.len() > 0) ==> written(
            sections.push((Some(name), properties)),
            kv,
            newline,
        ) == written(sections, kv, newline) + newline + seq!['['] + escaped(name) + seq![']']
            + newline + written_properties(properties, kv, newline),
        (forall|i: int| 0 <= i < sections.len() ==> (#[trigger] sections[i]).1.len() == 0)
            ==> written(sections.push((Some(name), properties)), kv, newline) == written(
            sections,
            kv,
            newline,
        ) + seq!['['] + escaped(name) + seq![']'] + newline + written_properties(
            properties,
            kv,
            newline,
        ),
{
    let now = sections.push((Some(name), properties));
    assert(now.drop_last() =~= sections);
    let title = seq!['['] + escaped(name) + seq![']'] + newline;
    if crate::file_text::has_properties(sections) {
        assert(written(now, kv, newline) =~= written(sections, kv, newline) + newline + seq!['[']
            + escaped(name) + seq![']'] + newline + written_properties(properties, kv, newline));
    } else {
        assert(written(now, kv, newline) =~= written(sections, kv, newline) + seq!['['] + escaped(
            name,
        ) + seq![']'] + newline + written_properties(properties, kv, newline));
    }
}

} // verus!
