//! The station: what happens to it, and what that calls for.

use crate::application::{
    after_frame, after_received, booted, connection_happens, consistent, frame_acts, happens, heard,
    maybe_config, refreshed, vehicle_of, Act, Configuration, ConnectionMessage, FlyToPositionState,
    Message, ParameterMessage, Settings, Station,
};
use crate::command::{Geodetic, MavCmd, MavFrame, Outgoing, Step};
use crate::ident::{Ident, MavlinkId};
use crate::laws::parameters::{lemma_stands_at, lemma_stranger, stands_at, stranger};
use crate::laws::vehicles::law_new_vehicles_are_asked;
use crate::link::{
    built, default_of, ordered, typed, usb_names, Builder, LinkBuilder, LinkConfig, LinkId,
    LinkVariant, SerialPort,
};
use crate::parameter_update::updates;
use crate::parameters::{matching, name_holds, Parameter};
use crate::sorted::{law_with_entry, lemma_before_one, sorted, value_at, Key};
use crate::telemetry::Telemetry;
use crate::text::{has_part, lowercase};
use crate::vehicle::{after_message, told, unknown_vehicle, VehicleLinkInfo, VehicleState};
use crate::wire::{frame_holds, RawFrame, WireMessage};
use std::time::Instant;
use vstd::prelude::*;

verus! {

/// The station starts with the link of the last run, or with a new one over UDP, and with
/// nothing else.
pub proof fn law_starting(configuration: Settings)
    ensures
        ({
            let s = booted(configuration);
            &&& s.configuration == configuration
            &&& configuration.link_config matches Some(config) ==> s.builder == typed(config)
            &&& configuration.link_config is None ==> s.builder == default_of(LinkVariant::Udp)
            &&& s.build == built(s.builder)
            &&& !s.connected && !s.follow_primary_vehicle
            &&& s.vehicles.len() == 0 && s.primary_vehicle is None
            &&& s.parameter_filter.len() == 0 && s.parameter_filtered is None
            &&& s.parameter_namespace_sep == '_'
            &&& s.fly_to_position.start is None && s.fly_to_position.end is None
            &&& s.fly_to_position.radius is None && s.fly_to_position.altitude is None
        }),
{
}

// ---------------------------------------------------------------------------
// Frames
// ---------------------------------------------------------------------------

/// A message makes its vehicle known, or adds to what is known of it: the time of the last
/// message over its link, and what it tells. Other links of the vehicle stay.
pub proof fn law_vehicles_are_heard(
    s: Station,
    now: Instant,
    mav_id: MavlinkId,
    message: WireMessage,
    link_id: LinkId,
    k: int,
    v: VehicleState,
    other: LinkId,
)
    requires
        consistent(s),
        stands_at(s, k, mav_id, v) || (stranger(s, mav_id) && v == unknown_vehicle(mav_id)),
    ensures
        vehicle_of(after_frame(s, now, mav_id, message, link_id), mav_id) matches Some(w) && {
            let u = VehicleState { link_info: w.link_info, ..v };
            &&& w == after_message(u, now, message)
            &&& value_at(w.link_info, link_id.rank()) matches Some(info) && info.last_message
                == Some(now)
            &&& other != link_id ==> value_at(w.link_info, other.rank()) == value_at(
                v.link_info,
                other.rank(),
            )
        },
{
    if stranger(s, mav_id) {
        lemma_stranger(s, mav_id);
        assert(sorted(v.link_info));
    } else {
        lemma_stands_at(s, k, mav_id, v);
        crate::application::lemma_vehicle_valid(s, mav_id);
    }
    let info = VehicleLinkInfo { last_message: Some(now) };
    law_with_entry(v.link_info, link_id, info);
    lemma_before_one(other.0 as int, link_id.0 as int);
    law_with_entry(s.vehicles, mav_id, heard(s, now, mav_id, message, link_id));
    let w = heard(s, now, mav_id, message, link_id);
    let u = VehicleState { link_info: w.link_info, ..v };
    assert(u == (VehicleState {
        link_info: crate::sorted::with_entry(v.link_info, link_id, info),
        ..v
    }));
}

/// The first vehicle that is heard becomes the primary one; later ones do not. Of all but
/// the vehicles, the primary one and the filtered parameters nothing changes, and those are
/// kept up to date while the primary vehicle speaks.
pub proof fn law_frames_change_no_settings(
    s: Station,
    now: Instant,
    mav_id: MavlinkId,
    message: WireMessage,
    link_id: LinkId,
)
    ensures
        ({
            let t = after_frame(s, now, mav_id, message, link_id);
            let primary = if s.vehicles.len() == 0 {
                Some(mav_id)
            } else {
                s.primary_vehicle
            };
            &&& t.primary_vehicle == primary
            &&& t == (Station {
                vehicles: t.vehicles,
                primary_vehicle: t.primary_vehicle,
                parameter_filtered: t.parameter_filtered,
                ..s
            })
            &&& primary != Some(mav_id) ==> t.parameter_filtered == s.parameter_filtered
            &&& primary == Some(mav_id) ==> t == refreshed(t)
        }),
{
}

/// A vehicle that was not known is asked to introduce itself, over a connection. Where the
/// primary vehicle is followed, its position is shown with each of its messages, once it is
/// known. Nothing else is called for.
pub proof fn law_frames_call_for(
    s: Station,
    now: Instant,
    mav_id: MavlinkId,
    message: WireMessage,
    link_id: LinkId,
    k: int,
    v: VehicleState,
)
    requires
        consistent(s),
        stands_at(s, k, mav_id, v) || stranger(s, mav_id),
    ensures
        ({
            let acts = frame_acts(s, now, mav_id, message, link_id);
            let t = after_frame(s, now, mav_id, message, link_id);
            let asked = stranger(s, mav_id) && s.connected;
            let position = vehicle_of(t, mav_id)->0.global_position;
            let shown = s.follow_primary_vehicle && t.primary_vehicle == Some(mav_id)
                && position is Some;
            &&& asked ==> acts.len() >= 1 && (acts[0] matches Act::Talk(steps) && steps.len() == 3
                && steps[0] == Step::Send(Outgoing::ParamRequestList { target: mav_id }) && steps[1]
                == Step::Send(
                Outgoing::CommandLong {
                    target: mav_id,
                    command: MavCmd::RequestMessage,
                    param1: 0x43c6_0000,
                },
            ) && steps[2] == Step::AwaitAck(MavCmd::RequestMessage))
            &&& shown ==> acts.len() >= 1 && acts.last() == (Act::ShowPosition {
                lat: position->0.lat,
                lon: position->0.lon,
            })
            &&& acts.len() == (if asked {
                1int
            } else {
                0
            }) + (if shown {
                1int
            } else {
                0
            })
        }),
{
    law_new_vehicles_are_asked(mav_id);
    law_with_entry(s.vehicles, mav_id, heard(s, now, mav_id, message, link_id));
    if stands_at(s, k, mav_id, v) {
        lemma_stands_at(s, k, mav_id, v);
        assert(s.vehicles[k].0 == mav_id);
    } else {
        lemma_stranger(s, mav_id);
    }
}

/// A frame is taken for its sender, with its payload and with what its message tells; one
/// without a message changes nothing.
pub proof fn law_frames_are_received<N: Fn(&[u8; 16]) -> Option<Ident>>(
    wire_name: N,
    s: Station,
    now: Instant,
    frame: RawFrame,
    link_id: LinkId,
    t: Station,
    called_for: Seq<Act>,
)
    requires
        connection_happens(
            wire_name,
            s,
            now,
            ConnectionMessage::RecvFrame(frame, link_id),
            t,
            called_for,
        ),
    ensures
        frame_holds(wire_name, frame, None) ==> t == s && called_for.len() == 0,
        !frame_holds(wire_name, frame, None) ==> exists|content: Telemetry|
            #![trigger frame_holds(wire_name, frame, Some(content))]
            frame_holds(wire_name, frame, Some(content)) && {
                let message = WireMessage { payload: frame.payload, content };
                &&& t == after_frame(s, now, frame.sender, message, link_id)
                &&& called_for == frame_acts(s, now, frame.sender, message, link_id)
            },
{
    let told = choose|told: Option<Telemetry>| #[trigger]
        frame_holds(wire_name, frame, told) && (t, called_for) == after_received(
            s,
            now,
            frame,
            told,
            link_id,
        );
    match told {
        Some(content) => {
            assert(frame_holds(wire_name, frame, Some(content)));
        },
        None => {},
    }
}

// ---------------------------------------------------------------------------
// Filtering
// ---------------------------------------------------------------------------

/// Without a filter nothing is filtered. With one, those parameters of the primary vehicle
/// are listed that match it; how many came in stays as the vehicle has it. Where that
/// vehicle is not known, what was listed stays.
pub proof fn law_filtering(s: Station, k: int, mav_id: MavlinkId, v: VehicleState)
    requires
        consistent(s),
    ensures
        ({
            let t = refreshed(s);
            &&& t == (Station { parameter_filtered: t.parameter_filtered, ..s })
            &&& s.parameter_filter.len() == 0 ==> t.parameter_filtered is None
            &&& s.parameter_filter.len() > 0 && s.primary_vehicle == Some(mav_id) && stands_at(
                s,
                k,
                mav_id,
                v,
            ) ==> (t.parameter_filtered matches Some(p) && p.entries == matching(
                v.parameters,
                s.parameter_filter,
            ) && p.has_loaded == v.has_loaded && p.expected_count == v.expected_count)
            &&& s.parameter_filter.len() > 0 && (s.primary_vehicle is None || (s.primary_vehicle
                == Some(mav_id) && stranger(s, mav_id))) ==> t.parameter_filtered
                == s.parameter_filtered
        }),
{
    if stands_at(s, k, mav_id, v) {
        lemma_stands_at(s, k, mav_id, v);
    }
    if stranger(s, mav_id) {
        lemma_stranger(s, mav_id);
    }
}

/// A filter that is typed in is the filter from then on, and what is listed goes by it.
pub proof fn law_filters_are_typed_in<F: Fn(u32) -> String>(
    real_text: F,
    s: Station,
    text: String,
    t: Station,
    called_for: Seq<Act>,
)
    requires
        updates(real_text, s, ParameterMessage::FilterBuf(text), t, called_for),
    ensures
        called_for.len() == 0,
        t.parameter_filter == text@,
        t == refreshed(t),
        t == (Station {
            parameter_filter: t.parameter_filter,
            parameter_filtered: t.parameter_filtered,
            ..s
        }),
{
}

/// A parameter matches a filter where its name holds it, with upper and lower case letters
/// taken for the same; those that match keep their order, and none is listed twice.
pub proof fn law_matching(entries: Seq<(Ident, Parameter)>, entry: (Ident, Parameter), filter: Seq<char>)
    ensures
        matching(Seq::<(Ident, Parameter)>::empty(), filter).len() == 0,
        has_part(lowercase(entry.0@), lowercase(filter)) ==> matching(entries.push(entry), filter)
            == matching(entries, filter).push(entry),
        !has_part(lowercase(entry.0@), lowercase(filter)) ==> matching(entries.push(entry), filter)
            == matching(entries, filter),
{
    reveal(Seq::filter);
    assert(entries.push(entry).drop_last() =~= entries);
    let pred = name_holds(filter);
    assert(pred(entry) == has_part(lowercase(entry.0@), lowercase(filter)));
}

// ---------------------------------------------------------------------------
// Connections
// ---------------------------------------------------------------------------

/// Typing a link in keeps it as it is typed. One that can be built is the link of the next
/// run, and the configuration is saved; one that cannot leaves the configuration alone.
pub proof fn law_links_are_typed<N: Fn(&[u8; 16]) -> Option<Ident>>(
    wire_name: N,
    s: Station,
    now: Instant,
    builder: LinkBuilder,
    t: Station,
    called_for: Seq<Act>,
)
    requires
        connection_happens(
            wire_name,
            s,
            now,
            ConnectionMessage::UpdateLinkBuilder(builder),
            t,
            called_for,
        ),
    ensures
        t.builder == builder@,
        t.build == built(builder@),
        built(builder@) is Some ==> t.configuration.link_config == built(builder@) && called_for
            == seq![Act::SaveLater],
        built(builder@) is None ==> t.configuration == s.configuration && called_for.len() == 0,
        t.configuration.file_picker_path == s.configuration.file_picker_path,
        t == (Station {
            builder: t.builder,
            build: t.build,
            configuration: t.configuration,
            ..s
        }),
{
}

/// Choosing another kind of link starts a new link of that kind; choosing the same kind
/// keeps the link as it is.
pub proof fn law_kinds_are_chosen<N: Fn(&[u8; 16]) -> Option<Ident>>(
    wire_name: N,
    s: Station,
    now: Instant,
    variant: LinkVariant,
    t: Station,
    called_for: Seq<Act>,
)
    requires
        connection_happens(
            wire_name,
            s,
            now,
            ConnectionMessage::ChangeLinkVariant(variant),
            t,
            called_for,
        ),
    ensures
        ({
            let same = match variant {
                LinkVariant::Tcp => s.builder is Tcp,
                LinkVariant::Udp => s.builder is Udp,
                LinkVariant::Serial => s.builder is Serial,
            };
            &&& same ==> t == s && called_for.len() == 0
            &&& !same ==> {
                &&& t.builder == default_of(variant)
                &&& t.build == built(default_of(variant))
                &&& built(default_of(variant)) is Some ==> t.configuration.link_config == built(
                    default_of(variant),
                ) && called_for == seq![Act::SaveLater]
                &&& built(default_of(variant)) is None ==> t.configuration == s.configuration
                    && called_for.len() == 0
                &&& t.configuration.file_picker_path == s.configuration.file_picker_path
                &&& t == (Station {
                    builder: t.builder,
                    build: t.build,
                    configuration: t.configuration,
                    ..s
                })
            }
        }),
{
}

/// Serial ports are listed for serial links only. Those that are found are offered, those on
/// USB and in order; the chosen port and the rate stay, and so does all else. Where they
/// could not be listed, the offer stays.
pub proof fn law_ports_are_offered<N: Fn(&[u8; 16]) -> Option<Ident>>(
    wire_name: N,
    s: Station,
    now: Instant,
    found: Option<Vec<SerialPort>>,
    message: ConnectionMessage,
    t: Station,
    called_for: Seq<Act>,
)
    requires
        consistent(s),
        connection_happens(wire_name, s, now, message, t, called_for),
    ensures
        message == ConnectionMessage::DetectSerialPorts ==> {
            &&& t == s
            &&& s.builder is Serial ==> called_for == seq![Act::ListSerialPorts]
            &&& !(s.builder is Serial) ==> called_for.len() == 0
        },
        message == ConnectionMessage::FoundSerialPorts(found) ==> {
            &&& called_for.len() == 0
            &&& match s.builder {
                Builder::Serial { port, baud, available_ports } => {
                    &&& found matches Some(ports) ==> t.builder == (Builder::Serial {
                        port,
                        baud,
                        available_ports: ordered(usb_names(ports@)),
                    })
                    &&& found is None ==> t.builder == s.builder
                    &&& t.build == s.build
                },
                _ => t == s,
            }
            &&& t == (Station { builder: t.builder, build: t.build, ..s })
        },
{
}

/// Connecting remembers the link for the next run and opens it. A connection that stands is
/// told of, and gives signs of life. Disconnecting closes what stands, and nothing where
/// none does. A link that failed, or an error of a frame, changes nothing.
pub proof fn law_connecting<N: Fn(&[u8; 16]) -> Option<Ident>>(
    wire_name: N,
    s: Station,
    now: Instant,
    config: LinkConfig,
    link_id: LinkId,
    message: ConnectionMessage,
    t: Station,
    called_for: Seq<Act>,
)
    requires
        connection_happens(wire_name, s, now, message, t, called_for),
    ensures
        message == ConnectionMessage::ConnectToLink(config) ==> {
            &&& called_for == seq![Act::Connect(config@)]
            &&& t.configuration.link_config == Some(config@)
            &&& t.configuration.file_picker_path == s.configuration.file_picker_path
            &&& t == (Station { configuration: t.configuration, ..s })
        },
        message == ConnectionMessage::ConnectSuccess ==> {
            &&& called_for == seq![Act::StartHeartbeat]
            &&& t == (Station { connected: true, ..s })
        },
        message == ConnectionMessage::DisconnectLink ==> {
            &&& t == (Station { connected: false, ..s })
            &&& s.connected ==> called_for == seq![Act::Close]
            &&& !s.connected ==> called_for.len() == 0
        },
        message == ConnectionMessage::ConnectFailed || message == ConnectionMessage::RecvError(
            link_id,
        ) ==> t == s && called_for.len() == 0,
{
}

// ---------------------------------------------------------------------------
// All else
// ---------------------------------------------------------------------------

/// Settings of the window change what they are about and nothing else.
pub proof fn law_settings<F: Fn(u32) -> String, N: Fn(&[u8; 16]) -> Option<Ident>>(
    real_text: F,
    wire_name: N,
    s: Station,
    now: Instant,
    message: Message,
    t: Station,
    called_for: Seq<Act>,
    mav_id: MavlinkId,
    follow: bool,
    configuration: Configuration,
)
    requires
        happens(real_text, wire_name, s, now, message, t, called_for),
    ensures
        message == Message::MapMoved ==> t == (Station { follow_primary_vehicle: false, ..s })
            && called_for.len() == 0,
        message == Message::SetFollowPrimaryVehicle(follow) ==> t == (Station {
            follow_primary_vehicle: follow,
            ..s
        }) && called_for.len() == 0,
        message == Message::SetPrimaryVehicle(mav_id) ==> t == (Station {
            primary_vehicle: Some(mav_id),
            ..s
        }) && called_for.len() == 0,
        message == Message::SaveConfigurationToFile ==> t == s && called_for
            == seq![Act::WriteConfiguration],
        message == Message::UpdateAndSaveConfiguration(configuration) ==> t == (Station {
            configuration: Settings {
                link_config: maybe_config(configuration.link_config),
                file_picker_path: configuration.file_picker_path,
            },
            ..s
        }) && called_for == seq![Act::WriteConfiguration],
{
}

/// A circle starts anew with its middle, gets a place that it goes through, and is finished
/// with its radius where it was started: then the primary vehicle is sent round its middle,
/// over a connection.
pub proof fn law_circles<F: Fn(u32) -> String, N: Fn(&[u8; 16]) -> Option<Ident>>(
    real_text: F,
    wire_name: N,
    s: Station,
    now: Instant,
    message: Message,
    t: Station,
    called_for: Seq<Act>,
    place: Geodetic,
    radius: u32,
)
    requires
        happens(real_text, wire_name, s, now, message, t, called_for),
    ensures
        message == Message::FlyToPositionStart(place) ==> t == (Station {
            fly_to_position: FlyToPositionState {
                start: Some(place),
                end: None,
                radius: None,
                altitude: None,
            },
            ..s
        }) && called_for.len() == 0,
        message == Message::FlyToPositionInProgress(place) ==> t == (Station {
            fly_to_position: FlyToPositionState { end: Some(place), ..s.fly_to_position },
            ..s
        }) && called_for.len() == 0,
        message == Message::FlyToPositionFinalize(place, radius) && s.fly_to_position.start is None
            ==> t == s && called_for.len() == 0,
        message == Message::FlyToPositionFinalize(place, radius) && s.fly_to_position.start is Some
            ==> {
            &&& t == (Station {
                fly_to_position: FlyToPositionState {
                    end: Some(place),
                    radius: Some(radius),
                    ..s.fly_to_position
                },
                ..s
            })
            &&& s.connected && s.primary_vehicle is Some ==> called_for == seq![
                Act::Send(
                    Outgoing::CommandInt {
                        target: s.primary_vehicle->0,
                        command: MavCmd::DoReposition,
                        frame: MavFrame::GlobalInt,
                        param1: 0xbf80_0000,
                        param2: 0,
                        param3: radius,
                        param4: 0x7fc0_0000,
                        position: s.fly_to_position.start,
                        z: 0x447a_0000,
                    },
                ),
            ]
            &&& !s.connected || s.primary_vehicle is None ==> called_for.len() == 0
        },
{
}

/// What happens to the connection and to parameters happens to the station.
pub proof fn law_messages_are_passed_on<F: Fn(u32) -> String, N: Fn(&[u8; 16]) -> Option<Ident>>(
    real_text: F,
    wire_name: N,
    s: Station,
    now: Instant,
    c: ConnectionMessage,
    p: ParameterMessage,
    t: Station,
    called_for: Seq<Act>,
)
    ensures
        happens(real_text, wire_name, s, now, Message::Connection(c), t, called_for)
            == connection_happens(wire_name, s, now, c, t, called_for),
        happens(real_text, wire_name, s, now, Message::Parameter(p), t, called_for) == updates(
            real_text,
            s,
            p,
            t,
            called_for,
        ),
{
}

} // verus!
