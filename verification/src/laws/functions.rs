//! Functions by what they take and what they give.

use crate::application::{
    acts, booted, connection_happens, happens, Action, Application, Configuration,
    ConnectionMessage, Message, ParameterMessage,
};
use crate::command::{
    acknowledges, fly_to, introduction, reload, reposition, request_parameters,
    request_vehicle_info, Geodetic, MavCmd, Outgoing, Step,
};
use crate::connection::{
    after_heartbeat, after_try_send, received, start_connection, ConnectionHandle, OutgoingFrame,
    QueueReply, QueueStep, Received, ReceivedStep, Started,
};
use crate::ident::{Ident, MavlinkId};
use crate::link::{
    built, default_of, dotted, drawn, ordered, parse_address, texts, typed, usb_names, usb_ports,
    with_address_text, with_baud_rate, with_port_text, Ipv4Addr, LinkBuilder, LinkConfig, LinkId,
    LinkIdSource, LinkVariant, SerialPort,
};
use crate::parameter_update::updates;
use crate::telemetry::{sum_voltages, total_voltage};
use crate::udp::{Peer, UdpReader};
use crate::vehicle::{after_message, Vehicle};
use crate::wire::{
    ack_in, checksum_holds, command_ack, decode_frame, fits, frame_holds, intact, RawFrame,
    WireMessage,
};
use crate::telemetry::Telemetry;
use std::time::Instant;
use vstd::prelude::*;

verus! {

/// The voltages of ten cells are added up.
pub proof fn law_sum_voltages(cells: [u16; 10], r: u32)
    requires
        call_ensures(sum_voltages, (&cells,), r),
    ensures
        r == total_voltage(cells@),
{
}

/// Links are typed in, chosen and built field by field.
pub proof fn law_link_builders(
    builder: LinkBuilder,
    text: String,
    baud: u32,
    a: LinkBuilder,
    b: LinkBuilder,
    c: LinkBuilder,
    d: Option<LinkConfig>,
)
    requires
        call_ensures(LinkBuilder::with_addr, (&builder, text), a),
        call_ensures(LinkBuilder::with_port, (&builder, text), b),
        call_ensures(LinkBuilder::with_baud, (&builder, baud), c),
        call_ensures(LinkBuilder::try_build, (&builder,), d),
    ensures
        a@ == with_address_text(builder@, text@),
        b@ == with_port_text(builder@, text@),
        c@ == with_baud_rate(builder@, baud),
        d matches Some(config) ==> built(builder@) == Some(config@),
        d is None ==> built(builder@) is None,
{
}

/// Links that were opened are typed in again, and new ones are of their kind.
pub proof fn law_new_builders(
    config: LinkConfig,
    variant: LinkVariant,
    a: LinkBuilder,
    b: LinkBuilder,
)
    requires
        call_ensures(LinkConfig::to_builder, (&config,), a),
        call_ensures(LinkVariant::to_default_builder, (variant,), b),
    ensures
        a@ == typed(config@),
        b@ == default_of(variant),
{
}

/// Addresses are read, and the ports on USB are listed in order.
pub proof fn law_addresses_and_ports(
    s: &str,
    ports: Vec<SerialPort>,
    a: Option<Ipv4Addr>,
    b: Vec<String>,
)
    requires
        call_ensures(parse_address, (s,), a),
        call_ensures(usb_ports, (&ports,), b),
    ensures
        a matches Some(ip) ==> s@ == dotted(ip),
        a is None ==> forall|ip: Ipv4Addr| #[trigger] dotted(ip) != s@,
        texts(b@) == ordered(usb_names(ports@)),
{
}

/// Ids are drawn one after the other.
pub proof fn law_drawing()
    ensures
        forall|source: &mut LinkIdSource, r: LinkId| #[trigger]
            call_ensures(LinkId::new_unique, (source,), r) ==> r.0 == source.next && final(source).next == drawn(source.next as int, 1),
{
}

/// A connection is started under a new id, for this ground station, and stands.
pub proof fn law_starting_connections()
    ensures
        forall|source: &mut LinkIdSource, r: Started| #[trigger]
            call_ensures(start_connection, (source,), r) ==> {
                &&& r.link_id.0 == source.next
                &&& final(source).next == drawn(source.next as int, 1)
                &&& r.handle.mav_id == (MavlinkId { system: 255, component: 1 })
                &&& r.handle.sequence == 0
                &&& r.first == ConnectionMessage::ConnectSuccess
            },
{
}

/// Messages go out in frames of MAVLink 2, numbered one after the other.
pub proof fn law_sending()
    ensures
        forall|handle: &mut ConnectionHandle, outgoing: Outgoing, r: OutgoingFrame| #[trigger]
            call_ensures(ConnectionHandle::next_frame, (handle, outgoing), r) ==> {
                &&& r.message == outgoing
                &&& r.v2
                &&& r.head.system == handle.mav_id.system
                &&& r.head.component == handle.mav_id.component
                &&& r.head.sequence == handle.sequence
                &&& final(handle).mav_id == handle.mav_id
                &&& handle.sequence < 255 ==> final(handle).sequence == handle.sequence + 1
                &&& handle.sequence == 255 ==> final(handle).sequence == 0
            },
{
}

/// Queues are waited for, and what is received is handed on under the id of its link.
pub proof fn law_queues_and_receivers(
    reply: QueueReply,
    step: QueueStep,
    link_id: LinkId,
    cancelled: bool,
    got: Received,
    next: ReceivedStep,
    sent: bool,
    pause: Option<u64>,
)
    requires
        call_ensures(after_try_send, (reply,), step),
        call_ensures(received, (link_id, cancelled, got), next),
        call_ensures(after_heartbeat, (sent,), pause),
    ensures
        reply matches QueueReply::Full(frame) ==> step == QueueStep::Block(frame),
        reply is Taken ==> step is Done,
        reply is Closed ==> step is Lost,
        cancelled || got is IoError ==> next is End,
        !cancelled && got is NotReady ==> next is Wait,
        !cancelled ==> (got matches Received::Frame(frame) ==> next == ReceivedStep::Happen(
            ConnectionMessage::RecvFrame(frame, link_id),
        )),
        !cancelled && got is OtherError ==> next == ReceivedStep::Happen(
            ConnectionMessage::RecvError(link_id),
        ),
        sent ==> pause == Some(1000u64),
        !sent ==> pause is None,
{
}

/// Bytes of a datagram are handed out in order, as many as there is room for or as there
/// are, and the others are left; the next datagram is asked for once none is left.
pub proof fn law_reading_datagrams()
    ensures
        forall|reader: &mut UdpReader, room: usize, r: Option<Vec<u8>>| #[trigger]
            call_ensures(UdpReader::read_left, (reader, room), r) ==> {
                &&& r is None <==> reader@.len() == 0
                &&& r matches Some(bytes) ==> {
                    &&& bytes@ + final(reader)@ == reader@
                    &&& bytes@.len() <= room
                    &&& bytes@.len() == room || final(reader)@.len() == 0
                }
                &&& r is None ==> final(reader)@ == reader@
            },
        forall|reader: &mut UdpReader, datagram: &[u8], room: usize, r: Vec<u8>| #[trigger]
            call_ensures(UdpReader::take_datagram, (reader, datagram, room), r) && reader@.len()
                == 0 && datagram@.len() <= 2048 ==> {
                &&& r@ + final(reader)@ == datagram@
                &&& r@.len() <= room
                &&& r@.len() == room || final(reader)@.len() == 0
            },
{
    assert forall|reader: &mut UdpReader, room: usize, r: Option<Vec<u8>>| #[trigger]
        call_ensures(UdpReader::read_left, (reader, room), r) implies {
        &&& r is None <==> reader@.len() == 0
        &&& r matches Some(bytes) ==> {
            &&& bytes@ + final(reader)@ == reader@
            &&& bytes@.len() <= room
            &&& bytes@.len() == room || final(reader)@.len() == 0
        }
        &&& r is None ==> final(reader)@ == reader@
    } by {
        if r is Some {
            assert(r->0@ + final(reader)@ =~= reader@);
        }
    }
    assert forall|reader: &mut UdpReader, datagram: &[u8], room: usize, r: Vec<u8>| #[trigger]
        call_ensures(UdpReader::take_datagram, (reader, datagram, room), r) && reader@.len() == 0
            && datagram@.len() <= 2048 implies {
        &&& r@ + final(reader)@ == datagram@
        &&& r@.len() <= room
        &&& r@.len() == room || final(reader)@.len() == 0
    } by {
        assert(r@ + final(reader)@ =~= datagram@);
    }
}

/// A write counts as done, with all its bytes, as long as no peer is known, and goes to the
/// socket once one is; a peer that is known stays known.
pub proof fn law_peers(peer: Peer, size: usize, a: Option<usize>, b: bool)
    requires
        call_ensures(Peer::write_without_peer, (&peer, size), a),
        call_ensures(Peer::wants_connect, (&peer,), b),
    ensures
        peer.connected ==> a is None,
        !peer.connected ==> a == Some(size),
        b == !peer.connected,
        forall|p: &mut Peer, succeeded: bool| #[trigger]
            call_ensures(Peer::on_connect, (p, succeeded), ()) ==> final(p).connected == (
            p.connected || succeeded),
{
}

/// Commands are given as they are asked for, and an acknowledgement answers the command that
/// was given by its addressee.
pub proof fn law_commands(
    mav_id: MavlinkId,
    get_capabilities: bool,
    place: Geodetic,
    radius: u32,
    own: MavlinkId,
    awaited: MavCmd,
    command: u16,
    a: Vec<Step>,
    b: Vec<Step>,
    c: Outgoing,
    d: bool,
)
    requires
        call_ensures(request_vehicle_info, (mav_id,), a),
        call_ensures(request_parameters, (mav_id, get_capabilities), b),
        call_ensures(fly_to, (mav_id, place, radius), c),
        call_ensures(acknowledges, (own, awaited, command, mav_id), d),
    ensures
        a@ == introduction(mav_id),
        b@ == reload(mav_id, get_capabilities),
        c == reposition(mav_id, place, radius),
        d <==> mav_id == own && (awaited == MavCmd::RequestMessage && command == 512 || awaited
            == MavCmd::DoReposition && command == 192),
{
}

/// Frames are read by what they hold.
pub proof fn law_reading_frames<N: Fn(&[u8; 16]) -> Option<Ident>>(
    wire_name: N,
    frame: RawFrame,
    extra: u8,
    a: Option<Telemetry>,
    b: Option<(u16, MavlinkId)>,
    c: bool,
)
    requires
        fits(frame.payload),
        forall|name: &[u8; 16]| call_requires(wire_name, (name,)),
        call_ensures(decode_frame::<N>, (&frame, &wire_name), a),
        call_ensures(command_ack, (&frame,), b),
        call_ensures(checksum_holds, (&frame, extra), c),
    ensures
        frame_holds(wire_name, frame, a),
        b == ack_in(frame),
        c == intact(frame, extra),
{
}

/// A vehicle takes over its messages.
pub proof fn law_handling_messages()
    ensures
        forall|vehicle: &mut Vehicle, time: Instant, message: WireMessage| #[trigger]
            call_ensures(Vehicle::handle_message, (vehicle, time, message), ()) && vehicle.wf()
                ==> final(vehicle)@ == after_message(vehicle@, time, message) && final(vehicle).wf(),
{
}

/// The station takes over what happens to it, and gives what that calls for.
pub proof fn law_updating<F: Fn(u32) -> String, N: Fn(&[u8; 16]) -> Option<Ident>>(
    real_text: F,
    wire_name: N,
)
    ensures
        forall|app: &mut Application, now: Instant, message: Message, r: Vec<Action>| #[trigger]
            call_ensures(
                Application::maybe_update::<F, N>,
                (app, now, message, &real_text, &wire_name),
                r,
            ) && call_requires(
                Application::maybe_update::<F, N>,
                (app, now, message, &real_text, &wire_name),
            ) ==> {
                &&& final(app).wf()
                &&& happens(real_text, wire_name, app@, now, message, final(app)@, acts(r@))
            },
        forall|app: &mut Application, message: ParameterMessage, r: Vec<Action>| #[trigger]
            call_ensures(
                Application::parameter_message_update::<F>,
                (app, message, &real_text),
                r,
            ) && call_requires(
                Application::parameter_message_update::<F>,
                (app, message, &real_text),
            ) ==> updates(real_text, app@, message, final(app)@, acts(r@)),
        forall|app: &mut Application, now: Instant, message: ConnectionMessage, r: Vec<Action>|
            #[trigger]
            call_ensures(
                Application::connection_message_update::<N>,
                (app, now, message, &wire_name),
                r,
            ) && call_requires(
                Application::connection_message_update::<N>,
                (app, now, message, &wire_name),
            ) ==> connection_happens(wire_name, app@, now, message, final(app)@, acts(r@)),
{
}

/// The station starts from its configuration.
pub proof fn law_booting(configuration: Configuration, r: Application)
    requires
        call_ensures(Application::boot, (configuration,), r),
    ensures
        r.wf(),
        r@ == booted(configuration@),
{
}

} // verus!
