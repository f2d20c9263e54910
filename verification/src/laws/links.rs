//! Links: addresses, typing in, building, and serial ports.

use crate::connection::{
    ends, frame_of, message_for, numbered_on, queue_step, ConnectionHandle, OutgoingFrame,
    QueueReply, QueueStep, Received,
};
use crate::application::ConnectionMessage;
use crate::command::Outgoing;
use crate::link::{
    address_reading, built, default_of, dotted, drawn, law_address_read_back, law_defaults, typed,
    usb_names, variant_of, with_address_text, with_baud_rate, with_port_text, Builder, Config,
    Ipv4Addr, LinkId, LinkVariant, SerialPort, SocketAddrV4,
};
use crate::text::{decimal, unsigned_reading};
use crate::udp::least;
use vstd::prelude::*;

verus! {

/// Choosing one field of a serial link keeps the others, and in whatever order port and
/// baud rate are chosen, the link is built with both.
pub proof fn law_serial_fields_are_kept(
    port: Option<Seq<char>>,
    baud: u32,
    available_ports: Seq<Seq<char>>,
    chosen: Seq<char>,
    rate: u32,
)
    ensures
        ({
            let link = Builder::Serial { port, baud, available_ports };
            &&& with_port_text(link, chosen) == (Builder::Serial {
                port: Some(chosen),
                baud,
                available_ports,
            })
            &&& with_baud_rate(link, rate) == (Builder::Serial { port, baud: rate, available_ports })
            &&& built(with_baud_rate(with_port_text(link, chosen), rate)) == Some(
                Config::Serial { port: chosen, baud: rate },
            )
            &&& built(with_port_text(with_baud_rate(link, rate), chosen)) == Some(
                Config::Serial { port: chosen, baud: rate },
            )
            &&& with_address_text(link, chosen) == link
        }),
{
}

/// Typing in one field of a link over the network keeps the other, and its kind.
pub proof fn law_network_fields_are_kept(
    addr: Seq<char>,
    port: Seq<char>,
    text: Seq<char>,
    rate: u32,
)
    ensures
        with_address_text(Builder::Tcp { addr, port }, text) == (Builder::Tcp { addr: text, port }),
        with_address_text(Builder::Udp { addr, port }, text) == (Builder::Udp { addr: text, port }),
        with_port_text(Builder::Tcp { addr, port }, text) == (Builder::Tcp { addr, port: text }),
        with_port_text(Builder::Udp { addr, port }, text) == (Builder::Udp { addr, port: text }),
        with_baud_rate(Builder::Tcp { addr, port }, rate) == (Builder::Tcp { addr, port }),
        with_baud_rate(Builder::Udp { addr, port }, rate) == (Builder::Udp { addr, port }),
{
}

/// A link over the network is built where its address reads as one and its port as a
/// number of sixteen bits, and then with just these; its kind is the one that was typed in.
pub proof fn law_network_links_build(addr: Seq<char>, port: Seq<char>, ip: Ipv4Addr, number: u16)
    ensures
        built(Builder::Tcp { addr, port }) == Some(
            Config::Tcp { sock_addr: SocketAddrV4 { ip, port: number } },
        ) <==> addr == dotted(ip) && unsigned_reading(port, 65535) == Some(number as nat),
        built(Builder::Udp { addr, port }) == Some(
            Config::Udp { sock_addr: SocketAddrV4 { ip, port: number } },
        ) <==> addr == dotted(ip) && unsigned_reading(port, 65535) == Some(number as nat),
        built(Builder::Tcp { addr, port }) is None <==> (forall|x: Ipv4Addr|
            #[trigger] dotted(x) != addr) || unsigned_reading(port, 65535) is None,
        built(Builder::Udp { addr, port }) is None <==> (forall|x: Ipv4Addr|
            #[trigger] dotted(x) != addr) || unsigned_reading(port, 65535) is None,
        built(Builder::Tcp { addr, port }) matches Some(c) ==> c is Tcp,
        built(Builder::Udp { addr, port }) matches Some(c) ==> c is Udp,
{
    law_address_read_back(ip);
}

/// A serial link is built once it has a port.
pub proof fn law_serial_links_build(port: Seq<char>, baud: u32, available_ports: Seq<Seq<char>>)
    ensures
        built(Builder::Serial { port: Some(port), baud, available_ports }) == Some(
            Config::Serial { port, baud },
        ),
        built(Builder::Serial { port: None, baud, available_ports }) is None,
{
}

/// The text of an address is its four numbers, with a dot between each two.
pub proof fn law_addresses_are_written_in_four_numbers(ip: Ipv4Addr)
    ensures
        dotted(ip) == decimal(ip.a as nat) + seq!['.'] + decimal(ip.b as nat) + seq!['.']
            + decimal(ip.c as nat) + seq!['.'] + decimal(ip.d as nat),
        address_reading(dotted(ip)) == Some(ip),
{
    law_address_read_back(ip);
    assert(dotted(ip) =~= decimal(ip.a as nat) + seq!['.'] + decimal(ip.b as nat) + seq!['.']
        + decimal(ip.c as nat) + seq!['.'] + decimal(ip.d as nat));
}

/// A text reads as an address only where it is the text of that address.
pub proof fn law_only_addresses_are_read(s: Seq<char>, ip: Ipv4Addr)
    requires
        address_reading(s) == Some(ip),
    ensures
        s == dotted(ip),
{
}

/// A link that was opened is typed in with its address and port in decimal numbers, or with
/// its serial port and rate.
pub proof fn law_links_are_typed_in(ip: Ipv4Addr, port: u16, name: Seq<char>, baud: u32)
    ensures
        typed(Config::Tcp { sock_addr: SocketAddrV4 { ip, port } }) == (Builder::Tcp {
            addr: dotted(ip),
            port: decimal(port as nat),
        }),
        typed(Config::Udp { sock_addr: SocketAddrV4 { ip, port } }) == (Builder::Udp {
            addr: dotted(ip),
            port: decimal(port as nat),
        }),
        typed(Config::Serial { port: name, baud }) matches Builder::Serial {
            port: p,
            baud: b,
            available_ports,
        } && p == Some(name) && b == baud && available_ports.len() == 0,
{
}

/// New links have the usual ports, all addresses of the machine, and the usual rate.
pub proof fn law_new_links(variant: LinkVariant)
    ensures
        variant_of(default_of(LinkVariant::Tcp)) == LinkVariant::Tcp,
        variant_of(default_of(LinkVariant::Udp)) == LinkVariant::Udp,
        built(default_of(LinkVariant::Tcp)) == Some(
            Config::Tcp {
                sock_addr: SocketAddrV4 { ip: Ipv4Addr { a: 0, b: 0, c: 0, d: 0 }, port: 5760 },
            },
        ),
        built(default_of(LinkVariant::Udp)) == Some(
            Config::Udp {
                sock_addr: SocketAddrV4 { ip: Ipv4Addr { a: 0, b: 0, c: 0, d: 0 }, port: 14550 },
            },
        ),
        default_of(LinkVariant::Serial) matches Builder::Serial { port, baud, available_ports }
            && port is None && baud == 115200 && available_ports.len() == 0,
{
    law_defaults(LinkVariant::Tcp);
    law_defaults(LinkVariant::Udp);
}

/// The ports that are offered are those on USB, each as often as it is there, and no
/// others.
pub proof fn law_ports_on_usb(ports: Seq<SerialPort>, port: SerialPort)
    ensures
        usb_names(Seq::<SerialPort>::empty()).len() == 0,
        port.usb ==> usb_names(ports.push(port)) == usb_names(ports).push(port.name@),
        !port.usb ==> usb_names(ports.push(port)) == usb_names(ports),
{
    assert(ports.push(port).drop_last() =~= ports);
}

/// The id behind an id is one more; behind the largest it is zero.
pub proof fn law_ids_count_up(id: usize)
    ensures
        id < usize::MAX ==> drawn(id as int, 1) == id + 1,
        id == usize::MAX ==> drawn(id as int, 1) == 0,
{
    if id == usize::MAX {
        vstd::arithmetic::div_mod::lemma_mod_self_0(usize::MAX + 1);
    } else {
        vstd::arithmetic::div_mod::lemma_small_mod((id + 1) as nat, (usize::MAX + 1) as nat);
    }
}

/// A message goes out in a frame of MAVLink 2 that carries it, the id of the connection and
/// its number, and the next frame has the next number, 0 behind 255.
pub proof fn law_frames_carry_their_message(handle: ConnectionHandle, outgoing: Outgoing)
    ensures
        ({
            let frame = frame_of(handle, outgoing);
            &&& frame.message == outgoing
            &&& frame.v2
            &&& frame.head.system == handle.mav_id.system
            &&& frame.head.component == handle.mav_id.component
            &&& frame.head.sequence == handle.sequence
        }),
        numbered_on(handle).mav_id == handle.mav_id,
        handle.sequence < 255 ==> numbered_on(handle).sequence == handle.sequence + 1,
        handle.sequence == 255 ==> numbered_on(handle).sequence == 0,
{
}

/// A frame that the queue has no room for is put in again, as it is; one that is taken is
/// not, and one is lost only where the queue is closed.
pub proof fn law_full_queues_are_waited_for(frame: OutgoingFrame)
    ensures
        queue_step(QueueReply::Full(frame)) == QueueStep::Block(frame),
        queue_step(QueueReply::Taken) is Done,
        queue_step(QueueReply::Closed) is Lost,
{
}

/// A frame that comes in over a link happens to the connection as it is, under the id of
/// the link; an error of the frame is told; one of the transport ends the link, as closing
/// it does.
pub proof fn law_received_frames_are_handed_on(
    link_id: LinkId,
    frame: crate::wire::RawFrame,
    reply: Received,
)
    ensures
        message_for(link_id, Received::Frame(frame)) == Some(
            ConnectionMessage::RecvFrame(frame, link_id),
        ),
        message_for(link_id, Received::OtherError) == Some(ConnectionMessage::RecvError(link_id)),
        message_for(link_id, Received::NotReady) is None,
        !ends(false, Received::Frame(frame)),
        !ends(false, Received::OtherError),
        !ends(false, Received::NotReady),
        ends(false, Received::IoError),
        ends(true, reply),
{
}

/// The smaller of two sizes is one of them, and not above either.
pub proof fn law_least(a: int, b: int)
    ensures
        least(a, b) <= a,
        least(a, b) <= b,
        least(a, b) == a || least(a, b) == b,
{
}

} // verus!
