//! Connections: numbering, queues, streams and datagrams.

use groundhog::application::ConnectionMessage;
use groundhog::command::Outgoing;
use groundhog::connection::{
    after_heartbeat, after_try_send, gcs_mavlink_id, received, start_connection, ConnectionHandle,
    FrameHead, QueueReply, QueueStep, Received, ReceivedStep, QUEUE_SIZE,
};
use groundhog::ident::MavlinkId;
use groundhog::link::{LinkId, LinkIdSource};
use groundhog::udp::{settle, settle_connected, Peer, PollStep, SocketReply, UdpReader, DATAGRAM_SIZE};
use groundhog::wire::{RawFrame, RawPayload};

fn raw(sequence: u8) -> RawFrame {
    RawFrame {
        sender: MavlinkId { system: 1, component: 1 },
        head: vec![sequence],
        payload: RawPayload { id: 0, v2: true, bytes: vec![1] },
        checksum: 0,
    }
}

#[test]
fn frames_are_numbered_and_start_over() {
    let mut handle = ConnectionHandle::new(MavlinkId { system: 9, component: 8 });
    for n in 0..300u32 {
        let target = MavlinkId { system: (n % 7) as u8, component: 1 };
        let frame = handle.next_frame(Outgoing::ParamRequestList { target });
        let sequence = (n % 256) as u8;
        assert_eq!(frame.head, FrameHead { system: 9, component: 8, sequence });
        assert!(frame.v2);
        assert!(matches!(frame.message, Outgoing::ParamRequestList { target: t } if t == target));
    }
}

#[test]
fn connections_speak_for_the_ground_station() {
    let mut source = LinkIdSource::new();
    let first = start_connection(&mut source);
    let second = start_connection(&mut source);
    assert_eq!((first.link_id, second.link_id), (LinkId(0), LinkId(1)));
    assert_eq!(first.handle.mav_id, MavlinkId { system: 255, component: 1 });
    assert_eq!(first.handle.mav_id, gcs_mavlink_id());
    assert!(matches!(first.first, ConnectionMessage::ConnectSuccess));
    assert_eq!(QUEUE_SIZE, 32);
}

#[test]
fn a_full_queue_is_waited_for() {
    let mut handle = ConnectionHandle::new(gcs_mavlink_id());
    handle.next_frame(Outgoing::Heartbeat);
    let frame = handle.next_frame(Outgoing::Heartbeat);
    assert!(matches!(after_try_send(QueueReply::Taken), QueueStep::Done));
    match after_try_send(QueueReply::Full(frame)) {
        QueueStep::Block(frame) => {
            assert_eq!(frame.head.sequence, 1);
            assert!(matches!(frame.message, Outgoing::Heartbeat));
        }
        _ => panic!("the frame is put in again"),
    }
    assert!(matches!(after_try_send(QueueReply::Closed), QueueStep::Lost));
}

#[test]
fn what_is_received_happens_to_the_connection() {
    match received(LinkId(4), false, Received::Frame(raw(7))) {
        ReceivedStep::Happen(ConnectionMessage::RecvFrame(frame, link_id)) => {
            assert_eq!((frame.head, link_id), (vec![7], LinkId(4)));
        }
        _ => panic!("a frame"),
    }
    assert!(matches!(
        received(LinkId(4), false, Received::OtherError),
        ReceivedStep::Happen(ConnectionMessage::RecvError(LinkId(4)))
    ));
    assert!(matches!(received(LinkId(4), false, Received::NotReady), ReceivedStep::Wait));
}

#[test]
fn receiving_ends_with_the_connection_or_the_transport() {
    assert!(matches!(received(LinkId(0), false, Received::IoError), ReceivedStep::End));
    assert!(matches!(received(LinkId(0), true, Received::Frame(raw(0))), ReceivedStep::End));
    assert!(matches!(received(LinkId(0), true, Received::OtherError), ReceivedStep::End));
    assert!(matches!(received(LinkId(0), true, Received::NotReady), ReceivedStep::End));
}

#[test]
fn what_is_received_keeps_its_order() {
    let mut source = LinkIdSource::new();
    let started = start_connection(&mut source);
    let replies = vec![
        Received::Frame(raw(1)),
        Received::NotReady,
        Received::OtherError,
        Received::Frame(raw(2)),
        Received::IoError,
        Received::Frame(raw(3)),
    ];
    let mut seen = vec![format!("{:?}", started.first)];
    for reply in replies {
        match received(started.link_id, false, reply) {
            ReceivedStep::Happen(ConnectionMessage::RecvFrame(frame, link_id)) => {
                seen.push(format!("frame {} {}", frame.head[0], link_id.0))
            }
            ReceivedStep::Happen(ConnectionMessage::RecvError(link_id)) => {
                seen.push(format!("error {}", link_id.0))
            }
            ReceivedStep::Happen(_) => panic!("nothing else is received"),
            ReceivedStep::Wait => {}
            ReceivedStep::End => break,
        }
    }
    assert_eq!(seen, vec!["ConnectSuccess", "frame 1 0", "error 0", "frame 2 0"]);
}

#[test]
fn frames_are_copied_whole() {
    let frame = raw(5).clone();
    assert_eq!((frame.head, frame.payload.bytes, frame.checksum), (vec![5], vec![1], 0));
}

#[test]
fn signs_of_life_go_on_while_they_are_sent() {
    assert_eq!(after_heartbeat(true), Some(1000));
    assert_eq!(after_heartbeat(false), None);
}

#[test]
fn a_datagram_is_handed_out_in_order() {
    let mut reader = UdpReader::new();
    assert!(!reader.has_data());
    let mut out = reader.take_datagram(&[1, 2, 3, 4, 5], 2);
    assert_eq!(out, vec![1, 2]);
    assert!(reader.has_data());
    out.extend(reader.serve(0));
    out.extend(reader.serve(1));
    out.extend(reader.serve(100));
    assert_eq!(out, vec![1, 2, 3, 4, 5]);
    assert!(!reader.has_data());
    assert!(reader.serve(10).is_empty());
    assert_eq!(reader.take_datagram(&[9; DATAGRAM_SIZE], usize::MAX).len(), DATAGRAM_SIZE);
}

#[test]
fn nothing_is_lost_between_datagrams() {
    let mut reader = UdpReader::new();
    let datagrams: Vec<Vec<u8>> = vec![vec![1, 2, 3, 4, 5], vec![], vec![6], vec![7, 8, 9]];
    let mut waiting = datagrams.iter();
    let mut out = Vec::new();
    loop {
        let bytes = match reader.read_left(2) {
            Some(bytes) => bytes,
            None => match waiting.next() {
                Some(datagram) => reader.take_datagram(datagram, 2),
                None => break,
            },
        };
        assert!(bytes.len() <= 2);
        out.extend(bytes);
    }
    assert_eq!(out, datagrams.concat());
    assert_eq!(reader.read_left(0), None);
    reader.take_datagram(&[1], 0);
    assert_eq!(reader.read_left(0), Some(vec![]));
    assert_eq!(reader.read_left(5), Some(vec![1]));
}

#[test]
fn sockets_that_block_are_tried_again() {
    assert_eq!(settle(SocketReply::Done(3)), PollStep::Ready(3));
    assert_eq!(settle(SocketReply::WouldBlock), PollStep::Pending { wake: true });
    assert_eq!(settle(SocketReply::Failed), PollStep::Fail { wake: true });
    assert_eq!(settle(SocketReply::NotReady), PollStep::Pending { wake: false });
    assert_eq!(settle_connected(SocketReply::Done(0)), PollStep::Ready(0));
    assert_eq!(settle_connected(SocketReply::WouldBlock), PollStep::Pending { wake: true });
    assert_eq!(settle_connected(SocketReply::Failed), PollStep::Fail { wake: false });
    assert_eq!(settle_connected(SocketReply::NotReady), PollStep::Pending { wake: false });
}

#[test]
fn writes_count_as_done_until_a_peer_is_known() {
    let mut peer = Peer::new();
    assert!(peer.wants_connect());
    assert_eq!(peer.write_without_peer(12), Some(12));
    peer.on_connect(false);
    assert!(peer.wants_connect());
    peer.on_connect(true);
    assert!(!peer.wants_connect());
    assert_eq!(peer.write_without_peer(12), None);
    peer.on_connect(false);
    assert!(!peer.wants_connect());
}
