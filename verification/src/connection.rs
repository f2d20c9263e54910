//! A connection: the numbers of its frames, and what is done with what its channels
//! say.

use crate::application::ConnectionMessage;
use crate::command::{Outgoing, HEARTBEAT_MILLIS};
use crate::ident::MavlinkId;
use crate::link::{drawn, LinkId, LinkIdSource};
use crate::wire::RawFrame;
use vstd::prelude::*;

verus! {

/// The system number of a ground station.
pub const GCS_SYSTEM: u8 = 255;

/// The component number of this ground station.
pub const GCS_COMPONENT: u8 = 1;

/// The id of this ground station.
pub fn gcs_mavlink_id() -> (r: MavlinkId)
    ensures
        r == (MavlinkId { system: 255, component: 1 }),
{
    MavlinkId { system: GCS_SYSTEM, component: GCS_COMPONENT }
}

/// The head of a frame.
#[derive(Debug, Clone, Copy, PartialEq, Eq, Structural)]
pub struct FrameHead {
    pub system: u8,
    pub component: u8,
    pub sequence: u8,
}

/// A frame that goes out: its head, whether it is one of MAVLink 2, and its message.
#[derive(Debug)]
pub struct OutgoingFrame {
    pub head: FrameHead,
    pub v2: bool,
    pub message: Outgoing,
}

/// A frame's number `n` frames behind `first`.
pub open spec fn sequence_behind(first: u8, n: int) -> u8 {
    ((first + n) % 0x100) as u8
}

/// The sending side of a connection.
#[derive(Debug, Clone, Copy, PartialEq, Eq, Structural)]
pub struct ConnectionHandle {
    pub mav_id: MavlinkId,
    /// The number of the next frame.
    pub sequence: u8,
}

impl ConnectionHandle {
    /// A new connection under an id. Its frames are numbered from zero.
    pub fn new(mav_id: MavlinkId) -> (r: Self)
        ensures
            r.mav_id == mav_id,
            r.sequence == 0,
    {
        ConnectionHandle { mav_id, sequence: 0 }
    }

    /// The frame that a message goes out in. The next one gets the next number.
    pub fn next_frame(&mut self, outgoing: Outgoing) -> (r: OutgoingFrame)
        ensures
            r == frame_of(*old(self), outgoing),
            *final(self) == numbered_on(*old(self)),
    {
        let sequence = self.sequence;
        self.sequence = if sequence == 255 {
            0
        } else {
            sequence + 1
        };
        let head = FrameHead {
            system: self.mav_id.system,
            component: self.mav_id.component,
            sequence,
        };
        OutgoingFrame { head, v2: true, message: outgoing }
    }
}

/// The frame that a message goes out in: one of MAVLink 2, under the id of the connection
/// and its next number.
pub open spec fn frame_of(handle: ConnectionHandle, outgoing: Outgoing) -> OutgoingFrame {
    OutgoingFrame {
        head: FrameHead {
            system: handle.mav_id.system,
            component: handle.mav_id.component,
            sequence: handle.sequence,
        },
        v2: true,
        message: outgoing,
    }
}

/// The sending side with one frame more numbered.
pub open spec fn numbered_on(handle: ConnectionHandle) -> ConnectionHandle {
    ConnectionHandle { sequence: sequence_behind(handle.sequence, 1), ..handle }
}

/// The frames that messages go out in, one behind the other.
pub open spec fn frames_of(handle: ConnectionHandle, messages: Seq<Outgoing>) -> Seq<OutgoingFrame>
    decreases messages.len(),
{
    if messages.len() == 0 {
        Seq::empty()
    } else {
        seq![frame_of(handle, messages[0])] + frames_of(numbered_on(handle), messages.skip(1))
    }
}

/// Each message goes out in one frame of MAVLink 2, under the id of the connection, with
/// the number of messages before it, which starts over behind the largest.
pub proof fn law_one_frame_each(handle: ConnectionHandle, messages: Seq<Outgoing>)
    ensures
        frames_of(handle, messages).len() == messages.len(),
        forall|k: int|
            0 <= k < messages.len() ==> #[trigger] frames_of(handle, messages)[k] == (
            OutgoingFrame {
                head: FrameHead {
                    system: handle.mav_id.system,
                    component: handle.mav_id.component,
                    sequence: sequence_behind(handle.sequence, k),
                },
                v2: true,
                message: messages[k],
            }),
    decreases messages.len(),
{
    if messages.len() > 0 {
        let next = numbered_on(handle);
        let rest = messages.skip(1);
        law_one_frame_each(next, rest);
        assert forall|k: int| 0 <= k < messages.len() implies #[trigger] frames_of(
            handle,
            messages,
        )[k] == (OutgoingFrame {
            head: FrameHead {
                system: handle.mav_id.system,
                component: handle.mav_id.component,
                sequence: sequence_behind(handle.sequence, k),
            },
            v2: true,
            message: messages[k],
        }) by {
            if k > 0 {
                assert(frames_of(handle, messages)[k] == frames_of(next, rest)[k - 1]);
                law_sequence_numbers_add_up(handle.sequence, 1, k - 1);
            }
        }
    }
}

/// Frames carry numbers of their own, over as many frames as there are numbers.
pub proof fn law_sequence_numbers_differ(first: u8, n: int, m: int)
    requires
        0 <= n < m < n + 0x100,
    ensures
        sequence_behind(first, n) != sequence_behind(first, m),
{
}

/// Numbering on from a frame is numbering on from the first.
pub proof fn law_sequence_numbers_add_up(first: u8, n: int, m: int)
    requires
        0 <= n,
        0 <= m,
    ensures
        sequence_behind(sequence_behind(first, n), m) == sequence_behind(first, n + m),
        sequence_behind(first, 0x100) == first,
{
}

/// What the queue of frames says to one that is put in.
#[derive(Debug)]
pub enum QueueReply {
    Taken,
    /// It has no room, and hands the frame back.
    Full(OutgoingFrame),
    Closed,
}

/// What is done after a frame was put into the queue.
#[derive(Debug)]
pub enum QueueStep {
    /// Nothing more.
    Done,
    /// Wait until the queue has room, and put the frame in.
    Block(OutgoingFrame),
    /// Give up.
    Lost,
}

/// What is done after a reply of the queue: a frame that is handed back is put in once
/// there is room.
pub open spec fn queue_step(reply: QueueReply) -> QueueStep {
    match reply {
        QueueReply::Taken => QueueStep::Done,
        QueueReply::Full(frame) => QueueStep::Block(frame),
        QueueReply::Closed => QueueStep::Lost,
    }
}

/// What is done after a reply of the queue.
pub fn after_try_send(reply: QueueReply) -> (r: QueueStep)
    ensures
        r == queue_step(reply),
{
    match reply {
        QueueReply::Taken => QueueStep::Done,
        QueueReply::Full(frame) => QueueStep::Block(frame),
        QueueReply::Closed => QueueStep::Lost,
    }
}

/// A queue after a frame was put in and its reply was followed. `open` tells whether the
/// queue is open while it is waited for.
pub open spec fn queued(
    queue: Seq<OutgoingFrame>,
    frame: OutgoingFrame,
    reply: QueueReply,
    open: bool,
) -> Seq<OutgoingFrame> {
    let taken = if reply is Taken {
        queue.push(frame)
    } else {
        queue
    };
    match queue_step(reply) {
        QueueStep::Block(again) => if open {
            taken.push(again)
        } else {
            taken
        },
        _ => taken,
    }
}

/// While the queue is open, a message puts exactly one frame on it, whether there is room
/// at once or not.
pub proof fn law_one_frame_is_queued(
    handle: ConnectionHandle,
    outgoing: Outgoing,
    queue: Seq<OutgoingFrame>,
    reply: QueueReply,
)
    requires
        !(reply is Closed),
        reply matches QueueReply::Full(back) ==> back == frame_of(handle, outgoing),
    ensures
        queued(queue, frame_of(handle, outgoing), reply, true) == queue.push(
            frame_of(handle, outgoing),
        ),
{
}

/// What the receiving side finds when it is polled.
#[derive(Debug)]
pub enum Received {
    Frame(RawFrame),
    /// An error of the transport.
    IoError,
    /// An error of another kind.
    OtherError,
    /// Nothing yet.
    NotReady,
}

/// What the receiving side does next.
#[derive(Debug)]
pub enum ReceivedStep {
    /// End.
    End,
    /// Have this happen to the connection.
    Happen(ConnectionMessage),
    /// Wait.
    Wait,
}

/// The receiving side ends: with the connection, or with its transport.
pub open spec fn ends(cancelled: bool, reply: Received) -> bool {
    cancelled || reply is IoError
}

/// What happens to the connection over a link with what was received.
pub open spec fn message_for(link_id: LinkId, reply: Received) -> Option<ConnectionMessage> {
    match reply {
        Received::Frame(frame) => Some(ConnectionMessage::RecvFrame(frame, link_id)),
        Received::OtherError => Some(ConnectionMessage::RecvError(link_id)),
        Received::IoError => None,
        Received::NotReady => None,
    }
}

/// What the receiving side of a link does next. `cancelled` tells whether the connection
/// was closed.
pub fn received(link_id: LinkId, cancelled: bool, reply: Received) -> (r: ReceivedStep)
    ensures
        r == if ends(cancelled, reply) {
            ReceivedStep::End
        } else {
            match message_for(link_id, reply) {
                Some(message) => ReceivedStep::Happen(message),
                None => ReceivedStep::Wait,
            }
        },
{
    if cancelled {
        return ReceivedStep::End;
    }
    match reply {
        Received::IoError => ReceivedStep::End,
        Received::Frame(frame) => {
            ReceivedStep::Happen(ConnectionMessage::RecvFrame(frame, link_id))
        },
        Received::OtherError => ReceivedStep::Happen(ConnectionMessage::RecvError(link_id)),
        Received::NotReady => ReceivedStep::Wait,
    }
}

/// What happens to the connection over a link with what is received, one behind the other,
/// each with whether the connection was closed by then.
pub open spec fn received_messages(link_id: LinkId, replies: Seq<(bool, Received)>) -> Seq<
    ConnectionMessage,
>
    decreases replies.len(),
{
    if replies.len() == 0 || ends(replies[0].0, replies[0].1) {
        Seq::empty()
    } else {
        let rest = received_messages(link_id, replies.skip(1));
        match message_for(link_id, replies[0].1) {
            Some(message) => seq![message] + rest,
            None => rest,
        }
    }
}

/// All that happens to a connection: it stands, and then is what is received over its
/// link.
pub open spec fn connection_messages(link_id: LinkId, replies: Seq<(bool, Received)>) -> Seq<
    ConnectionMessage,
> {
    seq![ConnectionMessage::ConnectSuccess] + received_messages(link_id, replies)
}

/// First the connection stands. Then there is one message for each reply, in order and
/// under the id of the link, up to the reply that ends the receiving side.
pub proof fn law_received_in_order(link_id: LinkId, replies: Seq<(bool, Received)>, n: int)
    requires
        0 <= n <= replies.len(),
        forall|i: int|
            0 <= i < n ==> !ends((#[trigger] replies[i]).0, replies[i].1) && !(
            replies[i].1 is NotReady),
        n < replies.len() ==> ends(replies[n].0, replies[n].1),
    ensures
        connection_messages(link_id, replies).len() == n + 1,
        connection_messages(link_id, replies)[0] == ConnectionMessage::ConnectSuccess,
        forall|i: int|
            0 <= i < n ==> Some(#[trigger] connection_messages(link_id, replies)[i + 1])
                == message_for(link_id, replies[i].1),
{
    lemma_received(link_id, replies, n);
    let rest = received_messages(link_id, replies);
    assert forall|i: int| 0 <= i < n implies Some(
        #[trigger] connection_messages(link_id, replies)[i + 1],
    ) == message_for(link_id, replies[i].1) by {
        assert(connection_messages(link_id, replies)[i + 1] == rest[i]);
    }
}

proof fn lemma_received(link_id: LinkId, replies: Seq<(bool, Received)>, n: int)
    requires
        0 <= n <= replies.len(),
        forall|i: int|
            0 <= i < n ==> !ends((#[trigger] replies[i]).0, replies[i].1) && !(
            replies[i].1 is NotReady),
        n < replies.len() ==> ends(replies[n].0, replies[n].1),
    ensures
        received_messages(link_id, replies).len() == n,
        forall|i: int|
            0 <= i < n ==> Some(#[trigger] received_messages(link_id, replies)[i]) == message_for(
                link_id,
                replies[i].1,
            ),
    decreases n,
{
    if n > 0 {
        let rest = replies.skip(1);
        assert(!ends(replies[0].0, replies[0].1));
        assert forall|i: int| 0 <= i < n - 1 implies !ends((#[trigger] rest[i]).0, rest[i].1) && !(
        rest[i].1 is NotReady) by {
            assert(rest[i] == replies[i + 1]);
        }
        lemma_received(link_id, rest, n - 1);
        let all = received_messages(link_id, replies);
        assert forall|i: int| 0 <= i < n implies Some(#[trigger] all[i]) == message_for(
            link_id,
            replies[i].1,
        ) by {
            if i > 0 {
                assert(all[i] == received_messages(link_id, rest)[i - 1]);
                assert(rest[i - 1] == replies[i]);
            }
        }
    }
}

/// Waiting hands out nothing and loses nothing.
pub proof fn law_waiting_changes_nothing(link_id: LinkId, replies: Seq<(bool, Received)>)
    requires
        replies.len() > 0,
        replies[0].1 is NotReady,
        !replies[0].0,
    ensures
        connection_messages(link_id, replies) == connection_messages(link_id, replies.skip(1)),
{
}

/// How long to wait after a sign of life was given; `None` where it could not be given,
/// and none is to follow.
pub fn after_heartbeat(sent: bool) -> (r: Option<u64>)
    ensures
        r == if sent {
            Some(HEARTBEAT_MILLIS)
        } else {
            None
        },
{
    if sent {
        Some(HEARTBEAT_MILLIS)
    } else {
        None
    }
}

/// How many frames wait to be sent before the sender has to wait.
pub const QUEUE_SIZE: usize = 32;

/// A connection that was started.
#[derive(Debug)]
pub struct Started {
    /// The id of its link.
    pub link_id: LinkId,
    pub handle: ConnectionHandle,
    /// What happens first.
    pub first: ConnectionMessage,
}

/// Starts a connection: its link gets an id of its own, its frames go out under the id of
/// this ground station, and it stands.
pub fn start_connection(source: &mut LinkIdSource) -> (r: Started)
    ensures
        r.link_id == LinkId(old(source).next),
        final(source).next == drawn(old(source).next as int, 1),
        r.handle == (ConnectionHandle {
            mav_id: MavlinkId { system: 255, component: 1 },
            sequence: 0,
        }),
        r.first == ConnectionMessage::ConnectSuccess,
{
    let link_id = LinkId::new_unique(source);
    let handle = ConnectionHandle::new(gcs_mavlink_id());
    Started { link_id, handle, first: ConnectionMessage::ConnectSuccess }
}

} // verus!
