//! Datagrams as a stream of bytes.

use vstd::prelude::*;

verus! {

/// The most bytes of a datagram that are taken.
pub const DATAGRAM_SIZE: usize = 2048;

/// What is left to be read of the last datagram.
#[derive(Debug)]
pub struct UdpReader {
    buffer: Vec<u8>,
    tail: usize,
}

impl View for UdpReader {
    type V = Seq<u8>;

    closed spec fn view(&self) -> Seq<u8> {
        self.buffer@.skip(self.tail as int)
    }
}

/// The smaller of two sizes.
pub open spec fn least(a: int, b: int) -> int {
    if a < b {
        a
    } else {
        b
    }
}

impl UdpReader {
    #[verifier::type_invariant]
    spec fn inv(self) -> bool {
        self.tail <= self.buffer@.len() <= DATAGRAM_SIZE
    }

    /// Nothing to be read.
    pub fn new() -> (r: Self)
        ensures
            r@ == Seq::<u8>::empty(),
    {
        let r = UdpReader { buffer: Vec::new(), tail: 0 };
        assert(r@ =~= Seq::empty());
        r
    }

    /// Whether there is something left to be read.
    pub fn has_data(&self) -> (r: bool)
        ensures
            r == (self@.len() > 0),
    {
        proof {
            use_type_invariant(self);
        }
        self.tail < self.buffer.len()
    }

    /// Hands out as many of the bytes as there is room for.
    pub fn serve(&mut self, room: usize) -> (r: Vec<u8>)
        ensures
            r@ == old(self)@.take(least(room as int, old(self)@.len() as int)),
            final(self)@ == old(self)@.skip(least(room as int, old(self)@.len() as int)),
    {
        proof {
            use_type_invariant(&*self);
        }
        let mut r: Vec<u8> = Vec::new();
        let left: usize = self.buffer.len() - self.tail;
        let count: usize = if room < left {
            room
        } else {
            left
        };
        let start: usize = self.tail;
        let end: usize = start + count;
        let mut i: usize = start;
        while i < end
            invariant
                *self == *old(self),
                start == self.tail,
                start <= i <= end <= self.buffer@.len(),
                r@ == self.buffer@.subrange(start as int, i as int),
            decreases end - i,
        {
            r.push(self.buffer[i]);
            assert(r@ =~= self.buffer@.subrange(start as int, i as int + 1));
            i += 1;
        }
        assert(r@ =~= old(self)@.take(count as int));
        self.tail = end;
        assert(self@ =~= old(self)@.skip(count as int));
        r
    }

    /// Hands out what is left of the last datagram, as far as there is room; `None` where
    /// nothing is left, and the socket is to be asked.
    pub fn read_left(&mut self, room: usize) -> (r: Option<Vec<u8>>)
        ensures
            match r {
                Some(bytes) => {
                    let count = least(room as int, old(self)@.len() as int);
                    &&& old(self)@.len() > 0
                    &&& bytes@ == old(self)@.take(count)
                    &&& final(self)@ == old(self)@.skip(count)
                },
                None => old(self)@.len() == 0 && *final(self) == *old(self),
            },
    {
        if self.has_data() {
            Some(self.serve(room))
        } else {
            None
        }
    }

    /// Takes a datagram over once nothing is left of the last one, and hands out as many of
    /// its bytes as there is room for.
    pub fn take_datagram(&mut self, datagram: &[u8], room: usize) -> (r: Vec<u8>)
        requires
            old(self)@.len() == 0,
            datagram@.len() <= DATAGRAM_SIZE,
        ensures
            r@ == datagram@.take(least(room as int, datagram@.len() as int)),
            final(self)@ == datagram@.skip(least(room as int, datagram@.len() as int)),
    {
        let mut buffer: Vec<u8> = Vec::new();
        let mut i: usize = 0;
        while i < datagram.len()
            invariant
                i <= datagram@.len(),
                buffer@ == datagram@.take(i as int),
            decreases datagram@.len() - i,
        {
            buffer.push(datagram[i]);
            assert(buffer@ =~= datagram@.take(i as int + 1));
            i += 1;
        }
        assert(buffer@ =~= datagram@);
        *self = UdpReader { buffer, tail: 0 };
        assert(self@ =~= datagram@);
        self.serve(room)
    }
}

/// What reads with these rooms hand out of some bytes, one behind the other.
pub open spec fn handed_out(data: Seq<u8>, rooms: Seq<nat>) -> Seq<u8>
    decreases rooms.len(),
{
    if rooms.len() == 0 {
        Seq::empty()
    } else {
        let count = least(rooms[0] as int, data.len() as int);
        data.take(count) + handed_out(data.skip(count), rooms.skip(1))
    }
}

/// The room of some reads together.
pub open spec fn total_room(rooms: Seq<nat>) -> nat
    decreases rooms.len(),
{
    if rooms.len() == 0 {
        0
    } else {
        rooms[0] + total_room(rooms.skip(1))
    }
}

/// Reads hand the bytes of a datagram out in order, none twice and none left out, as
/// far as their room goes.
pub proof fn law_reads_hand_out_in_order(data: Seq<u8>, rooms: Seq<nat>)
    ensures
        handed_out(data, rooms) == data.take(least(total_room(rooms) as int, data.len() as int)),
    decreases rooms.len(),
{
    if rooms.len() == 0 {
        assert(data.take(0) =~= Seq::empty());
    } else {
        let count = least(rooms[0] as int, data.len() as int);
        let rest = data.skip(count);
        law_reads_hand_out_in_order(rest, rooms.skip(1));
        assert(handed_out(data, rooms) =~= data.take(
            least(total_room(rooms) as int, data.len() as int),
        ));
    }
}

/// A read: what is left of the last datagram, or the next datagram, and the room that
/// there is.
pub ghost enum Read {
    Left { room: nat },
    Datagram { bytes: Seq<u8>, room: nat },
}

/// What some reads hand out, one behind the other, and what is left then.
pub open spec fn after_reads(reads: Seq<Read>) -> (Seq<u8>, Seq<u8>)
    decreases reads.len(),
{
    if reads.len() == 0 {
        (Seq::empty(), Seq::empty())
    } else {
        let (out, left) = after_reads(reads.drop_last());
        match reads.last() {
            Read::Left { room } => {
                let count = least(room as int, left.len() as int);
                (out + left.take(count), left.skip(count))
            },
            Read::Datagram { bytes, room } => {
                let count = least(room as int, bytes.len() as int);
                (out + bytes.take(count), bytes.skip(count))
            },
        }
    }
}

/// The socket is asked only once nothing is left.
pub open spec fn orderly(reads: Seq<Read>) -> bool {
    forall|i: int|
        0 <= i < reads.len() && (#[trigger] reads[i] is Datagram) ==> after_reads(
            reads.take(i),
        ).1.len() == 0
}

/// The bytes of all datagrams, one behind the other.
pub open spec fn arrived(reads: Seq<Read>) -> Seq<u8>
    decreases reads.len(),
{
    if reads.len() == 0 {
        Seq::empty()
    } else {
        match reads.last() {
            Read::Left { .. } => arrived(reads.drop_last()),
            Read::Datagram { bytes, .. } => arrived(reads.drop_last()) + bytes,
        }
    }
}

/// Over any number of datagrams, what was handed out and what is left are all the bytes
/// that arrived, in order, none twice and none lost.
pub proof fn law_nothing_is_lost(reads: Seq<Read>)
    requires
        orderly(reads),
    ensures
        after_reads(reads).0 + after_reads(reads).1 == arrived(reads),
        after_reads(reads).0 == arrived(reads).take(after_reads(reads).0.len() as int),
    decreases reads.len(),
{
    if reads.len() > 0 {
        let rest = reads.drop_last();
        let n = reads.len() - 1;
        assert forall|i: int| 0 <= i < rest.len() && (#[trigger] rest[i] is Datagram) implies
            after_reads(rest.take(i)).1.len() == 0 by {
            assert(rest[i] == reads[i]);
            assert(rest.take(i) =~= reads.take(i));
        }
        law_nothing_is_lost(rest);
        let (out, left) = after_reads(rest);
        match reads.last() {
            Read::Left { room } => {
                let count = least(room as int, left.len() as int);
                assert(out + left.take(count) + left.skip(count) =~= out + left);
            },
            Read::Datagram { bytes, room } => {
                assert(reads[n] is Datagram);
                assert(reads.take(n) =~= rest);
                let count = least(room as int, bytes.len() as int);
                assert(out + left =~= out);
                assert(out + bytes.take(count) + bytes.skip(count) =~= out + bytes);
            },
        }
    }
    let (out, left) = after_reads(reads);
    assert((out + left).take(out.len() as int) =~= out);
}

/// What a socket says to a read or a write.
#[derive(Debug, Clone, Copy, PartialEq, Eq, Structural)]
pub enum SocketReply {
    /// So many bytes went through.
    Done(usize),
    /// It was ready, and then was not.
    WouldBlock,
    /// It failed otherwise.
    Failed,
    /// It is not ready, and will wake the task.
    NotReady,
}

/// What a task that polls a socket does next.
#[derive(Debug, Clone, Copy, PartialEq, Eq, Structural)]
pub enum PollStep {
    /// Be ready with so many bytes.
    Ready(usize),
    /// Wait, and ask to be woken at once where `wake` is set.
    Pending { wake: bool },
    /// Fail, and ask to be woken at once where `wake` is set.
    Fail { wake: bool },
}

/// A reader or writer of datagrams after a reply of its socket. It asks to be woken
/// after each error.
pub fn settle(reply: SocketReply) -> (r: PollStep)
    ensures
        r == match reply {
            SocketReply::Done(count) => PollStep::Ready(count),
            SocketReply::WouldBlock => PollStep::Pending { wake: true },
            SocketReply::Failed => PollStep::Fail { wake: true },
            SocketReply::NotReady => PollStep::Pending { wake: false },
        },
{
    match reply {
        SocketReply::Done(count) => PollStep::Ready(count),
        SocketReply::WouldBlock => PollStep::Pending { wake: true },
        SocketReply::Failed => PollStep::Fail { wake: true },
        SocketReply::NotReady => PollStep::Pending { wake: false },
    }
}

/// A connected reader and writer of datagrams after a reply of its socket. It asks to
/// be woken only where it has to try again.
pub fn settle_connected(reply: SocketReply) -> (r: PollStep)
    ensures
        r == match reply {
            SocketReply::Done(count) => PollStep::Ready(count),
            SocketReply::WouldBlock => PollStep::Pending { wake: true },
            SocketReply::Failed => PollStep::Fail { wake: false },
            SocketReply::NotReady => PollStep::Pending { wake: false },
        },
{
    match reply {
        SocketReply::Done(count) => PollStep::Ready(count),
        SocketReply::WouldBlock => PollStep::Pending { wake: true },
        SocketReply::Failed => PollStep::Fail { wake: false },
        SocketReply::NotReady => PollStep::Pending { wake: false },
    }
}

/// Whether the peer of a socket is known.
#[derive(Debug, Clone, Copy, PartialEq, Eq, Structural)]
pub struct Peer {
    pub connected: bool,
}

impl Peer {
    /// No peer is known.
    pub fn new() -> (r: Self)
        ensures
            !r.connected,
    {
        Peer { connected: false }
    }

    /// Whether the socket is to be connected to the sender of a datagram: while no peer
    /// is known.
    pub fn wants_connect(&self) -> (r: bool)
        ensures
            r == !self.connected,
    {
        !self.connected
    }

    /// Takes over how connecting went. A peer that is known stays known.
    pub fn on_connect(&mut self, succeeded: bool)
        ensures
            final(self).connected == (old(self).connected || succeeded),
    {
        if succeeded {
            self.connected = true;
        }
    }

    /// What a write of `size` bytes comes to without the socket: as long as no peer is
    /// known, it counts as done.
    pub fn write_without_peer(&self, size: usize) -> (r: Option<usize>)
        ensures
            r == if self.connected {
                None
            } else {
                Some(size)
            },
    {
        if self.connected {
            None
        } else {
            Some(size)
        }
    }
}

} // verus!
