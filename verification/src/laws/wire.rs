//! Frames and payloads.

use crate::dialect::{crc_extra, in_dialect};
use crate::ident::MavlinkId;
use crate::wire::{ack_in, body, crc_bit, crc_bits, crc_of, intact, kept, sound, RawFrame};
use vstd::prelude::*;

verus! {

/// Zeros at the end of bytes do not count, and all else does.
pub proof fn law_zeros_at_the_end(bytes: Seq<u8>, byte: u8)
    ensures
        kept(Seq::<u8>::empty()) == 0,
        kept(bytes.push(0)) == kept(bytes),
        byte != 0 ==> kept(bytes.push(byte)) == bytes.len() + 1,
{
    assert(bytes.push(0).drop_last() =~= bytes);
}

/// In MAVLink 2 the bytes of a message are those of its payload, and zeros behind them. In
/// MAVLink 1 that is so only where the payload has the size of the message.
pub proof fn law_payloads_are_filled_up(bytes: Seq<u8>, base: int, full: nat, i: int)
    requires
        0 <= i < full,
    ensures
        body(bytes, true, base, full) matches Some(b) && b.len() == full && b[i] == if i
            < bytes.len() {
            bytes[i]
        } else {
            0
        },
        bytes.len() == base ==> body(bytes, false, base, full) == body(bytes, true, base, full),
        bytes.len() != base ==> body(bytes, false, base, full) is None,
{
    assert(bytes.len() == base ==> body(bytes, false, base, full)->0 =~= body(
        bytes,
        true,
        base,
        full,
    )->0);
}

/// A checksum starts with all bits set, and takes each byte in bit by bit, by the polynomial
/// of the standard.
pub proof fn law_checksums(bytes: Seq<u8>, byte: u8, crc: u16, n: nat)
    ensures
        crc_of(Seq::<u8>::empty()) == 0xffff,
        crc_of(bytes.push(byte)) == crc_bits(crc_of(bytes) ^ byte as u16, 8),
        crc_bits(crc, 0) == crc,
        crc_bits(crc, n + 1) == crc_bit(crc_bits(crc, n)),
        crc & 1 == 1 ==> crc_bit(crc) == (crc >> 1) ^ 0x8408,
        crc & 1 != 1 ==> crc_bit(crc) == crc >> 1,
{
    assert(bytes.push(byte).drop_last() =~= bytes);
}

/// A frame is sound where its message is one of the dialect, and its checksum is that of its
/// header, its payload and the byte of its message, in this order.
pub proof fn law_sound_frames(frame: RawFrame, extra: u8)
    ensures
        intact(frame, extra) <==> frame.checksum == crc_of(
            frame.head@ + frame.payload.bytes@ + seq![extra],
        ),
        crc_extra(frame.payload.id) == Some(extra) ==> sound(frame) == intact(frame, extra),
        crc_extra(frame.payload.id) is None ==> !sound(frame),
{
    assert((frame.head@ + frame.payload.bytes@).push(extra) =~= frame.head@ + frame.payload.bytes@
        + seq![extra]);
}

/// An acknowledgement is a sound frame with message 77 that the dialect reads; its command
/// stands in the first two bytes, and whom it is for in the ninth and the tenth.
pub proof fn law_acknowledgements(frame: RawFrame, command: u16, target: MavlinkId)
    requires
        frame.payload.v2,
        frame.payload.bytes@.len() == 10,
    ensures
        ack_in(frame) is Some <==> frame.payload.id == 77 && sound(frame) && in_dialect(
            77,
            true,
            frame.payload.bytes@,
        ),
        ack_in(frame) == Some((command, target)) ==> {
            &&& command == frame.payload.bytes@[0] + 256 * frame.payload.bytes@[1]
            &&& target.system == frame.payload.bytes@[8]
            &&& target.component == frame.payload.bytes@[9]
        },
{
}

} // verus!
