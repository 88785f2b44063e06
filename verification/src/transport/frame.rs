//! The fixed-size frames in which the receiver hands over what it has read from the track.
use vstd::prelude::*;
use crate::transport::{codec, packet};

verus! {

/// Number of bytes in a frame.
pub const FRAME_LEN: usize = 8;

/// How many bytes of a frame were received. The receiver pads every packet to the size of the
/// frame and stores the number of padding bytes in the last byte; a number that cannot be is
/// taken for a frame without any byte.
pub open spec fn received_len(padding: u8) -> int {
    if padding <= 7 {
        7 - padding
    } else {
        0
    }
}

/// The bytes that were received in a frame. They come inverted off the wire; the number of
/// padding bytes does not.
pub open spec fn received(frame: Seq<u8>) -> Seq<u8> {
    Seq::new(received_len(frame[7]) as nat, |i: int| !frame[i])
}

/// A frame in which the bytes that were received have been recovered.
pub open spec fn recovered(frame: Seq<u8>) -> Seq<u8> {
    received(frame) + frame.skip(received_len(frame[7]))
}

/// Recovers the bytes that were received, in place, and returns their number.
pub fn recover(frame: &mut [u8]) -> (len: usize)
    requires
        old(frame)@.len() >= FRAME_LEN,
    ensures
        len == received_len(old(frame)@[7]),
        final(frame)@ == recovered(old(frame)@),
{
    let padding: usize = frame[7] as usize;
    let len: usize = if padding <= 7 {
        7 - padding
    } else {
        0
    };
    let ghost before = frame@;
    let mut i: usize = 0;
    // received bytes come inverted off the wire
    while i < len
        invariant
            i <= len <= 7,
            frame@.len() == before.len(),
            before.len() >= FRAME_LEN,
            forall|k: int|
                0 <= k < before.len() ==> #[trigger] frame@[k] == (if k < i {
                    !before[k]
                } else {
                    before[k]
                }),
        decreases len - i,
    {
        let byte: u8 = frame[i];
        frame[i] = !byte;
        i = i + 1;
    }
    assert(frame@ =~= received(before) + before.skip(len as int));
    len
}

/// The frame in which a receiver hands over bytes that it has read.
pub open spec fn frame_of(bytes: Seq<u8>) -> Seq<u8> {
    Seq::new(
        8,
        |i: int|
            if i < bytes.len() {
                !bytes[i]
            } else if i < 7 {
                0
            } else {
                (7 - bytes.len()) as u8
            },
    )
}

/// Up to seven bytes that were read from the track are recovered from their frame.
pub proof fn frame_round_trip(bytes: Seq<u8>)
    requires
        bytes.len() <= 7,
    ensures
        received(frame_of(bytes)) == bytes,
{
    assert forall|i: int| 0 <= i < bytes.len() implies received(frame_of(bytes))[i] == bytes[i] by {
        let b = bytes[i];
        assert(!(!b) == b) by (bit_vector);
    }
    assert(received(frame_of(bytes)) =~= bytes);
}

/// A packet that is sent with its checksum, and handed over in a frame, is decoded to the same
/// bytes.
pub proof fn packet_survives_transport(bytes: Seq<u8>)
    requires
        2 <= bytes.len() <= 5,
        bytes[0] <= 231,
        bytes[0] >= 192 ==> bytes.len() >= 3,
    ensures
        codec::decoded(
            received(frame_of(codec::framed(bytes))),
        ) == Ok::<Option<Seq<u8>>, packet::Error>(Some(bytes)),
{
    frame_round_trip(codec::framed(bytes));
    codec::framing_round_trip(bytes);
}

/// A frame with a number of padding bytes that cannot be is never taken for a packet.
pub proof fn garbled_frame_is_dropped(frame: Seq<u8>)
    requires
        frame[7] > 7,
    ensures
        codec::decoded(received(frame)) == Err::<
            Option<Seq<u8>>,
            packet::Error,
        >(packet::Error::Undersize),
{
}

/// Of a frame with a possible number of padding bytes, exactly the bytes before the padding were
/// received, each of them inverted: what was received and what is in the frame differ in all bits.
pub proof fn frames_hold_inverted_bytes(frame: Seq<u8>, i: int)
    requires
        frame.len() >= 8,
    ensures
        frame[7] <= 7 ==> received(frame).len() + frame[7] == 7,
        frame[7] > 7 ==> received(frame).len() == 0,
        0 <= i < received(frame).len() ==> received(frame)[i] + frame[i] == 255,
{
    let byte = frame[i];
    assert(!byte == 255 - byte) by (bit_vector);
}

/// Recovering changes the bytes that were received, each to its inverse, and nothing else of the
/// frame.
pub proof fn recovering_inverts_in_place(frame: Seq<u8>, i: int)
    requires
        frame.len() >= 8,
        0 <= i < frame.len(),
    ensures
        recovered(frame).len() == frame.len(),
        i + frame[7] < 7 ==> recovered(frame)[i] + frame[i] == 255,
        i + frame[7] >= 7 ==> recovered(frame)[i] == frame[i],
        received_len(frame[7]) == received(frame).len(),
{
    frames_hold_inverted_bytes(frame, i);
}

} // verus!
