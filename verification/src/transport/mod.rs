//! From the bits on the track to packets.
use vstd::prelude::*;
use crate::transport::codec::DccCodec;
use crate::transport::packet::Packet;

pub mod codec;
pub mod frame;
pub mod packet;

verus! {

/// Reads packets from a receiver.
pub struct Decoder<D> {
    pub inner: D,
}

/// The bytes of the packet in what the receiver has read, if there is one.
pub open spec fn accepted(raw: Seq<u8>) -> Option<Seq<u8>> {
    match codec::decoded(raw) {
        Ok(packet) => packet,
        Err(_) => None,
    }
}

/// Every packet that is sent with its checksum is accepted, if it has two to five bytes and an
/// address that packets for decoders can have; and whatever is accepted was sent like that.
pub proof fn sent_packets_are_accepted(bytes: Seq<u8>, raw: Seq<u8>)
    ensures
        2 <= bytes.len() <= 5 && bytes[0] <= 231 && (bytes[0] >= 192 ==> bytes.len() >= 3)
            ==> accepted(bytes.push(codec::xor_all(bytes))) == Some(bytes),
        accepted(raw) matches Some(packet) ==> raw == packet.push(codec::xor_all(packet)),
{
    if 2 <= bytes.len() <= 5 && bytes[0] <= 231 && (bytes[0] >= 192 ==> bytes.len() >= 3) {
        codec::framing_round_trip(bytes);
    }
    if accepted(raw) is Some {
        codec::decoded_is_framed(raw);
    }
}

impl<D> Decoder<D> {
    pub fn new(inner: D) -> (r: Decoder<D>)
        ensures
            r.inner == inner,
    {
        Decoder { inner }
    }

    /// The packet in what the receiver has read; `None` if it was an idle packet or could not
    /// be decoded, and reading goes on.
    pub fn accept(&self, raw: &[u8]) -> (r: Option<Packet>)
        ensures
            match r {
                Some(packet) => accepted(raw@) == Some(packet@),
                None => accepted(raw@) is None,
            },
    {
        match DccCodec::decode(raw) {
            Ok(packet) => packet,
            Err(_) => None,
        }
    }
}

} // verus!
