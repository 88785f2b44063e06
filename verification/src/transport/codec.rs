//! Framing of packets: their length, their checksum and the idle packet.
use vstd::prelude::*;
use crate::transport::packet::{self, Error, Packet};

verus! {

/// All bytes combined with exclusive or.
pub open spec fn xor_all(bytes: Seq<u8>) -> u8
    decreases bytes.len(),
{
    if bytes.len() == 0 {
        0
    } else {
        xor_all(bytes.drop_last()) ^ bytes.last()
    }
}

/// The bytes of a packet as they are sent: followed by a checksum that makes all of them
/// combine to 0.
pub open spec fn framed(bytes: Seq<u8>) -> Seq<u8> {
    bytes.push(xor_all(bytes))
}

/// What the bytes from the track hold: the bytes of a packet without the checksum, or
/// nothing if it is an idle packet.
pub open spec fn decoded(raw: Seq<u8>) -> Result<Option<Seq<u8>>, Error> {
    if raw.len() > 6 {
        Err(Error::Oversize)
    } else if raw.len() < 3 {
        Err(Error::Undersize)
    } else if raw[0] == 0xff {
        Ok(None)
    } else if 192 <= raw[0] <= 231 && raw.len() < 4 {
        Err(Error::Undersize)
    } else if raw[0] >= 232 {
        Err(Error::InvalidAddress)
    } else if xor_all(raw) != 0 {
        Err(Error::InvalidChecksum)
    } else {
        Ok(Some(raw.drop_last()))
    }
}

/// Decoder of framed packets.
pub struct DccCodec {}

impl DccCodec {
    /// Attempts to decode the packet.
    pub fn decode(raw: &[u8]) -> (r: Result<Option<Packet>, Error>)
        ensures
            match r {
                Ok(Some(packet)) => decoded(raw@) == Ok::<Option<Seq<u8>>, Error>(Some(packet@)),
                Ok(None) => decoded(raw@) == Ok::<Option<Seq<u8>>, Error>(None),
                Err(e) => decoded(raw@) == Err::<Option<Seq<u8>>, Error>(e),
            },
    {
        if raw.len() > 6 {
            return Err(Error::Oversize);
        }
        // packets must be at least 3 bytes
        if raw.len() < 3 {
            return Err(Error::Undersize);
        }
        if raw[0] == 0xFF {
            // idle packet
            return Ok(None);
        }
        // 192-231 (Inclusive) Multifunction Decoder Extended Address
        if packet::is_mf_extended_address(raw) && raw.len() < 4 {
            return Err(Error::Undersize);
        }
        // check if the address is in the future use range / advanced extended packet format
        if 232 <= raw[0] && raw[0] <= 254 {
            return Err(Error::InvalidAddress);
        }
        // after XORing all the bytes, we should be left with 0
        // this is because the last checksum byte is the XOR of the previous bytes,
        // so XORing it with the previous bytes will result in 0
        let checksum: u8 = checksum(raw);
        if checksum != 0 {
            return Err(Error::InvalidChecksum);
        }
        // trim off the checksum byte
        let data = vstd::slice::slice_subrange(raw, 0, raw.len() - 1);
        proof {
            assert(data@ =~= raw@.drop_last());
        }
        match Packet::new(data) {
            Some(packet) => Ok(Some(packet)),
            None => Err(Error::Oversize),
        }
    }
}

/// Combines all bytes with exclusive or.
pub fn checksum(bytes: &[u8]) -> (r: u8)
    ensures
        r == xor_all(bytes@),
{
    let mut sum: u8 = 0;
    let mut i: usize = 0;
    while i < bytes.len()
        invariant
            i <= bytes@.len(),
            sum == xor_all(bytes@.take(i as int)),
        decreases bytes@.len() - i,
    {
        assert(bytes@.take(i + 1).drop_last() =~= bytes@.take(i as int));
        sum = sum ^ bytes[i];
        i = i + 1;
    }
    assert(bytes@.take(i as int) =~= bytes@);
    sum
}

/// The checksum makes all bytes of a framed packet combine to 0.
proof fn lemma_framed_checksum(bytes: Seq<u8>)
    ensures
        xor_all(framed(bytes)) == 0,
{
    assert(framed(bytes).drop_last() =~= bytes);
    let sum = xor_all(bytes);
    assert(sum ^ sum == 0) by (bit_vector);
}

/// A packet that is sent with its checksum is decoded to the same bytes, if it has two to
/// five of them (at least three with an extended address) and an address byte that packets
/// for decoders can have.
pub proof fn framing_round_trip(bytes: Seq<u8>)
    requires
        2 <= bytes.len() <= 5,
        bytes[0] <= 231,
        bytes[0] >= 192 ==> bytes.len() >= 3,
    ensures
        decoded(framed(bytes)) == Ok::<Option<Seq<u8>>, Error>(Some(bytes)),
{
    lemma_framed_checksum(bytes);
    assert(framed(bytes).drop_last() =~= bytes);
}

/// Whatever is decoded had the checksum that belongs to it.
pub proof fn decoded_is_framed(raw: Seq<u8>)
    requires
        decoded(raw) is Ok,
        decoded(raw)->Ok_0 is Some,
    ensures
        raw == framed(decoded(raw)->Ok_0->Some_0),
{
    let sum = xor_all(raw.drop_last());
    let last = raw.last();
    assert(last == sum) by (bit_vector)
        requires
            sum ^ last == 0,
    ;
    assert(raw =~= raw.drop_last().push(raw.last()));
}

/// Changing one byte changes the combination of all bytes by the same difference.
proof fn lemma_xor_update(bytes: Seq<u8>, i: int, value: u8)
    requires
        0 <= i < bytes.len(),
    ensures
        xor_all(bytes.update(i, value)) == xor_all(bytes) ^ bytes[i] ^ value,
    decreases bytes.len(),
{
    let changed = bytes.update(i, value);
    let sum = xor_all(bytes.drop_last());
    let last = bytes.last();
    if i == bytes.len() - 1 {
        assert(changed.drop_last() =~= bytes.drop_last());
        assert(sum ^ value == (sum ^ last) ^ last ^ value) by (bit_vector);
    } else {
        assert(changed.drop_last() =~= bytes.drop_last().update(i, value));
        lemma_xor_update(bytes.drop_last(), i, value);
        let old_value = bytes[i];
        assert((sum ^ old_value ^ value) ^ last == (sum ^ last) ^ old_value ^ value)
            by (bit_vector);
    }
}

/// A packet of which one byte was damaged is never taken for a packet.
pub proof fn damaged_byte_is_detected(raw: Seq<u8>, i: int, value: u8)
    requires
        decoded(raw) is Ok,
        decoded(raw)->Ok_0 is Some,
        0 <= i < raw.len(),
        value != raw[i],
    ensures
        decoded(raw.update(i, value)) is Ok ==> decoded(raw.update(i, value))->Ok_0 is None,
{
    lemma_xor_update(raw, i, value);
    let (sum, old_value) = (xor_all(raw), raw[i]);
    assert(sum ^ old_value ^ value != 0) by (bit_vector)
        requires
            sum == 0u8,
            value != old_value,
    ;
}

/// A decoded packet has two to five bytes and an address byte below the reserved range.
pub proof fn decoded_packet_shape(raw: Seq<u8>)
    requires
        decoded(raw) is Ok,
        decoded(raw)->Ok_0 is Some,
    ensures
        2 <= decoded(raw)->Ok_0->Some_0.len() <= 5,
        decoded(raw)->Ok_0->Some_0[0] <= 231,
{
}

/// What is read from three to six bytes is a packet exactly if all bytes combine to 0 with exclusive
/// or and the address byte is one that a packet can have; a packet with an extended address has at
/// least four bytes. The packet is what was read without the last byte.
pub proof fn packets_combine_to_zero(raw: Seq<u8>)
    requires
        3 <= raw.len() <= 6,
        raw[0] < 192 || (raw[0] <= 231 && raw.len() >= 4),
    ensures
        ({
            let combined = if raw.len() == 3 {
                raw[0] ^ raw[1] ^ raw[2]
            } else if raw.len() == 4 {
                raw[0] ^ raw[1] ^ raw[2] ^ raw[3]
            } else if raw.len() == 5 {
                raw[0] ^ raw[1] ^ raw[2] ^ raw[3] ^ raw[4]
            } else {
                raw[0] ^ raw[1] ^ raw[2] ^ raw[3] ^ raw[4] ^ raw[5]
            };
            if combined == 0 {
                decoded(raw) == Ok::<Option<Seq<u8>>, Error>(Some(raw.take(raw.len() - 1)))
            } else {
                decoded(raw) == Err::<Option<Seq<u8>>, Error>(Error::InvalidChecksum)
            }
        }),
{
    reveal_with_fuel(xor_all, 7);
    let first = raw[0];
    assert(0u8 ^ first == first) by (bit_vector);
    assert(raw.take(raw.len() - 1) =~= raw.drop_last());
    let n = raw.len() as int;
    assert(raw.drop_last().last() == raw[n - 2]);
    assert(raw.drop_last().drop_last().last() == raw[n - 3]);
}

/// What is not a packet, and why: nothing but three to six bytes is, a packet with an extended
/// address has at least four, the address bytes from 232 to 254 are not in use, and 255 makes an
/// idle packet, whatever follows.
pub proof fn other_bytes_are_no_packets(raw: Seq<u8>)
    ensures
        raw.len() > 6 ==> decoded(raw) == Err::<Option<Seq<u8>>, Error>(Error::Oversize),
        raw.len() < 3 ==> decoded(raw) == Err::<Option<Seq<u8>>, Error>(Error::Undersize),
        3 <= raw.len() <= 6 && raw[0] == 255 ==> decoded(raw) == Ok::<Option<Seq<u8>>, Error>(
            None,
        ),
        3 <= raw.len() <= 6 && 232 <= raw[0] <= 254 ==> decoded(raw) == Err::<
            Option<Seq<u8>>,
            Error,
        >(Error::InvalidAddress),
        raw.len() == 3 && 192 <= raw[0] <= 231 ==> decoded(raw) == Err::<
            Option<Seq<u8>>,
            Error,
        >(Error::Undersize),
{
}

/// The checksum does not depend on where a byte stands, and a byte cancels itself: putting two
/// sequences together combines their checksums, and the checksum of one byte is the byte.
pub proof fn checksum_of_parts(a: Seq<u8>, b: Seq<u8>, byte: u8)
    ensures
        xor_all(a + b) == xor_all(a) ^ xor_all(b),
        xor_all(seq![byte]) == byte,
    decreases b.len(),
{
    reveal_with_fuel(xor_all, 2);
    assert(0u8 ^ byte == byte) by (bit_vector);
    let whole = xor_all(a);
    if b.len() == 0 {
        assert(a + b =~= a);
        assert(whole ^ 0 == whole) by (bit_vector);
    } else {
        checksum_of_parts(a, b.drop_last(), byte);
        assert((a + b).drop_last() =~= a + b.drop_last());
        let (rest, last) = (xor_all(b.drop_last()), b.last());
        assert((whole ^ rest) ^ last == whole ^ (rest ^ last)) by (bit_vector);
    }
}

} // verus!
