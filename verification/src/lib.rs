//! Decoder logic of a DCC (Digital Command Control) multifunction locomotive decoder.
use vstd::prelude::*;
use crate::cv::store::{self, Store, StoreExt};
use crate::transport::packet::{self, Packet};

pub mod cv;
pub mod dispatch;
pub mod function_group;
pub mod functions;
pub mod handler;
pub mod math;
pub mod memory_layout;
pub mod motor;
pub mod timing;
pub mod transport;

pub use crate::function_group::{FunctionGroup, FunctionGroupFlags};

verus! {

/// The address to which packets for all decoders are sent.
pub const BROADCAST_ADDRESS: u16 = 0;

/// The address that a two-byte extended address field holds: the low six bits of the
/// first byte are the most significant bits.
pub open spec fn extended_address(msb: u8, lsb: u8) -> u16 {
    ((msb & 0b0011_1111) * 256 + lsb) as u16
}

/// Reads the extended address from the start of the given data.
///
/// Data must contain at least two elements, with the most significant address bits
/// stored in the first element.
pub fn read_extended_address(data: &[u8]) -> (r: u16)
    requires
        data@.len() >= 2,
    ensures
        r == extended_address(data@[0], data@[1]),
{
    let msb: u8 = data[0] & 0b0011_1111;
    assert(data@[0] & 0b0011_1111 <= 63) by {
        let b: u8 = data@[0];
        assert(b & 0b0011_1111 <= 63) by (bit_vector);
    }
    (msb as u16) * 256 + data[1] as u16
}

/// Whether a packet with the given bytes is addressed to the decoder that has the given
/// configuration variables.
pub open spec fn addressed(bytes: Seq<u8>, store: store::StoreModel) -> bool {
    match (
        packet::packet_address(bytes),
        store::decoder_address(store),
    ) {
        (Ok(a), Ok(b)) => a == b,
        _ => false,
    }
}

/// Whether a packet with the given bytes is addressed to all decoders.
pub open spec fn addressed_to_all(bytes: Seq<u8>) -> bool {
    packet::packet_address(bytes) == Ok::<
        u16,
        packet::Error,
    >(BROADCAST_ADDRESS)
}

/// Checks to see if the packet is addressed to the specific decoder.
pub fn is_recipient<S: Store>(packet: &Packet, store: &S) -> (r: bool)
    requires
        packet@.len() >= 1,
    ensures
        r == addressed(packet@, store.view()),
{
    match packet.addr() {
        Ok(a) => match store.addr() {
            Ok(b) => a == b,
            Err(_) => false,
        },
        Err(_) => false,
    }
}

/// Checks to see if the packet is addressed to the broadcast address.
pub fn is_broadcast(packet: &Packet) -> (r: bool)
    requires
        packet@.len() >= 1,
    ensures
        r == addressed_to_all(packet@),
{
    match packet.addr() {
        Ok(a) => a == BROADCAST_ADDRESS,
        Err(_) => false,
    }
}

/// The state of a timer: whether it has been started and not been stopped since, and how often
/// it has been started so far.
pub struct TimerModel {
    pub running: bool,
    pub starts: nat,
}

impl TimerModel {
    /// The state after one more start.
    pub open spec fn started(self) -> TimerModel {
        TimerModel { running: true, starts: self.starts + 1 }
    }

    /// The state after a stop.
    pub open spec fn stopped(self) -> TimerModel {
        TimerModel { running: false, starts: self.starts }
    }
}

/// A stopwatch.
pub trait Timer {
    /// The state of the timer.
    spec fn view(&self) -> TimerModel;

    /// Whether the timer shows this time, in ms.
    spec fn shows(&self, elapsed: Option<usize>) -> bool;

    /// Clears any running timers.
    fn stop(&mut self)
        ensures
            final(self).view() == old(self).view().stopped(),
    ;

    /// Resets the timer
    fn start(&mut self)
        ensures
            final(self).view() == old(self).view().started(),
    ;

    /// Calculates the time since the previous reset in ms.
    fn elapsed_ms(&self) -> (r: Option<usize>)
        ensures
            self.shows(r),
            !self.view().running ==> r is None,
    ;
}

/// A decoder is addressed exactly by packets with the address that its configuration variables hold;
/// a packet without an address, or a decoder whose address cannot be read, is never addressed. A
/// packet is for all decoders exactly if its address is 0.
pub proof fn addressed_by_equal_addresses(bytes: Seq<u8>, store: store::StoreModel, address: u16)
    ensures
        store::decoder_address(store) == Ok::<u16, store::Error>(address) ==> (addressed(
            bytes,
            store,
        ) <==> packet::packet_address(bytes) == Ok::<u16, packet::Error>(address)),
        store::decoder_address(store) is Err ==> !addressed(bytes, store),
        addressed_to_all(bytes) <==> packet::packet_address(bytes) == Ok::<u16, packet::Error>(0),
{
}

} // verus!
