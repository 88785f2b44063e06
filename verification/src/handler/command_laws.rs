//! What a packet comes to in operation, byte by byte of the packet and by the variables that hold
//! the address.
use vstd::prelude::*;
use crate::cv::store::{self, Error as StoreError, Store, StoreModel};
use crate::function_group::FunctionGroupFlags;
use crate::handler::{Error, Handler, Op};
use crate::motor::{Direction, SpeedStep, VelocitySetpoint};
use crate::transport::packet::{self, Error as PacketError};
use crate::Timer;

verus! {

/// A decoder has the given address: in variable 1, or if bit 5 of variable 29 is set in the lower
/// six bits of variable 17 and in variable 18.
pub open spec fn has_address(store: StoreModel, address: int) -> bool {
    &&& store.byte(29) is Ok
    &&& if store.byte(29)->Ok_0 / 32 % 2 == 0 {
        store.byte(1) matches Ok(value) && address == value
    } else {
        &&& store.byte(17) matches Ok(msb)
        &&& store.byte(18) matches Ok(lsb)
        &&& address == (msb % 64) * 256 + lsb
    }
}

/// A packet with these bytes is for the given address: a first byte up to 127 is the address, and a
/// first byte from 192 to 231 is followed by the lower byte of the address.
pub open spec fn is_for(bytes: Seq<u8>, address: int) -> bool {
    ||| bytes[0] <= 127 && address == bytes[0]
    ||| bytes.len() >= 2 && 192 <= bytes[0] <= 231 && address == (bytes[0] - 192) * 256 + bytes[1]
}

/// A packet with these bytes is not taken for a service mode packet.
pub open spec fn in_operation(bytes: Seq<u8>, elapsed: Option<usize>) -> bool {
    ||| bytes[0] < 112
    ||| bytes[0] > 127
    ||| elapsed is None
    ||| elapsed->Some_0 >= 20
}

/// The bytes of the instruction in a packet.
pub open spec fn instruction_of(bytes: Seq<u8>) -> Seq<u8> {
    if bytes[0] <= 127 {
        bytes.skip(1)
    } else {
        bytes.skip(2)
    }
}

/// Whether a packet is for the decoder, and what its instruction is.
proof fn lemma_address(bytes: Seq<u8>, store: StoreModel, address: int)
    requires
        bytes.len() >= 1,
        has_address(store, address),
    ensures
        crate::addressed(bytes, store) <==> is_for(bytes, address),
        crate::addressed_to_all(bytes) <==> is_for(bytes, 0),
        (exists|a: int| is_for(bytes, a)) ==> packet::operation_instruction(bytes)
            == packet::instruction_in(instruction_of(bytes)),
        store::decoder_address(store) is Ok,
{
    store::decoder_address_by_configuration(store, store.byte(29)->Ok_0);
    packet::addresses_by_first_byte(bytes);
}

/// A packet for the decoder, or for all decoders, is answered by what its instruction says: neither
/// the store nor the packet that waits in service mode changes. A packet for the decoder ends
/// service mode, and a packet for all decoders leaves the timer as it is.
proof fn lemma_command<T: Timer, S: Store>(
    before: Handler<T, S>,
    after: Handler<T, S>,
    bytes: Seq<u8>,
    elapsed: Option<usize>,
    result: Result<Option<Op>, Error>,
    address: int,
)
    requires
        bytes.len() >= 1,
        has_address(before.store.view(), address),
        is_for(bytes, address) || is_for(bytes, 0),
        in_operation(bytes, elapsed),
        !(bytes.len() >= 2 && bytes[0] == 0 && bytes[1] == 0),
        Handler::handled(before, after, bytes, elapsed, result),
    ensures
        result == crate::handler::command_answer(bytes),
        packet::operation_instruction(bytes) == packet::instruction_in(instruction_of(bytes)),
        after.store == before.store,
        after.pending() == before.pending(),
        is_for(bytes, address) ==> {
            &&& !after.enter_service_mode_timer.view().running
            &&& after.enter_service_mode_timer.view().starts
                == before.enter_service_mode_timer.view().starts
        },
        !is_for(bytes, address) ==> after == before,
{
    lemma_address(bytes, before.store.view(), address);
    assert(is_for(bytes, address) || is_for(bytes, 0));
}

/// A speed for the decoder, or for all decoders, is handed on as it was sent: 63, and a byte that is
/// 0 for a stop, 1 for an emergency stop or one more than a speed from 1 to 126, and 128 more than
/// that if the direction is forward. A speed for the decoder ends service mode.
pub proof fn speed_commands_are_handed_on<T: Timer, S: Store>(
    before: Handler<T, S>,
    after: Handler<T, S>,
    bytes: Seq<u8>,
    elapsed: Option<usize>,
    result: Result<Option<Op>, Error>,
    address: int,
    setpoint: VelocitySetpoint,
)
    requires
        bytes.len() >= 3,
        has_address(before.store.view(), address),
        is_for(bytes, address) || is_for(bytes, 0),
        in_operation(bytes, elapsed),
        instruction_of(bytes).len() >= 2,
        instruction_of(bytes)[0] == 63,
        instruction_of(bytes)[1] == (if setpoint.direction == Direction::Forward {
            128int
        } else {
            0int
        }) + (match setpoint.speed_step {
            SpeedStep::Stop => 0int,
            SpeedStep::EmergencyStop => 1int,
            SpeedStep::Num(n) => n + 1,
        }),
        setpoint.speed_step matches SpeedStep::Num(n) ==> 1 <= n <= 126,
        Handler::handled(before, after, bytes, elapsed, result),
    ensures
        result == Ok::<Option<Op>, Error>(Some(Op::Velocity128(setpoint))),
        after.store == before.store,
        after.pending() == before.pending(),
        is_for(bytes, address) ==> !after.enter_service_mode_timer.view().running,
        !is_for(bytes, address) ==> after == before,
{
    assert(!(bytes.len() >= 2 && bytes[0] == 0 && bytes[1] == 0)) by {
        if bytes[0] <= 127 {
            assert(instruction_of(bytes)[0] == bytes[1]);
        }
    }
    lemma_command(before, after, bytes, elapsed, result, address);
}

/// A packet that switches functions, for the decoder or for all decoders, is handed on as a request
/// that changes exactly the functions of its group: the bits 0 to 4 for an instruction from 128 to
/// 159, the bits 5 to 8 for one from 176 to 191, and the bits 9 to 12 for one from 160 to 175; they
/// become the lowest bits of the instruction.
pub proof fn function_commands_are_handed_on<T: Timer, S: Store>(
    before: Handler<T, S>,
    after: Handler<T, S>,
    bytes: Seq<u8>,
    elapsed: Option<usize>,
    result: Result<Option<Op>, Error>,
    address: int,
    flags: FunctionGroupFlags,
    i: u16,
)
    requires
        bytes.len() >= 1,
        has_address(before.store.view(), address),
        is_for(bytes, address) || is_for(bytes, 0),
        in_operation(bytes, elapsed),
        instruction_of(bytes).len() >= 1,
        128 <= instruction_of(bytes)[0] <= 191,
        i < 16,
        Handler::handled(before, after, bytes, elapsed, result),
    ensures
        ({
            let instruction = instruction_of(bytes)[0];
            let (first, count) = if instruction < 160 {
                (0int, 5int)
            } else if instruction >= 176 {
                (5int, 4int)
            } else {
                (9int, 4int)
            };
            result matches Ok(Some(Op::SetFunctions(group))) && {
                let switched = group.applied(flags);
                if first <= i < first + count {
                    (switched.bits >> i) & 1 == ((instruction as u16) >> ((i - first) as u16)) & 1
                } else {
                    (switched.bits >> i) & 1 == (flags.bits >> i) & 1
                }
            }
        }),
        after.store == before.store,
        after.pending() == before.pending(),
        is_for(bytes, address) ==> !after.enter_service_mode_timer.view().running,
{
    let instruction = instruction_of(bytes)[0];
    assert(!(bytes.len() >= 2 && bytes[0] == 0 && bytes[1] == 0)) by {
        if bytes[0] <= 127 {
            assert(instruction == bytes[1]);
        }
    }
    lemma_command(before, after, bytes, elapsed, result, address);
    packet::functions_by_instruction(instruction, flags, i);
    assert(packet::instruction_in(instruction_of(bytes)) == packet::instruction_in(
        seq![instruction],
    ));
}

/// A command without an instruction, or without the speed that it announces, is rejected as too
/// short, and one with an instruction that is not known as invalid.
pub proof fn unfit_commands_are_rejected<T: Timer, S: Store>(
    before: Handler<T, S>,
    after: Handler<T, S>,
    bytes: Seq<u8>,
    elapsed: Option<usize>,
    result: Result<Option<Op>, Error>,
    address: int,
)
    requires
        bytes.len() >= 1,
        has_address(before.store.view(), address),
        is_for(bytes, address) || is_for(bytes, 0),
        in_operation(bytes, elapsed),
        !(bytes.len() >= 2 && bytes[0] == 0 && bytes[1] == 0),
        Handler::handled(before, after, bytes, elapsed, result),
    ensures
        ({
            let data = instruction_of(bytes);
            &&& data.len() == 0 || (data.len() == 1 && data[0] == 63) ==> result == Err::<
                Option<Op>,
                Error,
            >(Error::Packet(PacketError::Undersize))
            &&& data.len() >= 1 && data[0] != 63 && !(128 <= data[0] <= 191) ==> result == Err::<
                Option<Op>,
                Error,
            >(Error::Packet(PacketError::InvalidInstruction))
        }),
        after.store == before.store,
{
    lemma_command(before, after, bytes, elapsed, result, address);
    packet::instructions_by_first_byte(instruction_of(bytes));
}

/// A packet that is neither for the address of the decoder nor for all decoders is passed over, and
/// changes nothing.
pub proof fn other_addresses_are_passed_over<T: Timer, S: Store>(
    before: Handler<T, S>,
    after: Handler<T, S>,
    bytes: Seq<u8>,
    elapsed: Option<usize>,
    result: Result<Option<Op>, Error>,
    address: int,
)
    requires
        bytes.len() >= 1,
        has_address(before.store.view(), address),
        !is_for(bytes, address),
        !is_for(bytes, 0),
        in_operation(bytes, elapsed),
        Handler::handled(before, after, bytes, elapsed, result),
    ensures
        result == Ok::<Option<Op>, Error>(None),
        after == before,
{
    lemma_address(bytes, before.store.view(), address);
}

/// A packet resets the decoder exactly if its first two bytes are 0, whatever the address of the
/// decoder and whatever the timer shows. It starts the timer anew, which is how service mode begins,
/// and changes nothing else.
pub proof fn two_zeros_reset<T: Timer, S: Store>(
    before: Handler<T, S>,
    after: Handler<T, S>,
    bytes: Seq<u8>,
    elapsed: Option<usize>,
    result: Result<Option<Op>, Error>,
)
    requires
        bytes.len() >= 1,
        Handler::handled(before, after, bytes, elapsed, result),
    ensures
        result == Ok::<Option<Op>, Error>(Some(Op::Reset)) <==> bytes.len() >= 2 && bytes[0] == 0
            && bytes[1] == 0,
        result == Ok::<Option<Op>, Error>(Some(Op::Reset)) ==> {
            let timer = after.enter_service_mode_timer.view();
            &&& timer.running
            &&& timer.starts == before.enter_service_mode_timer.view().starts + 1
            &&& after.store == before.store
            &&& after.pending() == before.pending()
        },
{
}

/// A decoder whose address cannot be read still answers to commands for all decoders, and passes
/// over all others.
pub proof fn unknown_address_is_not_addressed<T: Timer, S: Store>(
    before: Handler<T, S>,
    after: Handler<T, S>,
    bytes: Seq<u8>,
    elapsed: Option<usize>,
    result: Result<Option<Op>, Error>,
)
    requires
        bytes.len() >= 1,
        before.store.view().byte(29) is Err,
        in_operation(bytes, elapsed),
        !(bytes.len() >= 2 && bytes[0] == 0 && bytes[1] == 0),
        Handler::handled(before, after, bytes, elapsed, result),
    ensures
        after == before,
        !is_for(bytes, 0) ==> result == Ok::<Option<Op>, Error>(None),
{
    packet::addresses_by_first_byte(bytes);
}

} // verus!
