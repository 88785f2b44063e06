//! What a service mode packet comes to when it is repeated in time, byte by byte of the packet.
use vstd::prelude::*;
use crate::cv::store::{self, Error as StoreError, Store, StoreModel, Write};
use crate::handler::{self, Error, Handler, Op};
use crate::transport::packet::{self, Error as PacketError};
use crate::Timer;

verus! {

/// A packet with the given bytes is received again, before the timer has run out, and takes the
/// handler from the state `before` to the state `after`.
pub open spec fn repeated<T: Timer, S: Store>(
    before: Handler<T, S>,
    after: Handler<T, S>,
    bytes: Seq<u8>,
    elapsed: usize,
    result: Result<Option<Op>, Error>,
) -> bool {
    &&& bytes.len() >= 1
    &&& before.pending() == Some(bytes)
    &&& elapsed < 20
    &&& Handler::handled(before, after, bytes, Some(elapsed), result)
}

/// The number of the variable that a packet is about: the ten bits at the end of its first two
/// bytes, counted from 1.
pub open spec fn variable(bytes: Seq<u8>) -> int {
    (bytes[0] % 4) * 256 + bytes[1] + 1
}

/// Exactly one write was asked of a store, of one byte and without force; no other variable has
/// changed. If the write has succeeded the variable holds the byte and `result` is the operation,
/// and if it has failed `result` is its error.
pub open spec fn wrote_byte(
    before: StoreModel,
    after: StoreModel,
    address: int,
    value: u8,
    op: Op,
    result: Result<Option<Op>, Error>,
) -> bool {
    &&& after.attempts.len() == before.attempts.len() + 1
    &&& after.attempts.drop_last() == before.attempts
    &&& after.attempts.last().write == (Write {
        start: address,
        values: seq![value],
        force: false,
    })
    &&& forall|a: int| a != address ==> #[trigger] after.byte(a) == before.byte(a)
    &&& match after.attempts.last().result {
        Ok(_) => result == Ok::<Option<Op>, Error>(Some(op)) && after.byte(address) == Ok::<
            u8,
            StoreError,
        >(value),
        Err(e) => result == Err::<Option<Op>, Error>(Error::Store(e)),
    }
}

/// A packet that is repeated in time is carried out.
proof fn lemma_carried_out<T: Timer, S: Store>(
    before: Handler<T, S>,
    after: Handler<T, S>,
    bytes: Seq<u8>,
    elapsed: usize,
    result: Result<Option<Op>, Error>,
)
    requires
        repeated(before, after, bytes, elapsed, result),
        112 <= bytes[0] <= 127,
    ensures
        handler::service_action(bytes, before.store.view()).done(
            before.store.view(),
            after.store.view(),
            result,
        ),
        after.pending() is None,
{
}

/// An action with one write of a byte asks for that write.
proof fn lemma_write(
    address: int,
    value: u8,
    op: Op,
    before: StoreModel,
    after: StoreModel,
    result: Result<Option<Op>, Error>,
)
    requires
        handler::Action::write(Write::byte(address, value), op).done(before, after, result),
    ensures
        wrote_byte(before, after, address, value, op, result),
{
    let write = Write::byte(address, value);
    let plan = seq![write];
    let outcome: Result<(), StoreError> = match result {
        Err(Error::Store(e)) if store::ran(plan, before, after, Err(e)) => Err(e),
        _ => Ok(()),
    };
    store::writes_are_asked_in_order(plan, before, after, outcome);
    assert(after.attempts.drop_last() =~= before.attempts) by {
        assert(after.attempts.take(before.attempts.len() as int) =~= after.attempts.drop_last());
    }
    assert(after.attempts[before.attempts.len() + 0int].write == plan[0]);
    assert forall|a: int| a != address implies #[trigger] after.byte(a) == before.byte(a) by {
        store::lemma_ran_frame(plan, before, after, outcome, a);
    }
    if outcome is Ok {
        store::lemma_ran_contents(plan, before, after, address);
    }
}

/// A verification of a byte is acknowledged exactly if the variable holds the byte of the packet;
/// else there is no answer, or the error of the variable if it cannot be read. In any case nothing
/// is asked of the store.
pub proof fn byte_verification_is_exact<T: Timer, S: Store>(
    before: Handler<T, S>,
    after: Handler<T, S>,
    bytes: Seq<u8>,
    elapsed: usize,
    result: Result<Option<Op>, Error>,
)
    requires
        repeated(before, after, bytes, elapsed, result),
        116 <= bytes[0] <= 119,
        bytes.len() >= 3,
    ensures
        after.store.view() == before.store.view(),
        match before.store.view().byte(variable(bytes)) {
            Ok(stored) => {
                &&& stored == bytes[2] ==> result == Ok::<Option<Op>, Error>(
                    Some(Op::AcknowledgeCv),
                )
                &&& stored != bytes[2] ==> result == Ok::<Option<Op>, Error>(None)
            },
            Err(e) => result == Err::<Option<Op>, Error>(Error::Store(e)),
        },
{
    lemma_carried_out(before, after, bytes, elapsed, result);
    packet::service_packets_by_byte(bytes);
}

/// A variable has one value: of all data bytes with which it can be verified, exactly one is
/// acknowledged, so that a programmer that tries them finds the value of the variable.
pub proof fn one_value_is_acknowledged<T: Timer, S: Store>(
    before: Handler<T, S>,
    after: Handler<T, S>,
    other_before: Handler<T, S>,
    other_after: Handler<T, S>,
    bytes: Seq<u8>,
    other_bytes: Seq<u8>,
    times: (usize, usize),
    result: Result<Option<Op>, Error>,
    other_result: Result<Option<Op>, Error>,
)
    requires
        repeated(before, after, bytes, times.0, result),
        repeated(other_before, other_after, other_bytes, times.1, other_result),
        116 <= bytes[0] <= 119,
        bytes.len() >= 3,
        other_bytes.len() >= 3,
        other_bytes.take(2) == bytes.take(2),
        other_before.store.view() == before.store.view(),
        result == Ok::<Option<Op>, Error>(Some(Op::AcknowledgeCv)),
    ensures
        before.store.view().byte(variable(bytes)) == Ok::<u8, StoreError>(bytes[2]),
        other_result == Ok::<Option<Op>, Error>(Some(Op::AcknowledgeCv)) <==> other_bytes[2]
            == bytes[2],
{
    assert(other_bytes[0] == other_bytes.take(2)[0] && other_bytes[1] == other_bytes.take(2)[1]);
    assert(bytes[0] == bytes.take(2)[0] && bytes[1] == bytes.take(2)[1]);
    byte_verification_is_exact(before, after, bytes, times.0, result);
    byte_verification_is_exact(other_before, other_after, other_bytes, times.1, other_result);
}

/// A verification of a bit is acknowledged exactly if that bit of the variable has the value that
/// the packet gives: bits 0 to 2 of the data byte are the position of the bit, and bit 3 is its
/// value. In any case nothing is asked of the store.
pub proof fn bit_verification_is_exact<T: Timer, S: Store>(
    before: Handler<T, S>,
    after: Handler<T, S>,
    bytes: Seq<u8>,
    elapsed: usize,
    result: Result<Option<Op>, Error>,
)
    requires
        repeated(before, after, bytes, elapsed, result),
        120 <= bytes[0] <= 123,
        bytes.len() >= 3,
        224 <= bytes[2] <= 239,
    ensures
        after.store.view() == before.store.view(),
        match before.store.view().byte(variable(bytes)) {
            Ok(stored) => {
                let bit = (stored >> ((bytes[2] % 8) as u8)) & 1;
                let asked = if bytes[2] >= 232 {
                    1int
                } else {
                    0int
                };
                &&& bit == asked ==> result == Ok::<Option<Op>, Error>(Some(Op::AcknowledgeCv))
                &&& bit != asked ==> result == Ok::<Option<Op>, Error>(None)
            },
            Err(e) => result == Err::<Option<Op>, Error>(Error::Store(e)),
        },
{
    lemma_carried_out(before, after, bytes, elapsed, result);
    packet::service_packets_by_byte(bytes);
}

/// The write of a bit writes the variable back with that bit as the packet gives it, and with all
/// other bits as they were; the variable has to be readable.
pub proof fn bit_write_changes_one_bit<T: Timer, S: Store>(
    before: Handler<T, S>,
    after: Handler<T, S>,
    bytes: Seq<u8>,
    elapsed: usize,
    result: Result<Option<Op>, Error>,
    position: u8,
)
    requires
        repeated(before, after, bytes, elapsed, result),
        120 <= bytes[0] <= 123,
        bytes.len() >= 3,
        240 <= bytes[2],
        position < 8,
    ensures
        match before.store.view().byte(variable(bytes)) {
            Ok(stored) => {
                let written = after.store.view().attempts.last().write.values[0];
                &&& wrote_byte(
                    before.store.view(),
                    after.store.view(),
                    variable(bytes),
                    written,
                    Op::AcknowledgeCv,
                    result,
                )
                &&& position == bytes[2] % 8 ==> (written >> position) & 1 == (if bytes[2] >= 248 {
                    1int
                } else {
                    0int
                })
                &&& position != bytes[2] % 8 ==> (written >> position) & 1 == (stored >> position)
                    & 1
            },
            Err(e) => {
                &&& result == Err::<Option<Op>, Error>(Error::Store(e))
                &&& after.store.view() == before.store.view()
            },
        },
{
    lemma_carried_out(before, after, bytes, elapsed, result);
    packet::service_packets_by_byte(bytes);
    if let Ok(stored) = before.store.view().byte(variable(bytes)) {
        let (value, at) = ((bytes[2] / 8 % 2) as u8, (bytes[2] % 8) as u8);
        let byte = handler::with_bit(stored, at, value);
        lemma_write(
            variable(bytes),
            byte,
            Op::AcknowledgeCv,
            before.store.view(),
            after.store.view(),
            result,
        );
        handler::laws::with_bit_per_bit(stored, at, value, position);
    }
}

/// The data byte of a packet about a bit begins with three set bits, or else the packet is rejected,
/// and nothing is asked of the store.
pub proof fn bit_packets_have_a_prefix<T: Timer, S: Store>(
    before: Handler<T, S>,
    after: Handler<T, S>,
    bytes: Seq<u8>,
    elapsed: usize,
    result: Result<Option<Op>, Error>,
)
    requires
        repeated(before, after, bytes, elapsed, result),
        120 <= bytes[0] <= 123,
        bytes.len() >= 3,
        bytes[2] < 224,
    ensures
        after.store.view() == before.store.view(),
        result == Err::<Option<Op>, Error>(Error::Packet(PacketError::InvalidInstruction)),
{
    lemma_carried_out(before, after, bytes, elapsed, result);
    packet::service_packets_by_byte(bytes);
}

/// The write of a byte to a variable that has no meaning of its own for programming writes that byte
/// to that variable, and is acknowledged once it is written.
pub proof fn ordinary_write_writes_the_byte<T: Timer, S: Store>(
    before: Handler<T, S>,
    after: Handler<T, S>,
    bytes: Seq<u8>,
    elapsed: usize,
    result: Result<Option<Op>, Error>,
)
    requires
        repeated(before, after, bytes, elapsed, result),
        124 <= bytes[0] <= 127,
        bytes.len() >= 3,
        variable(bytes) != 1,
        variable(bytes) != 7,
        variable(bytes) != 8,
        variable(bytes) != 17,
        variable(bytes) != 18,
        variable(bytes) != 31,
        variable(bytes) != 32,
    ensures
        wrote_byte(
            before.store.view(),
            after.store.view(),
            variable(bytes),
            bytes[2],
            Op::AcknowledgeCv,
            result,
        ),
{
    lemma_carried_out(before, after, bytes, elapsed, result);
    packet::service_packets_by_byte(bytes);
    lemma_write(
        variable(bytes),
        bytes[2],
        Op::AcknowledgeCv,
        before.store.view(),
        after.store.view(),
        result,
    );
}

/// The upper byte of the extended address is written if it lies between 192 and 231 and does not
/// make the address 0, and is rejected otherwise; the lower byte is written unless it makes the
/// address 0. To know that, the other byte has to be readable.
pub proof fn extended_address_is_written_if_it_can_be<T: Timer, S: Store>(
    before: Handler<T, S>,
    after: Handler<T, S>,
    bytes: Seq<u8>,
    elapsed: usize,
    result: Result<Option<Op>, Error>,
)
    requires
        repeated(before, after, bytes, elapsed, result),
        124 <= bytes[0] <= 127,
        bytes.len() >= 3,
        variable(bytes) == 17 || variable(bytes) == 18,
    ensures
        ({
            let other = before.store.view().byte(35 - variable(bytes));
            let possible = if variable(bytes) == 17 {
                &&& 192 <= bytes[2] <= 231
                &&& !(bytes[2] == 192 && other == Ok::<u8, StoreError>(0))
            } else {
                !(bytes[2] == 0 && other == Ok::<u8, StoreError>(192))
            };
            match other {
                Err(e) => {
                    &&& result == Err::<Option<Op>, Error>(Error::Store(e))
                    &&& after.store.view() == before.store.view()
                },
                Ok(_) => if possible {
                    wrote_byte(
                        before.store.view(),
                        after.store.view(),
                        variable(bytes),
                        bytes[2],
                        Op::AcknowledgeCv,
                        result,
                    )
                } else {
                    &&& result == Err::<Option<Op>, Error>(
                        Error::Packet(PacketError::InvalidInstruction),
                    )
                    &&& after.store.view() == before.store.view()
                },
            }
        }),
{
    lemma_carried_out(before, after, bytes, elapsed, result);
    packet::service_packets_by_byte(bytes);
    let action = handler::service_action(bytes, before.store.view());
    if action.plan.len() == 1 {
        lemma_write(
            variable(bytes),
            bytes[2],
            Op::AcknowledgeCv,
            before.store.view(),
            after.store.view(),
            result,
        );
    }
}

/// The primary address lies between 1 and 127, and any other is rejected without a write. It is
/// written first, then the decoder is taken out of its extended address (with all other bits of
/// variable 29 as they were), and then out of its consist; the first write that fails is the last
/// one, and its error is the answer. An acknowledgement means that all three are written.
pub proof fn primary_address_is_written_in_order<T: Timer, S: Store>(
    before: Handler<T, S>,
    after: Handler<T, S>,
    bytes: Seq<u8>,
    elapsed: usize,
    result: Result<Option<Op>, Error>,
)
    requires
        repeated(before, after, bytes, elapsed, result),
        124 <= bytes[0] <= 127,
        bytes.len() >= 3,
        variable(bytes) == 1,
    ensures
        ({
            let (old_store, new_store) = (before.store.view(), after.store.view());
            let n = old_store.attempts.len() as int;
            let asked = new_store.attempts.len() - n;
            let configuration = old_store.byte(29);
            if !(1 <= bytes[2] <= 127) {
                &&& result == Err::<Option<Op>, Error>(
                    Error::Packet(PacketError::InvalidInstruction),
                )
                &&& new_store == old_store
            } else {
                &&& 1 <= asked <= 3
                &&& new_store.attempts.take(n) == old_store.attempts
                &&& new_store.attempts[n + 0].write == (Write {
                    start: 1,
                    values: seq![bytes[2]],
                    force: false,
                })
                &&& asked >= 2 ==> configuration is Ok && {
                    let c = configuration->Ok_0;
                    let cleared = if c / 32 % 2 == 1 {
                        c - 32
                    } else {
                        c as int
                    };
                    new_store.attempts[n + 1].write == (Write {
                        start: 29,
                        values: seq![cleared as u8],
                        force: false,
                    })
                }
                &&& asked == 3 ==> new_store.attempts[n + 2].write == (Write {
                    start: 19,
                    values: seq![0u8],
                    force: false,
                })
                &&& match new_store.attempts.last().result {
                    Err(e) => result == Err::<Option<Op>, Error>(Error::Store(e)),
                    Ok(_) => match configuration {
                        Err(e) => asked == 1 && result == Err::<Option<Op>, Error>(Error::Store(e)),
                        Ok(_) => asked == 3 && result == Ok::<Option<Op>, Error>(
                            Some(Op::AcknowledgeCv),
                        ),
                    },
                }
            }
        }),
{
    lemma_carried_out(before, after, bytes, elapsed, result);
    packet::service_packets_by_byte(bytes);
    let (old_store, new_store) = (before.store.view(), after.store.view());
    let action = handler::primary_address_action(bytes[2], old_store);
    if 1 <= bytes[2] <= 127 {
        let outcome: Result<(), StoreError> = match result {
            Err(Error::Store(e)) if store::ran(action.plan, old_store, new_store, Err(e)) => Err(e),
            _ => Ok(()),
        };
        store::writes_are_asked_in_order(action.plan, old_store, new_store, outcome);
        let n = old_store.attempts.len() as int;
        assert(new_store.attempts[n + 0].write == action.plan[0]);
        if let Ok(c) = old_store.byte(29) {
            assert(c & !0b0010_0000u8 == (if c / 32 % 2 == 1 {
                c - 32
            } else {
                c as int
            })) by (bit_vector);
            if new_store.attempts.len() - n >= 2 {
                assert(new_store.attempts[n + 1].write == action.plan[1]);
            }
            if new_store.attempts.len() - n == 3 {
                assert(new_store.attempts[n + 2].write == action.plan[2]);
            }
        }
    }
}

/// The variables that tell the manufacturer cannot be written, but a write to them can ask for
/// something: 8 in variable 8 restores the factory values and 7 in variable 7 forgets the
/// calibration, and the decoder reboots once that is done; any other value in variable 7 only
/// reboots the decoder, and any other one in variable 8 does nothing. The variables 31 and 32 are
/// passed over.
pub proof fn manufacturer_variables_ask_for_something<T: Timer, S: Store>(
    before: Handler<T, S>,
    after: Handler<T, S>,
    bytes: Seq<u8>,
    elapsed: usize,
    result: Result<Option<Op>, Error>,
)
    requires
        repeated(before, after, bytes, elapsed, result),
        124 <= bytes[0] <= 127,
        bytes.len() >= 3,
    ensures
        variable(bytes) == 8 && bytes[2] != 8 ==> {
            &&& after.store.view() == before.store.view()
            &&& result == Ok::<Option<Op>, Error>(None)
        },
        variable(bytes) == 8 && bytes[2] == 8 ==> factory_values_restored(
            before.store.view(),
            after.store.view(),
            result,
        ),
        variable(bytes) == 7 && bytes[2] != 7 ==> {
            &&& after.store.view() == before.store.view()
            &&& result == Ok::<Option<Op>, Error>(Some(Op::Reboot))
        },
        variable(bytes) == 7 && bytes[2] == 7 ==> wrote_byte(
            before.store.view(),
            after.store.view(),
            172,
            255,
            Op::Reboot,
            result,
        ),
        variable(bytes) == 31 || variable(bytes) == 32 ==> {
            &&& after.store.view() == before.store.view()
            &&& result == Ok::<Option<Op>, Error>(None)
        },
{
    lemma_carried_out(before, after, bytes, elapsed, result);
    packet::service_packets_by_byte(bytes);
    if variable(bytes) == 7 && bytes[2] == 7 {
        lemma_write(172, 255, Op::Reboot, before.store.view(), after.store.view(), result);
    }
    if variable(bytes) == 8 && bytes[2] == 8 {
        lemma_factory_write(before.store.view(), after.store.view(), result);
    }
}

/// All variables were asked to be written at once, with force, and with nothing else asked for. If
/// that has succeeded they hold what was written and the decoder reboots, and if it has failed
/// `result` is the error.
pub open spec fn factory_values_restored(
    before: StoreModel,
    after: StoreModel,
    result: Result<Option<Op>, Error>,
) -> bool {
    let attempt = after.attempts.last();
    &&& after.attempts.len() == before.attempts.len() + 1
    &&& after.attempts.drop_last() == before.attempts
    &&& attempt.write.start == 1
    &&& attempt.write.values.len() == 512
    &&& attempt.write.force
    &&& match attempt.result {
        Ok(_) => {
            &&& result == Ok::<Option<Op>, Error>(Some(Op::Reboot))
            &&& forall|a: int|
                1 <= a <= 512 ==> #[trigger] after.byte(a) == Ok::<u8, StoreError>(
                    attempt.write.values[a - 1],
                )
            &&& after.byte(1) == Ok::<u8, StoreError>(3)
            &&& after.byte(172) == Ok::<u8, StoreError>(255)
        },
        Err(e) => result == Err::<Option<Op>, Error>(Error::Store(e)),
    }
}

/// The action that restores the factory values does so.
proof fn lemma_factory_write(
    before: StoreModel,
    after: StoreModel,
    result: Result<Option<Op>, Error>,
)
    requires
        handler::Action::write(store::factory_write(), Op::Reboot).done(before, after, result),
    ensures
        factory_values_restored(before, after, result),
{
    let write = store::factory_write();
    let plan = seq![write];
    let outcome: Result<(), StoreError> = match result {
        Err(Error::Store(e)) if store::ran(plan, before, after, Err(e)) => Err(e),
        _ => Ok(()),
    };
    store::writes_are_asked_in_order(plan, before, after, outcome);
    assert(after.attempts.take(before.attempts.len() as int) =~= after.attempts.drop_last());
    assert(after.attempts[before.attempts.len() + 0int].write == plan[0]);
    if outcome is Ok {
        assert forall|a: int| 1 <= a <= 512 implies #[trigger] after.byte(a) == Ok::<
            u8,
            StoreError,
        >(write.values[a - 1]) by {
            store::lemma_ran_contents(plan, before, after, a);
            assert(plan.last().covers(a));
        }
        assert(after.byte(1) == Ok::<u8, StoreError>(write.values[0]));
        assert(after.byte(172) == Ok::<u8, StoreError>(write.values[171]));
    }
}

/// The packet of the two bytes 127 and 8 restores the factory values.
pub proof fn factory_packet_restores_values<T: Timer, S: Store>(
    before: Handler<T, S>,
    after: Handler<T, S>,
    bytes: Seq<u8>,
    elapsed: usize,
    result: Result<Option<Op>, Error>,
)
    requires
        repeated(before, after, bytes, elapsed, result),
        bytes == seq![127u8, 8u8],
    ensures
        factory_values_restored(before.store.view(), after.store.view(), result),
{
    lemma_carried_out(before, after, bytes, elapsed, result);
    lemma_factory_write(before.store.view(), after.store.view(), result);
}

/// A packet that says nothing that can be done, or that is too short for what it says, is rejected
/// as that, and nothing is asked of the store.
pub proof fn unfit_packets_are_rejected<T: Timer, S: Store>(
    before: Handler<T, S>,
    after: Handler<T, S>,
    bytes: Seq<u8>,
    elapsed: usize,
    result: Result<Option<Op>, Error>,
)
    requires
        repeated(before, after, bytes, elapsed, result),
        112 <= bytes[0] <= 127,
        bytes != seq![127u8, 8u8],
    ensures
        bytes[0] <= 115 ==> {
            &&& result == Err::<Option<Op>, Error>(Error::Packet(PacketError::InvalidInstruction))
            &&& after.store.view() == before.store.view()
        },
        116 <= bytes[0] && bytes.len() < 3 && !(124 <= bytes[0] && bytes.len() == 2 && 31
            <= variable(bytes) <= 32) ==> {
            &&& result == Err::<Option<Op>, Error>(Error::Packet(PacketError::Undersize))
            &&& after.store.view() == before.store.view()
        },
{
    lemma_carried_out(before, after, bytes, elapsed, result);
    packet::service_packets_by_byte(bytes);
}

/// A service mode packet is taken for one exactly while less than 20 ms have passed on the timer,
/// and it starts the timer anew, so that the next one has as long again; the first one of two equal
/// ones only waits for the second one.
pub proof fn service_mode_lasts_twenty_milliseconds<T: Timer, S: Store>(
    before: Handler<T, S>,
    after: Handler<T, S>,
    bytes: Seq<u8>,
    elapsed: Option<usize>,
    result: Result<Option<Op>, Error>,
)
    requires
        bytes.len() >= 1,
        112 <= bytes[0] <= 127,
        Handler::handled(before, after, bytes, elapsed, result),
    ensures
        elapsed matches Some(ms) ==> ms < 20 ==> {
            let timer = after.enter_service_mode_timer.view();
            &&& timer.running
            &&& timer.starts == before.enter_service_mode_timer.view().starts + 1
            &&& before.pending() != Some(bytes) ==> {
                &&& after.pending() == Some(bytes)
                &&& after.store == before.store
                &&& result == Ok::<Option<Op>, Error>(None)
            }
            &&& before.pending() == Some(bytes) ==> after.pending() is None
        },
        (elapsed is None || elapsed->Some_0 >= 20) ==> {
            &&& after.pending() == before.pending()
            &&& after.store == before.store
            &&& after.enter_service_mode_timer.view().starts
                == before.enter_service_mode_timer.view().starts
        },
{
}

} // verus!
