//! Laws of packet handling that span several packets or functions.
use vstd::prelude::*;
use crate::cv::store::{self, Error as StoreError, Store, StoreModel, Write};
use crate::cv::Cv;
use crate::handler::{self, Action, Error, Handler, Op};
use crate::transport::packet::{self, Error as PacketError, ServiceInstructionType};
use crate::Timer;

verus! {

/// A packet never goes to the store unless it is a service mode packet that repeats the one
/// before it, received while the service mode timer runs and has not timed out.
pub proof fn only_a_repeated_service_packet_writes<T: Timer, S: Store>(
    before: Handler<T, S>,
    after: Handler<T, S>,
    bytes: Seq<u8>,
    elapsed: Option<usize>,
    result: Result<Option<Op>, Error>,
)
    requires
        Handler::handled(before, after, bytes, elapsed, result),
        after.store != before.store,
    ensures
        before.pending() == Some(bytes),
        112 <= bytes[0] <= 127,
        elapsed is Some,
        elapsed->Some_0 < handler::SERVICE_MODE_TIMEOUT_MS,
        after.pending() is None,
{
}

/// Only a repeated service mode packet is acknowledged or reboots the decoder.
pub proof fn only_a_repeated_service_packet_is_acknowledged<T: Timer, S: Store>(
    before: Handler<T, S>,
    after: Handler<T, S>,
    bytes: Seq<u8>,
    elapsed: Option<usize>,
    result: Result<Option<Op>, Error>,
)
    requires
        Handler::handled(before, after, bytes, elapsed, result),
        result == Ok::<Option<Op>, Error>(Some(Op::AcknowledgeCv)) || result == Ok::<
            Option<Op>,
            Error,
        >(Some(Op::Reboot)),
    ensures
        before.pending() == Some(bytes),
        elapsed is Some,
{
}

/// An instruction that has been carried out has to be sent twice again before it is carried
/// out once more: of two service mode packets in a row, at most one changes the store.
pub proof fn latch_is_cleared_after_acting<T: Timer, S: Store>(
    first: Handler<T, S>,
    second: Handler<T, S>,
    third: Handler<T, S>,
    bytes: Seq<u8>,
    next_bytes: Seq<u8>,
    elapsed: Option<usize>,
    next_elapsed: Option<usize>,
    result: Result<Option<Op>, Error>,
    next_result: Result<Option<Op>, Error>,
)
    requires
        Handler::handled(first, second, bytes, elapsed, result),
        Handler::handled(second, third, next_bytes, next_elapsed, next_result),
        second.store != first.store,
    ensures
        third.store == second.store,
{
}

/// A command for the decoder ends service mode: as long as the timer is not running, no
/// packet goes to the store.
pub proof fn no_writes_after_a_command<T: Timer, S: Store>(
    before: Handler<T, S>,
    between: Handler<T, S>,
    after: Handler<T, S>,
    command: Seq<u8>,
    elapsed: Option<usize>,
    result: Result<Option<Op>, Error>,
    next_bytes: Seq<u8>,
    next_elapsed: Option<usize>,
    next_result: Result<Option<Op>, Error>,
)
    requires
        Handler::handled(before, between, command, elapsed, result),
        handler::route(command, elapsed, before.store.view()) is Command,
        !between.enter_service_mode_timer.view().running ==> next_elapsed is None,
        Handler::handled(between, after, next_bytes, next_elapsed, next_result),
    ensures
        after.store == before.store,
{
}

/// A packet that is rejected leaves the configuration variables alone, and asks nothing of
/// the store.
pub proof fn rejected_packet_leaves_store_alone<T: Timer, S: Store>(
    before: Handler<T, S>,
    after: Handler<T, S>,
    bytes: Seq<u8>,
    elapsed: Option<usize>,
    error: PacketError,
)
    requires
        Handler::handled(
            before,
            after,
            bytes,
            elapsed,
            Err::<Option<Op>, Error>(Error::Packet(error)),
        ),
    ensures
        after.store.view() == before.store.view(),
{
}

/// What is acknowledged as written verifies: once the write of a byte has been acknowledged,
/// the verification of the same byte of the same variable is acknowledged too.
pub proof fn written_byte_verifies(
    write: Seq<u8>,
    verify: Seq<u8>,
    before: StoreModel,
    after: StoreModel,
)
    requires
        handler::write_action(write, before).done(
            before,
            after,
            Ok::<Option<Op>, Error>(Some(Op::AcknowledgeCv)),
        ),
        packet::service_cv_address(verify)
            == packet::service_cv_address(write),
        packet::service_cv_data(verify)
            == packet::service_cv_data(write),
    ensures
        handler::verify_action(verify, after) == Action::only(
            Ok::<Option<Op>, Error>(Some(Op::AcknowledgeCv)),
        ),
{
    let address = packet::service_cv_address(write)->Ok_0 as int;
    let plan = handler::write_action(write, before).plan;
    store::lemma_ran_contents(plan, before, after, address);
    reveal_with_fuel(store::planned_byte, 4);
    assert(plan.drop_last().len() > 0 ==> plan.drop_last().last() == plan[plan.len() - 2]);
    assert(plan.len() == 3 ==> plan.drop_last().drop_last().last() == plan[0]);
}

/// The other bits of a byte stay as they are when one bit is set.
pub proof fn with_bit_per_bit(byte: u8, position: u8, value: u8, other: u8)
    requires
        position < 8,
        other < 8,
        value <= 1,
    ensures
        handler::bit_of(handler::with_bit(byte, position, value), other) == (if other
            == position {
            value
        } else {
            handler::bit_of(byte, other)
        }),
{
    assert((((byte & !(1u8 << position)) | (value << position)) >> other) & 1 == (if other
        == position {
        value
    } else {
        (byte >> other) & 1
    })) by (bit_vector)
        requires
            position < 8,
            other < 8,
            value <= 1,
    ;
}

/// What is acknowledged as written verifies, bit by bit: after the acknowledged write of a
/// bit, the verification of the same value of that bit is acknowledged; the other bits of the
/// variable are as before, and so are all other variables.
pub proof fn written_bit_verifies(
    write: Seq<u8>,
    verify: Seq<u8>,
    before: StoreModel,
    after: StoreModel,
)
    requires
        packet::service_cv_data(write) is Ok,
        packet::service_cv_data(write)->Ok_0 >= 0b1111_0000,
        handler::bit_action(write, before).done(
            before,
            after,
            Ok::<Option<Op>, Error>(Some(Op::AcknowledgeCv)),
        ),
        packet::service_cv_address(verify)
            == packet::service_cv_address(write),
        packet::service_cv_data(verify) == Ok::<u8, PacketError>(
            (packet::service_cv_data(write)->Ok_0 - 0b0001_0000) as u8,
        ),
    ensures
        handler::bit_action(verify, after) == Action::only(
            Ok::<Option<Op>, Error>(Some(Op::AcknowledgeCv)),
        ),
        ({
            let address = packet::service_cv_address(write)->Ok_0 as int;
            let position = (packet::service_cv_data(write)->Ok_0 % 8) as u8;
            &&& before.byte(address) is Ok
            &&& after.byte(address) is Ok
            &&& forall|other: u8|
                other < 8 && other != position ==> #[trigger] handler::bit_of(
                    after.byte(address)->Ok_0,
                    other,
                ) == handler::bit_of(before.byte(address)->Ok_0, other)
            &&& forall|a: int| a != address ==> #[trigger] after.byte(a) == before.byte(a)
        }),
{
    let address = packet::service_cv_address(write)->Ok_0 as int;
    let data = packet::service_cv_data(write)->Ok_0;
    let (value, position) = ((data / 8 % 2) as u8, (data % 8) as u8);
    let plan = handler::bit_action(write, before).plan;
    store::lemma_ran_contents(plan, before, after, address);
    let current = before.byte(address)->Ok_0;
    with_bit_per_bit(current, position, value, position);
    assert forall|other: u8| other < 8 && other != position implies #[trigger] handler::bit_of(
        after.byte(address)->Ok_0,
        other,
    ) == handler::bit_of(current, other) by {
        with_bit_per_bit(current, position, value, other);
    }
    assert forall|a: int| a != address implies #[trigger] after.byte(a) == before.byte(a) by {
        store::lemma_ran_frame(plan, before, after, Ok(()), a);
    }
}

/// The write of a variable that has no meaning of its own for programming changes that variable
/// at most, whether it succeeds or fails.
pub proof fn ordinary_write_touches_one_variable(
    bytes: Seq<u8>,
    before: StoreModel,
    after: StoreModel,
    result: Result<Option<Op>, Error>,
    address: int,
)
    requires
        packet::service_cv_address(bytes) matches Ok(cv) ==> {
            &&& cv != Cv::PrimaryAddress.number()
            &&& cv != Cv::ManufacturerVersionNumber.number()
            &&& cv != Cv::ManufacturerId.number()
            &&& address != cv
        },
        handler::write_action(bytes, before).done(before, after, result),
    ensures
        after.byte(address) == before.byte(address),
{
    let plan = handler::write_action(bytes, before).plan;
    let outcome: Result<(), StoreError> = match result {
        Err(Error::Store(e)) if store::ran(plan, before, after, Err(e)) => Err(e),
        _ => Ok(()),
    };
    store::lemma_ran_frame(plan, before, after, outcome, address);
}

/// A verification, of a byte or of a bit, asks nothing of the store.
pub proof fn verification_never_writes(bytes: Seq<u8>, store: StoreModel)
    requires
        packet::service_cv_data(bytes) is Ok,
    ensures
        handler::verify_action(bytes, store).plan.len() == 0,
        packet::service_cv_data(bytes)->Ok_0 < 0b1111_0000
            ==> handler::bit_action(bytes, store).plan.len() == 0,
{
}

/// After the write of the primary address has been acknowledged, that is the address of the
/// decoder, and it is in no consist.
pub proof fn primary_address_takes_effect(value: u8, before: StoreModel, after: StoreModel)
    requires
        handler::primary_address_action(value, before).done(
            before,
            after,
            Ok::<Option<Op>, Error>(Some(Op::AcknowledgeCv)),
        ),
    ensures
        store::decoder_address(after) == Ok::<u16, StoreError>(value as u16),
        after.byte(Cv::ConsistAddress.number() as int) == Ok::<u8, StoreError>(0),
        forall|a: int|
            a != Cv::PrimaryAddress.number() && a != Cv::DecoderConfiguration.number() && a
                != Cv::ConsistAddress.number() ==> #[trigger] after.byte(a) == before.byte(a),
{
    let plan = handler::primary_address_action(value, before).plan;
    let configuration = before.byte(Cv::DecoderConfiguration.number() as int)->Ok_0;
    reveal_with_fuel(store::planned_byte, 4);
    assert(plan.drop_last().last() == plan[1]);
    assert(plan.drop_last().drop_last().last() == plan[0]);
    store::lemma_ran_contents(
        plan,
        before,
        after,
        Cv::PrimaryAddress.number() as int,
    );
    store::lemma_ran_contents(
        plan,
        before,
        after,
        Cv::DecoderConfiguration.number() as int,
    );
    store::lemma_ran_contents(
        plan,
        before,
        after,
        Cv::ConsistAddress.number() as int,
    );
    assert(0b0010_0000u8 & (configuration & !0b0010_0000u8) == 0) by (bit_vector);
    assert forall|a: int|
        a != Cv::PrimaryAddress.number() && a != Cv::DecoderConfiguration.number() && a
            != Cv::ConsistAddress.number() implies #[trigger] after.byte(a) == before.byte(a) by {
        store::lemma_ran_frame(plan, before, after, Ok(()), a);
    }
}

/// The extended address that the variables 17 and 18 hold.
pub open spec fn stored_extended_address(store: StoreModel) -> Result<u16, StoreError> {
    match (
        store.byte(Cv::ExtendedAddressMsb.number() as int),
        store.byte(Cv::ExtendedAddressLsb.number() as int),
    ) {
        (Err(e), _) => Err(e),
        (_, Err(e)) => Err(e),
        (Ok(msb), Ok(lsb)) => Ok(crate::extended_address(msb, lsb)),
    }
}

/// An acknowledged write of the upper byte never leaves 0 as the extended address.
pub proof fn extended_msb_never_makes_zero(value: u8, before: StoreModel, after: StoreModel)
    requires
        handler::extended_msb_action(value, before).done(
            before,
            after,
            Ok::<Option<Op>, Error>(Some(Op::AcknowledgeCv)),
        ),
    ensures
        stored_extended_address(after) is Ok,
        stored_extended_address(after) != Ok::<u16, StoreError>(0),
{
    let plan = handler::extended_msb_action(value, before).plan;
    let (cv17, cv18) = (
        Cv::ExtendedAddressMsb.number() as int,
        Cv::ExtendedAddressLsb.number() as int,
    );
    store::lemma_ran_contents(plan, before, after, cv17);
    store::lemma_ran_frame(plan, before, after, Ok(()), cv18);
    assert(value & 0b0011_1111 == value - 192) by (bit_vector)
        requires
            192 <= value <= 231,
    ;
}

/// An acknowledged write of the lower byte never leaves 0 as the extended address, if the
/// upper byte lies in its range.
pub proof fn extended_lsb_never_makes_zero(value: u8, before: StoreModel, after: StoreModel)
    requires
        handler::extended_lsb_action(value, before).done(
            before,
            after,
            Ok::<Option<Op>, Error>(Some(Op::AcknowledgeCv)),
        ),
        before.byte(Cv::ExtendedAddressMsb.number() as int) matches Ok(msb) && 192 <= msb <= 231,
    ensures
        stored_extended_address(after) is Ok,
        stored_extended_address(after) != Ok::<u16, StoreError>(0),
{
    let plan = handler::extended_lsb_action(value, before).plan;
    let (cv17, cv18) = (
        Cv::ExtendedAddressMsb.number() as int,
        Cv::ExtendedAddressLsb.number() as int,
    );
    let msb = before.byte(cv17)->Ok_0;
    store::lemma_ran_contents(plan, before, after, cv18);
    store::lemma_ran_frame(plan, before, after, Ok(()), cv17);
    assert(msb & 0b0011_1111 == msb - 192) by (bit_vector)
        requires
            192 <= msb <= 231,
    ;
}

/// Restoring the factory values, by either of the two packets that do so, leaves every
/// variable at its factory value and the decoder at the factory address.
pub proof fn factory_reset_takes_effect(bytes: Seq<u8>, before: StoreModel, after: StoreModel)
    requires
        ({
            ||| handler::is_factory_reset(bytes)
            ||| packet::service_instruction(bytes) == Ok::<
                ServiceInstructionType,
                PacketError,
            >(ServiceInstructionType::WriteByte)
                && packet::service_cv_address(bytes) == Ok::<u16, PacketError>(
                Cv::ManufacturerId.number(),
            ) && packet::service_cv_data(bytes) == Ok::<u8, PacketError>(8)
        }),
        handler::service_action(bytes, before).done(
            before,
            after,
            Ok::<Option<Op>, Error>(Some(Op::Reboot)),
        ),
    ensures
        store::decoder_address(after) == Ok::<u16, StoreError>(3),
        forall|a: int|
            1 <= a <= crate::cv::CV_SIZE ==> #[trigger] after.byte(a) == Ok::<u8, StoreError>(
                crate::cv::spec_default_value(a),
            ),
{
    let plan = handler::service_action(bytes, before).plan;
    let write = store::factory_write();
    assert(plan =~= seq![write]);
    assert(plan.drop_last() =~= Seq::<Write>::empty());
    reveal_with_fuel(store::ran, 2);
    let between = choose|between: StoreModel|
        {
            &&& store::ran(plan.drop_last(), before, between, Ok(()))
            &&& #[trigger] store::attempted(between, after, plan.last(), Ok(()))
        };
    store::reset_store_has_factory_address(between, after);
}

/// A service mode packet is carried out exactly when it is received for the second time in a
/// row: the first time nothing happens, and the second time its action is taken on the store
/// as it was before the first.
pub proof fn second_packet_is_carried_out<T: Timer, S: Store>(
    first: Handler<T, S>,
    second: Handler<T, S>,
    third: Handler<T, S>,
    bytes: Seq<u8>,
    elapsed: usize,
    next_elapsed: usize,
    result: Result<Option<Op>, Error>,
    next_result: Result<Option<Op>, Error>,
)
    requires
        112 <= bytes[0] <= 127,
        elapsed < handler::SERVICE_MODE_TIMEOUT_MS,
        next_elapsed < handler::SERVICE_MODE_TIMEOUT_MS,
        first.pending() != Some(bytes),
        Handler::handled(first, second, bytes, Some(elapsed), result),
        Handler::handled(second, third, bytes, Some(next_elapsed), next_result),
    ensures
        result == Ok::<Option<Op>, Error>(None),
        second.store == first.store,
        handler::service_action(bytes, first.store.view()).done(
            first.store.view(),
            third.store.view(),
            next_result,
        ),
        third.pending() is None,
{
}

/// A service mode packet is received once for each of the given results, every time before the
/// timer has run out: `states` are the states of the handler before the first, between every two
/// and after the last of them.
pub open spec fn received_in_a_row<T: Timer, S: Store>(
    states: Seq<Handler<T, S>>,
    bytes: Seq<u8>,
    times: Seq<usize>,
    results: Seq<Result<Option<Op>, Error>>,
) -> bool {
    &&& 112 <= bytes[0] <= 127
    &&& states.len() == results.len() + 1
    &&& times.len() == results.len()
    &&& forall|i: int|
        0 <= i < results.len() ==> times[i] < handler::SERVICE_MODE_TIMEOUT_MS && Handler::handled(
            states[i],
            states[i + 1],
            bytes,
            Some(times[i]),
            #[trigger] results[i],
        )
}

/// A packet that is received in a row waits after every odd number of times, and only then.
proof fn lemma_waits_after_odd_times<T: Timer, S: Store>(
    states: Seq<Handler<T, S>>,
    bytes: Seq<u8>,
    times: Seq<usize>,
    results: Seq<Result<Option<Op>, Error>>,
    i: int,
)
    requires
        received_in_a_row(states, bytes, times, results),
        states[0].pending() != Some(bytes),
        0 <= i < states.len(),
    ensures
        i % 2 == 1 <==> states[i].pending() == Some(bytes),
    decreases i,
{
    if i > 0 {
        lemma_waits_after_odd_times(states, bytes, times, results, i - 1);
        let result = results[i - 1];
        assert(Handler::handled(states[i - 1], states[i], bytes, Some(times[i - 1]), result));
    }
}

/// However often a service mode packet is received in a row, it is carried out every second
/// time: the first, third, fifth time it only waits to be repeated, and the second, fourth, sixth
/// time its action is taken, whether the action succeeds or fails.
pub proof fn every_second_packet_is_carried_out<T: Timer, S: Store>(
    states: Seq<Handler<T, S>>,
    bytes: Seq<u8>,
    times: Seq<usize>,
    results: Seq<Result<Option<Op>, Error>>,
    i: int,
)
    requires
        received_in_a_row(states, bytes, times, results),
        states[0].pending() != Some(bytes),
        0 <= i < results.len(),
    ensures
        i % 2 == 0 ==> {
            &&& results[i] == Ok::<Option<Op>, Error>(None)
            &&& states[i + 1].store == states[i].store
            &&& states[i + 1].pending() == Some(bytes)
        },
        i % 2 == 1 ==> {
            &&& handler::service_action(bytes, states[i].store.view()).done(
                states[i].store.view(),
                states[i + 1].store.view(),
                results[i],
            )
            &&& states[i + 1].pending() is None
        },
{
    lemma_waits_after_odd_times(states, bytes, times, results, i);
    let result = results[i];
    assert(Handler::handled(states[i], states[i + 1], bytes, Some(times[i]), result));
}

/// Programming a variable and verifying it: once the write of a byte has been sent twice and
/// acknowledged, its verification, sent twice, is acknowledged as well, and changes nothing.
pub proof fn programmed_byte_verifies<T: Timer, S: Store>(
    h0: Handler<T, S>,
    h1: Handler<T, S>,
    h2: Handler<T, S>,
    h3: Handler<T, S>,
    cv: u16,
    data: u8,
    times: (usize, usize, usize),
    results: (Result<Option<Op>, Error>, Result<Option<Op>, Error>),
)
    requires
        1 <= cv <= 1024,
        times.0 < handler::SERVICE_MODE_TIMEOUT_MS,
        times.1 < handler::SERVICE_MODE_TIMEOUT_MS,
        times.2 < handler::SERVICE_MODE_TIMEOUT_MS,
        h0.pending() == Some(
            packet::service_packet(ServiceInstructionType::WriteByte, cv, data),
        ),
        Handler::handled(
            h0,
            h1,
            packet::service_packet(ServiceInstructionType::WriteByte, cv, data),
            Some(times.0),
            Ok::<Option<Op>, Error>(Some(Op::AcknowledgeCv)),
        ),
        Handler::handled(
            h1,
            h2,
            packet::service_packet(ServiceInstructionType::VerifyByte, cv, data),
            Some(times.1),
            results.0,
        ),
        Handler::handled(
            h2,
            h3,
            packet::service_packet(ServiceInstructionType::VerifyByte, cv, data),
            Some(times.2),
            results.1,
        ),
    ensures
        results.0 == Ok::<Option<Op>, Error>(None),
        results.1 == Ok::<Option<Op>, Error>(Some(Op::AcknowledgeCv)),
        h3.store.view() == h1.store.view(),
{
    let write = packet::service_packet(
        ServiceInstructionType::WriteByte,
        cv,
        data,
    );
    let verify = packet::service_packet(
        ServiceInstructionType::VerifyByte,
        cv,
        data,
    );
    packet::service_packet_round_trip(
        ServiceInstructionType::WriteByte,
        cv,
        data,
    );
    packet::service_packet_round_trip(
        ServiceInstructionType::VerifyByte,
        cv,
        data,
    );
    written_byte_verifies(write, verify, h0.store.view(), h1.store.view());
    second_packet_is_carried_out(
        h1,
        h2,
        h3,
        verify,
        times.1,
        times.2,
        results.0,
        results.1,
    );
}

/// Programming a bit and verifying it: once the write of a bit has been sent twice and
/// acknowledged, its verification, sent twice, is acknowledged as well, and changes nothing.
pub proof fn programmed_bit_verifies<T: Timer, S: Store>(
    h0: Handler<T, S>,
    h1: Handler<T, S>,
    h2: Handler<T, S>,
    h3: Handler<T, S>,
    cv: u16,
    bit: u8,
    times: (usize, usize, usize),
    results: (Result<Option<Op>, Error>, Result<Option<Op>, Error>),
)
    requires
        1 <= cv <= 1024,
        bit < 16,
        times.0 < handler::SERVICE_MODE_TIMEOUT_MS,
        times.1 < handler::SERVICE_MODE_TIMEOUT_MS,
        times.2 < handler::SERVICE_MODE_TIMEOUT_MS,
        h0.pending() == Some(bit_packet(cv, (0b1111_0000 + bit) as u8)),
        Handler::handled(
            h0,
            h1,
            bit_packet(cv, (0b1111_0000 + bit) as u8),
            Some(times.0),
            Ok::<Option<Op>, Error>(Some(Op::AcknowledgeCv)),
        ),
        Handler::handled(
            h1,
            h2,
            bit_packet(cv, (0b1110_0000 + bit) as u8),
            Some(times.1),
            results.0,
        ),
        Handler::handled(
            h2,
            h3,
            bit_packet(cv, (0b1110_0000 + bit) as u8),
            Some(times.2),
            results.1,
        ),
    ensures
        results.0 == Ok::<Option<Op>, Error>(None),
        results.1 == Ok::<Option<Op>, Error>(Some(Op::AcknowledgeCv)),
        h3.store.view() == h1.store.view(),
{
    let kind = ServiceInstructionType::ManipulateBit;
    let (write_data, verify_data) = ((0b1111_0000 + bit) as u8, (0b1110_0000 + bit) as u8);
    let (write, verify) = (bit_packet(cv, write_data), bit_packet(cv, verify_data));
    packet::service_packet_round_trip(kind, cv, write_data);
    packet::service_packet_round_trip(kind, cv, verify_data);
    written_bit_verifies(write, verify, h0.store.view(), h1.store.view());
    second_packet_is_carried_out(h1, h2, h3, verify, times.1, times.2, results.0, results.1);
}

/// The service mode packet that manipulates a bit, with the given data byte.
pub open spec fn bit_packet(cv: u16, data: u8) -> Seq<u8> {
    packet::service_packet(ServiceInstructionType::ManipulateBit, cv, data)
}

/// A speed that is sent to the address of the decoder is handed on as it was sent, whatever
/// the address, unless the packet is taken for a service mode packet.
pub proof fn sent_speed_is_handed_on<T: Timer, S: Store>(
    before: Handler<T, S>,
    after: Handler<T, S>,
    address: u16,
    setpoint: crate::motor::VelocitySetpoint,
    elapsed: Option<usize>,
    result: Result<Option<Op>, Error>,
)
    requires
        1 <= address <= 10239,
        store::decoder_address(before.store.view()) == Ok::<u16, StoreError>(address),
        setpoint.speed_step matches crate::motor::SpeedStep::Num(n) ==> 1 <= n <= 126,
        elapsed matches Some(ms) ==> {
            ||| ms >= handler::SERVICE_MODE_TIMEOUT_MS
            ||| address < 112
            ||| address > 127
        },
        Handler::handled(
            before,
            after,
            packet::address_field(address) + seq![
                0b0011_1111u8,
                packet::speed_byte(setpoint),
            ],
            elapsed,
            result,
        ),
    ensures
        result == Ok::<Option<Op>, Error>(Some(Op::Velocity128(setpoint))),
        after.store == before.store,
{
    let instruction = seq![0b0011_1111u8, packet::speed_byte(setpoint)];
    packet::address_round_trip(address, instruction);
    packet::speed_round_trip(setpoint);
}

/// A command for all decoders is answered by every decoder as a command of its own would be, at
/// any time, and changes nothing of a decoder that does not have the broadcast address itself.
pub proof fn broadcast_reaches_every_decoder<T: Timer, S: Store>(
    before: Handler<T, S>,
    after: Handler<T, S>,
    bytes: Seq<u8>,
    elapsed: Option<usize>,
    result: Result<Option<Op>, Error>,
)
    requires
        !packet::resets(bytes),
        crate::addressed_to_all(bytes),
        Handler::handled(before, after, bytes, elapsed, result),
    ensures
        result == handler::command_answer(bytes),
        after.store == before.store,
        after.pending() == before.pending(),
        store::decoder_address(before.store.view()) != Ok::<u16, StoreError>(
            crate::BROADCAST_ADDRESS,
        ) ==> after == before,
{
}

/// A speed that is sent to all decoders is handed on as it was sent by every decoder.
pub proof fn sent_speed_reaches_every_decoder<T: Timer, S: Store>(
    before: Handler<T, S>,
    after: Handler<T, S>,
    setpoint: crate::motor::VelocitySetpoint,
    elapsed: Option<usize>,
    result: Result<Option<Op>, Error>,
)
    requires
        setpoint.speed_step matches crate::motor::SpeedStep::Num(n) ==> 1 <= n <= 126,
        Handler::handled(
            before,
            after,
            seq![0u8, 0b0011_1111, packet::speed_byte(setpoint)],
            elapsed,
            result,
        ),
    ensures
        result == Ok::<Option<Op>, Error>(Some(Op::Velocity128(setpoint))),
        after.store == before.store,
{
    packet::speed_round_trip(setpoint);
}

/// A packet for another decoder changes nothing.
pub proof fn packet_for_another_decoder<T: Timer, S: Store>(
    before: Handler<T, S>,
    after: Handler<T, S>,
    bytes: Seq<u8>,
    elapsed: Option<usize>,
    result: Result<Option<Op>, Error>,
)
    requires
        !packet::resets(bytes),
        !crate::addressed(bytes, before.store.view()),
        !crate::addressed_to_all(bytes),
        elapsed matches Some(ms) ==> {
            ||| ms >= handler::SERVICE_MODE_TIMEOUT_MS
            ||| !(112 <= bytes[0] <= 127)
        },
        Handler::handled(before, after, bytes, elapsed, result),
    ensures
        after == before,
        result == Ok::<Option<Op>, Error>(None),
{
}

} // verus!
