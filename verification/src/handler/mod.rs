//! What the decoder does on a packet.
use vstd::prelude::*;
use crate::cv::store::{self, reset, Error as StoreError, Store, StoreExt, StoreModel, Write};
use crate::cv::Cv;
use crate::function_group::FunctionGroup;
use crate::motor::VelocitySetpoint;
use crate::transport::packet::{
    self, AdvancedOperationsInstruction, Error as PacketError, OperationModeInstruction, Packet,
    ServiceInstructionType, ServicePacket,
};
use crate::Timer;

pub mod command_laws;
pub mod laws;
pub mod service_laws;

verus! {

/// How long after a reset packet, or after the previous service mode packet, a packet is
/// still taken for a service mode packet.
pub const SERVICE_MODE_TIMEOUT_MS: usize = 20;

/// What the decoder has to do.
#[derive(Copy, Clone, Debug, PartialEq, Eq, Structural)]
pub enum Op {
    /// Acknowledge the CV has been written using the service mode technique.
    AcknowledgeCv,
    /// Stops the decoder operations and returns it to the startup state.
    Reset,
    /// A 128 speed step velocity setpoint.
    Velocity128(VelocitySetpoint),
    /// Request to set a function group state.
    SetFunctions(FunctionGroup),
    /// Reboots the decoder.
    Reboot,
}

/// Why a packet could not be handled.
#[derive(Copy, Clone, Debug, PartialEq, Eq, Structural)]
pub enum Error {
    /// Problem with the packet
    Packet(PacketError),
    /// Problem with the store
    Store(StoreError),
}

impl From<PacketError> for Error {
    fn from(value: PacketError) -> (r: Error) {
        Error::Packet(value)
    }
}

impl vstd::std_specs::convert::FromSpecImpl<PacketError> for Error {
    open spec fn obeys_from_spec() -> bool {
        true
    }

    open spec fn from_spec(value: PacketError) -> Error {
        Error::Packet(value)
    }
}

impl From<StoreError> for Error {
    fn from(value: StoreError) -> (r: Error) {
        Error::Store(value)
    }
}

impl vstd::std_specs::convert::FromSpecImpl<StoreError> for Error {
    open spec fn obeys_from_spec() -> bool {
        true
    }

    open spec fn from_spec(value: StoreError) -> Error {
        Error::Store(value)
    }
}

/// What an instruction comes to: the writes that it asks of the store, and the answer once
/// they have succeeded.
pub struct Action {
    pub plan: Seq<Write>,
    pub answer: Result<Option<Op>, Error>,
}

impl Action {
    /// Answers without a write.
    pub open spec fn only(answer: Result<Option<Op>, Error>) -> Action {
        Action { plan: Seq::empty(), answer }
    }

    /// Rejects the packet.
    pub open spec fn rejected(error: PacketError) -> Action {
        Action::only(Err(Error::Packet(error)))
    }

    /// Writes once, then answers.
    pub open spec fn write(write: Write, op: Op) -> Action {
        Action { plan: seq![write], answer: Ok(Some(op)) }
    }

    /// The action is carried out on a store that goes from the state `before` to the state
    /// `after`: its writes are asked for in order; if all of them succeed `result` is the
    /// answer, and if one fails no more are asked for and `result` is its error.
    pub open spec fn done(
        self,
        before: StoreModel,
        after: StoreModel,
        result: Result<Option<Op>, Error>,
    ) -> bool {
        ||| store::ran(self.plan, before, after, Ok(())) && result == self.answer
        ||| result matches Err(Error::Store(e)) && store::ran(
            self.plan,
            before,
            after,
            Err(e),
        )
    }
}

/// Whether a primary address can have the given value.
pub open spec fn valid_primary_address(value: u8) -> bool {
    1 <= value <= 127
}

/// Writing the primary address also takes the decoder out of its extended address and out of
/// its consist.
pub open spec fn primary_address_action(value: u8, store: StoreModel) -> Action {
    let address = Write::byte(Cv::PrimaryAddress.number() as int, value);
    if !valid_primary_address(value) {
        Action::rejected(PacketError::InvalidInstruction)
    } else {
        match store.byte(Cv::DecoderConfiguration.number() as int) {
            Err(e) => Action { plan: seq![address], answer: Err(Error::Store(e)) },
            Ok(configuration) => Action {
                plan: seq![
                    address,
                    Write::byte(
                        Cv::DecoderConfiguration.number() as int,
                        configuration & !0b0010_0000u8,
                    ),
                    Write::byte(Cv::ConsistAddress.number() as int, 0),
                ],
                answer: Ok(Some(Op::AcknowledgeCv)),
            },
        }
    }
}

/// The upper byte of the extended address lies between 192 and 231, and must not make the
/// address 0 together with the lower byte.
pub open spec fn extended_msb_action(value: u8, store: StoreModel) -> Action {
    match store.byte(Cv::ExtendedAddressLsb.number() as int) {
        Err(e) => Action::only(Err(Error::Store(e))),
        Ok(lsb) => if !(192 <= value <= 231) || (lsb == 0 && value == 192) {
            Action::rejected(PacketError::InvalidInstruction)
        } else {
            Action::write(
                Write::byte(Cv::ExtendedAddressMsb.number() as int, value),
                Op::AcknowledgeCv,
            )
        },
    }
}

/// The lower byte of the extended address must not make the address 0 together with the
/// upper byte.
pub open spec fn extended_lsb_action(value: u8, store: StoreModel) -> Action {
    match store.byte(Cv::ExtendedAddressMsb.number() as int) {
        Err(e) => Action::only(Err(Error::Store(e))),
        Ok(msb) => if msb == 192 && value == 0 {
            Action::rejected(PacketError::InvalidInstruction)
        } else {
            Action::write(
                Write::byte(Cv::ExtendedAddressLsb.number() as int, value),
                Op::AcknowledgeCv,
            )
        },
    }
}

/// Writing 8 to the manufacturer id restores the factory values; it cannot be written
/// otherwise.
pub open spec fn manufacturer_id_action(value: u8) -> Action {
    if value == 8 {
        Action::write(store::factory_write(), Op::Reboot)
    } else {
        Action::only(Ok(None))
    }
}

/// Writing 7 to the version number forgets the calibration of the EMF measurement; it cannot
/// be written otherwise. The decoder reboots in any case.
pub open spec fn manufacturer_version_action(value: u8) -> Action {
    if value == 7 {
        Action::write(Write::byte(Cv::EmfAdcOffset.number() as int, u8::MAX), Op::Reboot)
    } else {
        Action::only(Ok(Some(Op::Reboot)))
    }
}

/// What the write of a byte to a configuration variable comes to.
pub open spec fn write_action(bytes: Seq<u8>, store: StoreModel) -> Action {
    match packet::service_cv_address(bytes) {
        Err(e) => Action::rejected(e),
        Ok(address) => if address == 31 || address == 32 {
            // these select a page of indexed variables, of which there are none
            Action::only(Ok(None))
        } else {
            match packet::service_cv_data(bytes) {
                Err(e) => Action::rejected(e),
                Ok(value) => if address == Cv::PrimaryAddress.number() {
                    primary_address_action(value, store)
                } else if address == Cv::ManufacturerId.number() {
                    manufacturer_id_action(value)
                } else if address == Cv::ManufacturerVersionNumber.number() {
                    manufacturer_version_action(value)
                } else if address == Cv::ExtendedAddressMsb.number() {
                    extended_msb_action(value, store)
                } else if address == Cv::ExtendedAddressLsb.number() {
                    extended_lsb_action(value, store)
                } else {
                    Action::write(Write::byte(address as int, value), Op::AcknowledgeCv)
                },
            }
        },
    }
}

/// The answer to a verification: an acknowledgement if it holds, or else nothing.
pub open spec fn verified(holds: bool) -> Action {
    Action::only(
        Ok(
            if holds {
                Some(Op::AcknowledgeCv)
            } else {
                None
            },
        ),
    )
}

/// What the verification of a configuration variable comes to.
pub open spec fn verify_action(bytes: Seq<u8>, store: StoreModel) -> Action {
    match (
        packet::service_cv_data(bytes),
        packet::service_cv_address(bytes),
    ) {
        (Err(e), _) => Action::rejected(e),
        (_, Err(e)) => Action::rejected(e),
        (Ok(expected), Ok(address)) => match store.byte(address as int) {
            Err(e) => Action::only(Err(Error::Store(e))),
            Ok(actual) => verified(expected == actual),
        },
    }
}

/// Bit `position` of a byte, 0 or 1.
pub open spec fn bit_of(byte: u8, position: u8) -> u8 {
    (byte >> position) & 1
}

/// The byte with bit `position` set to `value`, which is 0 or 1.
pub open spec fn with_bit(byte: u8, position: u8, value: u8) -> u8 {
    (byte & !(1u8 << position)) | (value << position)
}

/// What the manipulation of a bit of a configuration variable comes to. The data byte has
/// the form 111KDBBB: `K` is set for a write and clear for a verification, `D` is the value of
/// the bit, and `BBB` its position.
pub open spec fn bit_action(bytes: Seq<u8>, store: StoreModel) -> Action {
    match (
        packet::service_cv_data(bytes),
        packet::service_cv_address(bytes),
    ) {
        (Err(e), _) => Action::rejected(e),
        (_, Err(e)) => Action::rejected(e),
        (Ok(data), Ok(address)) => if data < 0b1110_0000 {
            Action::rejected(PacketError::InvalidInstruction)
        } else {
            match store.byte(address as int) {
                Err(e) => Action::only(Err(Error::Store(e))),
                Ok(current) => {
                    let (value, position) = ((data / 8 % 2) as u8, (data % 8) as u8);
                    if data / 16 % 2 == 1 {
                        Action::write(
                            Write::byte(address as int, with_bit(current, position, value)),
                            Op::AcknowledgeCv,
                        )
                    } else {
                        verified(bit_of(current, position) == value)
                    }
                },
            }
        },
    }
}

/// The packet that restores the factory values on its own.
pub open spec fn is_factory_reset(bytes: Seq<u8>) -> bool {
    bytes == seq![0b0111_1111u8, 0b0000_1000u8]
}

/// What a service mode packet comes to that has been received twice in a row.
pub open spec fn service_action(bytes: Seq<u8>, store: StoreModel) -> Action {
    if is_factory_reset(bytes) {
        Action::write(store::factory_write(), Op::Reboot)
    } else {
        match packet::service_instruction(bytes) {
            Err(e) => Action::rejected(e),
            Ok(ServiceInstructionType::ManipulateBit) => bit_action(bytes, store),
            Ok(ServiceInstructionType::VerifyByte) => verify_action(bytes, store),
            Ok(ServiceInstructionType::WriteByte) => write_action(bytes, store),
        }
    }
}

/// The answer to a command for the decoder.
pub open spec fn command_answer(bytes: Seq<u8>) -> Result<Option<Op>, Error> {
    match packet::operation_instruction(bytes) {
        Err(e) => Err(Error::Packet(e)),
        Ok(
            OperationModeInstruction::AdvancedOperations(
                AdvancedOperationsInstruction::SpeedStepControl(setpoint),
            ),
        ) => Ok(Some(Op::Velocity128(setpoint))),
        Ok(OperationModeInstruction::FunctionGroup(group)) => Ok(Some(Op::SetFunctions(group))),
    }
}

/// What a packet is to the decoder.
pub enum Route {
    /// It resets the decoder.
    Reset,
    /// It is a service mode packet.
    Service,
    /// It is a command for this decoder.
    Command,
    /// It is a command for all decoders.
    Broadcast,
    /// It is for another decoder.
    Ignored,
}

/// What a packet is to the decoder, if the timer shows `elapsed`.
pub open spec fn route(bytes: Seq<u8>, elapsed: Option<usize>, store: StoreModel) -> Route {
    if packet::resets(bytes) {
        Route::Reset
    } else if elapsed is Some && elapsed->Some_0 < SERVICE_MODE_TIMEOUT_MS && 112 <= bytes[0]
        <= 127 {
        Route::Service
    } else if crate::addressed(bytes, store) {
        Route::Command
    } else if crate::addressed_to_all(bytes) {
        Route::Broadcast
    } else {
        Route::Ignored
    }
}

/// Contains the logic for handling packets.
pub struct Handler<T: Timer, S: Store> {
    pub enter_service_mode_timer: T,
    pub store: S,
    pub pending_service_packet: Option<Packet>,
}

impl<T: Timer, S: Store> Handler<T, S> {
    /// The service mode packet that waits to be repeated.
    pub open spec fn pending(&self) -> Option<Seq<u8>> {
        match self.pending_service_packet {
            Some(packet) => Some(packet@),
            None => None,
        }
    }

    /// A service mode packet with the given bytes takes the packet that waits and the store from
    /// the state `before` to the state `after`, and is answered with `result`: it is carried out
    /// if it repeats the packet that waits, and else it waits itself.
    pub open spec fn serviced(
        before: Handler<T, S>,
        after: Handler<T, S>,
        bytes: Seq<u8>,
        result: Result<Option<Op>, Error>,
    ) -> bool {
        if before.pending() == Some(bytes) {
            &&& after.pending() is None
            &&& service_action(bytes, before.store.view()).done(
                before.store.view(),
                after.store.view(),
                result,
            )
        } else {
            &&& after.pending() == Some(bytes)
            &&& after.store == before.store
            &&& result == Ok::<Option<Op>, Error>(None)
        }
    }

    /// A packet with the given bytes takes the handler from the state `before` to the state
    /// `after`, while the timer shows `elapsed`, and is answered with `result`.
    pub open spec fn handled(
        before: Handler<T, S>,
        after: Handler<T, S>,
        bytes: Seq<u8>,
        elapsed: Option<usize>,
        result: Result<Option<Op>, Error>,
    ) -> bool {
        let timer = before.enter_service_mode_timer.view();
        match route(bytes, elapsed, before.store.view()) {
            Route::Reset => {
                &&& result == Ok::<Option<Op>, Error>(Some(Op::Reset))
                &&& after.enter_service_mode_timer.view() == timer.started()
                &&& after.store == before.store
                &&& after.pending() == before.pending()
            },
            Route::Service => {
                &&& after.enter_service_mode_timer.view() == timer.started()
                &&& Self::serviced(before, after, bytes, result)
            },
            Route::Command => {
                &&& result == command_answer(bytes)
                &&& after.enter_service_mode_timer.view() == timer.stopped()
                &&& after.store == before.store
                &&& after.pending() == before.pending()
            },
            Route::Broadcast => {
                &&& result == command_answer(bytes)
                &&& after == before
            },
            Route::Ignored => {
                &&& result == Ok::<Option<Op>, Error>(None)
                &&& after == before
            },
        }
    }

    /// A handler that has seen no packet yet.
    pub fn new(timer: T, store: S) -> (r: Handler<T, S>)
        ensures
            r.enter_service_mode_timer == timer,
            r.store == store,
            r.pending() is None,
    {
        Handler { enter_service_mode_timer: timer, store, pending_service_packet: None }
    }

    /// Handles the packet, returning any operation that needs to be performed.
    pub fn handle(&mut self, packet: &Packet) -> (r: Result<Option<Op>, Error>)
        requires
            packet@.len() >= 1,
        ensures
            exists|elapsed: Option<usize>|
                {
                    &&& old(self).enter_service_mode_timer.shows(elapsed)
                    &&& !old(self).enter_service_mode_timer.view().running ==> elapsed is None
                    &&& #[trigger] Self::handled(*old(self), *final(self), packet@, elapsed, r)
                },
    {
        let elapsed = self.enter_service_mode_timer.elapsed_ms();
        self.handle_at(packet, elapsed)
    }

    /// Handles the packet when the timer shows `elapsed`.
    pub fn handle_at(&mut self, packet: &Packet, elapsed: Option<usize>) -> (r: Result<
        Option<Op>,
        Error,
    >)
        requires
            packet@.len() >= 1,
        ensures
            Self::handled(*old(self), *final(self), packet@, elapsed, r),
    {
        let in_service_mode: bool = match elapsed {
            Some(ms) => ms < SERVICE_MODE_TIMEOUT_MS,
            None => false,
        };
        if packet.is_reset() {
            // we may be entering service mode
            self.enter_service_mode_timer.start();
            Ok(Some(Op::Reset))
        } else if in_service_mode && packet.service_mode_candidate() {
            self.enter_service_mode_timer.start();
            self.handle_service_mode(packet)
        } else if crate::is_recipient(packet, &self.store) {
            // this packet was specifically addressed to us (not a broadcast)
            self.enter_service_mode_timer.stop();
            Self::handle_command(packet)
        } else if crate::is_broadcast(packet) {
            Self::handle_command(packet)
        } else {
            // packet not addressed to us
            Ok(None)
        }
    }

    fn handle_command(packet: &Packet) -> (r: Result<Option<Op>, Error>)
        requires
            packet@.len() >= 1,
        ensures
            r == command_answer(packet@),
    {
        match OperationModeInstruction::try_from(packet) {
            Err(e) => Err(Error::Packet(e)),
            Ok(OperationModeInstruction::AdvancedOperations(o)) => match o {
                AdvancedOperationsInstruction::SpeedStepControl(v) => Ok(Some(Op::Velocity128(v))),
            },
            Ok(OperationModeInstruction::FunctionGroup(fg)) => Ok(Some(Op::SetFunctions(fg))),
        }
    }

    fn handle_service_mode(&mut self, packet: &Packet) -> (r: Result<Option<Op>, Error>)
        ensures
            final(self).enter_service_mode_timer == old(self).enter_service_mode_timer,
            Self::serviced(*old(self), *final(self), packet@, r),
    {
        let repeated: bool = match self.pending_service_packet.take() {
            Some(pending) => pending == *packet,
            None => false,
        };
        if !repeated {
            self.pending_service_packet = Some(packet.clone());
            return Ok(None);
        }
        // check for the packet that restores the factory values
        let data = packet.as_slice();
        let factory_reset: bool = data.len() == 2 && data[0] == 0b0111_1111 && data[1]
            == 0b0000_1000;
        assert(factory_reset == is_factory_reset(packet@)) by {
            if factory_reset {
                assert(packet@ =~= seq![0b0111_1111u8, 0b0000_1000u8]);
            }
        }
        if factory_reset {
            return self.reset_to_factory_defaults();
        }
        match packet.instruction_type() {
            Err(e) => {
                proof {
                    store::lemma_ran_nothing(self.store.view());
                }
                Err(Error::Packet(e))
            },
            Ok(ServiceInstructionType::ManipulateBit) => self.manipulate_bit(packet),
            Ok(ServiceInstructionType::VerifyByte) => self.verify_byte(packet),
            Ok(ServiceInstructionType::WriteByte) => self.write_byte(packet),
        }
    }

    fn verify_byte(&self, packet: &Packet) -> (r: Result<Option<Op>, Error>)
        ensures
            verify_action(packet@, self.store.view()).done(
                self.store.view(),
                self.store.view(),
                r,
            ),
    {
        let expected: u8 = match packet.cv_data() {
            Ok(expected) => expected,
            Err(e) => {
                return Err(Error::Packet(e));
            },
        };
        let address: u16 = match packet.cv_address() {
            Ok(address) => address,
            Err(e) => {
                return Err(Error::Packet(e));
            },
        };
        match self.store.read_byte(address as usize) {
            Ok(actual) => Ok(
                if expected == actual {
                    Some(Op::AcknowledgeCv)
                } else {
                    None
                },
            ),
            Err(e) => Err(Error::Store(e)),
        }
    }

    fn reset_to_factory_defaults(&mut self) -> (r: Result<Option<Op>, Error>)
        ensures
            final(self).enter_service_mode_timer == old(self).enter_service_mode_timer,
            final(self).pending_service_packet == old(self).pending_service_packet,
            Action::write(store::factory_write(), Op::Reboot).done(
                old(self).store.view(),
                final(self).store.view(),
                r,
            ),
    {
        let ghost before = self.store.view();
        let result = reset(&mut self.store);
        proof {
            store::lemma_ran_one(
                before,
                self.store.view(),
                store::factory_write(),
                result,
            );
        }
        match result {
            Ok(()) => Ok(Some(Op::Reboot)),
            Err(e) => Err(Error::Store(e)),
        }
    }

    /// Writes one byte, then answers with the operation.
    fn write_and(&mut self, address: usize, value: u8, op: Op) -> (r: Result<Option<Op>, Error>)
        ensures
            final(self).enter_service_mode_timer == old(self).enter_service_mode_timer,
            final(self).pending_service_packet == old(self).pending_service_packet,
            Action::write(Write::byte(address as int, value), op).done(
                old(self).store.view(),
                final(self).store.view(),
                r,
            ),
    {
        let ghost before = self.store.view();
        let result = self.store.write_byte(address, value);
        proof {
            store::lemma_ran_one(
                before,
                self.store.view(),
                Write::byte(address as int, value),
                result,
            );
        }
        match result {
            Ok(()) => Ok(Some(op)),
            Err(e) => Err(Error::Store(e)),
        }
    }

    fn write_primary_address(&mut self, value: u8) -> (r: Result<Option<Op>, Error>)
        ensures
            final(self).enter_service_mode_timer == old(self).enter_service_mode_timer,
            final(self).pending_service_packet == old(self).pending_service_packet,
            primary_address_action(value, old(self).store.view()).done(
                old(self).store.view(),
                final(self).store.view(),
                r,
            ),
    {
        if !(1 <= value && value <= 127) {
            // return an error if the value is not in the valid primary address range
            return Err(Error::Packet(PacketError::InvalidInstruction));
        }
        let ghost before = self.store.view();
        let ghost w1 = Write::byte(Cv::PrimaryAddress.number() as int, value);
        let ghost w3 = Write::byte(Cv::ConsistAddress.number() as int, 0);
        let first = self.store.write_byte(Cv::PrimaryAddress.number() as usize, value);
        let ghost s1 = self.store.view();
        proof {
            store::lemma_ran_one(before, s1, w1, first);
            assert(s1.byte(Cv::DecoderConfiguration.number() as int) == before.byte(
                Cv::DecoderConfiguration.number() as int,
            ));
        }
        if let Err(e) = first {
            proof {
                if let Ok(cv29) = before.byte(Cv::DecoderConfiguration.number() as int) {
                    let w2 = Write::byte(
                        Cv::DecoderConfiguration.number() as int,
                        cv29 & !0b0010_0000u8,
                    );
                    store::lemma_ran_stopped(seq![w1], before, s1, w2, first);
                    store::lemma_ran_stopped(seq![w1].push(w2), before, s1, w3, first);
                    assert(seq![w1].push(w2).push(w3) =~= seq![w1, w2, w3]);
                }
            }
            return Err(Error::Store(e));
        }
        // clear the extended address mode bit and consist addresses
        let cv29: u8 = match self.store.read_byte(Cv::DecoderConfiguration.number() as usize) {
            Ok(cv29) => cv29,
            Err(e) => {
                return Err(Error::Store(e));
            },
        };
        let ghost w2 = Write::byte(
            Cv::DecoderConfiguration.number() as int,
            cv29 & !0b0010_0000u8,
        );
        proof {
            assert(seq![w1].push(w2).push(w3) =~= seq![w1, w2, w3]);
        }
        let second = self.store.write_byte(
            Cv::DecoderConfiguration.number() as usize,
            cv29 & !0b0010_0000,
        );
        let ghost s2 = self.store.view();
        proof {
            store::lemma_ran_push(seq![w1], before, s1, s2, w2, second);
        }
        if let Err(e) = second {
            proof {
                store::lemma_ran_stopped(seq![w1].push(w2), before, s2, w3, second);
            }
            return Err(Error::Store(e));
        }
        let third = self.store.write_byte(Cv::ConsistAddress.number() as usize, 0);
        proof {
            store::lemma_ran_push(
                seq![w1].push(w2),
                before,
                s2,
                self.store.view(),
                w3,
                third,
            );
        }
        match third {
            Ok(()) => Ok(Some(Op::AcknowledgeCv)),
            Err(e) => Err(Error::Store(e)),
        }
    }

    fn write_byte(&mut self, packet: &Packet) -> (r: Result<Option<Op>, Error>)
        ensures
            final(self).enter_service_mode_timer == old(self).enter_service_mode_timer,
            final(self).pending_service_packet == old(self).pending_service_packet,
            write_action(packet@, old(self).store.view()).done(
                old(self).store.view(),
                final(self).store.view(),
                r,
            ),
    {
        let address: u16 = match packet.cv_address() {
            Ok(address) => address,
            Err(e) => {
                return Err(Error::Packet(e));
            },
        };
        // CV31/CV32 select the CV index page. This decoder does not implement
        // indexed CVs, so the writes are silently ignored.
        if address == 31 || address == 32 {
            return Ok(None);
        }
        let value: u8 = match packet.cv_data() {
            Ok(value) => value,
            Err(e) => {
                return Err(Error::Packet(e));
            },
        };
        match Cv::from_number(address) {
            Some(Cv::PrimaryAddress) => self.write_primary_address(value),
            // read only cvs
            Some(Cv::ManufacturerId) => {
                // Reset all CVs to default when setting CV_8 = 8)
                if value == 8 {
                    return self.reset_to_factory_defaults();
                }
                Ok(None)
            },
            Some(Cv::ManufacturerVersionNumber) => {
                // ADC offset Adjustment is triggered when setting CV_7 = 7
                if value == 7 {
                    let ghost before = self.store.view();
                    let result = self.store.emf_adc_offset_clear();
                    proof {
                        store::lemma_ran_one(
                            before,
                            self.store.view(),
                            Write::byte(Cv::EmfAdcOffset.number() as int, u8::MAX),
                            result,
                        );
                    }
                    if let Err(e) = result {
                        return Err(Error::Store(e));
                    }
                }
                Ok(Some(Op::Reboot))
            },
            Some(Cv::ExtendedAddressMsb) => {
                // CV17 holds the high 6 bits of the extended address and must be in
                // 192..=231. CV17 == 192 with CV18 == 0 would form address 0, which is
                // invalid.
                let lsb: usize = Cv::ExtendedAddressLsb.number() as usize;
                let cv18: u8 = match self.store.read_byte(lsb) {
                    Ok(cv18) => cv18,
                    Err(e) => {
                        return Err(Error::Store(e));
                    },
                };
                if !(192 <= value && value <= 231) || (cv18 == 0 && value == 192) {
                    return Err(Error::Packet(PacketError::InvalidInstruction));
                }
                self.write_and(Cv::ExtendedAddressMsb.number() as usize, value, Op::AcknowledgeCv)
            },
            Some(Cv::ExtendedAddressLsb) => {
                // CV18 holds the low 8 bits. Reject the value that would form address 0
                // when CV17 is already at its minimum (192).
                let msb: usize = Cv::ExtendedAddressMsb.number() as usize;
                let cv17: u8 = match self.store.read_byte(msb) {
                    Ok(cv17) => cv17,
                    Err(e) => {
                        return Err(Error::Store(e));
                    },
                };
                if cv17 == 192 && value == 0 {
                    return Err(Error::Packet(PacketError::InvalidInstruction));
                }
                self.write_and(Cv::ExtendedAddressLsb.number() as usize, value, Op::AcknowledgeCv)
            },
            _ => self.write_and(address as usize, value, Op::AcknowledgeCv),
        }
    }

    fn manipulate_bit(&mut self, packet: &Packet) -> (r: Result<Option<Op>, Error>)
        ensures
            final(self).enter_service_mode_timer == old(self).enter_service_mode_timer,
            final(self).pending_service_packet == old(self).pending_service_packet,
            bit_action(packet@, old(self).store.view()).done(
                old(self).store.view(),
                final(self).store.view(),
                r,
            ),
    {
        // cv_data format: 111KDBBB
        let packed: u8 = match packet.cv_data() {
            Ok(packed) => packed,
            Err(e) => {
                return Err(Error::Packet(e));
            },
        };
        // top 3 bits must be 111
        if packed < 0b1110_0000 {
            return Err(Error::Packet(PacketError::InvalidInstruction));
        }
        // unpack the data
        // k - 1 = write, 0 = read
        // d - bit value
        // bbb - BBB represents the bit position within the CV (000 being defined as bit 0)
        assert((packed & 0b0001_0000 != 0) == (packed / 16 % 2 == 1) && (packed & 0b0000_1000) >> 3
            == packed / 8 % 2 && packed & 0b0000_0111 == packed % 8) by (bit_vector);
        let is_write: bool = (packed & 0b0001_0000) != 0;  // K bit
        let d_val: u8 = (packed & 0b0000_1000) >> 3;  // D bit
        let bit_pos: u8 = packed & 0b0000_0111;  // BBB
        let cv_addr: usize = match packet.cv_address() {
            Ok(address) => address as usize,
            Err(e) => {
                return Err(Error::Packet(e));
            },
        };
        let current: u8 = match self.store.read_byte(cv_addr) {
            Ok(current) => current,
            Err(e) => {
                return Err(Error::Store(e));
            },
        };
        if is_write {
            // Write Bit operation - branchless bit manipulation
            let mask: u8 = 1u8 << bit_pos;
            let new_val: u8 = (current & !mask) | (d_val << bit_pos);
            self.write_and(cv_addr, new_val, Op::AcknowledgeCv)
        } else {
            // Bit Verify operation
            let bit_matches: bool = ((current >> bit_pos) & 1) == d_val;
            Ok(
                if bit_matches {
                    Some(Op::AcknowledgeCv)
                } else {
                    None
                },
            )
        }
    }
}

} // verus!
