//! DCC packets and the instructions that they carry.
use vstd::prelude::*;
use crate::function_group::{FunctionGroup, FunctionGroupFlags};
use crate::motor::{Direction, SpeedStep, VelocitySetpoint};

verus! {

/// The most bytes that a packet holds.
pub const PACKET_CAPACITY: usize = 6;

/// What is wrong with a packet.
#[derive(Copy, Clone, Debug, PartialEq, Eq, Structural)]
pub enum Error {
    /// Packet is too short
    Undersize,
    /// Packet is too long
    Oversize,
    /// Packet has an invalid checksum
    InvalidChecksum,
    /// Packet has an invalid / unsupported address
    InvalidAddress,
    /// Packet contains an invalid instruction.
    ///
    /// May be for operation or service mode.
    InvalidInstruction,
}

/// The fixed-capacity vector of the `heapless` crate. Its contents are spoken of through
/// [`packet_bytes`].
#[verifier::external_type_specification]
#[verifier::external_body]
#[verifier::reject_recursive_types(T)]
pub struct ExHeaplessVec<T, const N: usize>(heapless::Vec<T, N>);

/// The elements that the vector holds, in order.
pub uninterp spec fn packet_bytes(data: heapless::Vec<u8, 6>) -> Seq<u8>;

/// `heapless::Vec::from_slice`: a vector with the elements of the slice, in order; `None`
/// exactly when the slice has more elements than the capacity, which is 6 here.
#[verifier::external_body]
fn vec_from_slice(bytes: &[u8]) -> (r: Option<heapless::Vec<u8, 6>>)
    ensures
        match r {
            Some(data) => bytes@.len() <= 6 && packet_bytes(data) == bytes@,
            None => bytes@.len() > 6,
        },
{
    heapless::Vec::from_slice(bytes).ok()
}

/// `heapless::Vec::as_slice`: the elements of the vector as a slice, which is no longer than
/// the capacity.
#[verifier::external_body]
fn vec_as_slice(data: &heapless::Vec<u8, 6>) -> (r: &[u8])
    ensures
        r@ == packet_bytes(*data),
        r@.len() <= 6,
{
    data.as_slice()
}

/// `Clone::clone` of `heapless::Vec`: a vector with the same elements.
#[verifier::external_body]
fn vec_clone(data: &heapless::Vec<u8, 6>) -> (r: heapless::Vec<u8, 6>)
    ensures
        packet_bytes(r) == packet_bytes(*data),
{
    data.clone()
}

/// `PartialEq::eq` of `heapless::Vec`: whether both vectors hold the same elements.
#[verifier::external_body]
fn vec_eq(a: &heapless::Vec<u8, 6>, b: &heapless::Vec<u8, 6>) -> (r: bool)
    ensures
        r == (packet_bytes(*a) == packet_bytes(*b)),
{
    a == b
}

/// A valid DCC packet.
pub struct Packet {
    pub data: heapless::Vec<u8, 6>,
}

impl View for Packet {
    type V = Seq<u8>;

    open spec fn view(&self) -> Seq<u8> {
        packet_bytes(self.data)
    }
}

impl Clone for Packet {
    fn clone(&self) -> (r: Packet)
        ensures
            r@ == self@,
    {
        Packet { data: vec_clone(&self.data) }
    }
}

impl PartialEq for Packet {
    fn eq(&self, other: &Packet) -> (r: bool) {
        vec_eq(&self.data, &other.data)
    }
}

impl vstd::std_specs::cmp::PartialEqSpecImpl for Packet {
    open spec fn obeys_eq_spec() -> bool {
        true
    }

    open spec fn eq_spec(&self, other: &Packet) -> bool {
        self@ == other@
    }
}

impl Eq for Packet {

}

/// Whether the packet contains a basic (one byte) address.
pub open spec fn has_basic_address(bytes: Seq<u8>) -> bool {
    bytes[0] <= 127
}

/// Whether the packet contains an extended (two byte) address for a multifunction decoder.
pub open spec fn has_mf_extended_address(bytes: Seq<u8>) -> bool {
    bytes.len() >= 2 && 192 <= bytes[0] <= 231
}

/// The address that the packet is for.
pub open spec fn packet_address(bytes: Seq<u8>) -> Result<u16, Error> {
    if has_basic_address(bytes) {
        Ok(bytes[0] as u16)
    } else if has_mf_extended_address(bytes) {
        Ok(crate::extended_address(bytes[0], bytes[1]))
    } else {
        Err(Error::InvalidAddress)
    }
}

/// How many bytes the address takes.
pub open spec fn address_bytes(bytes: Seq<u8>) -> Result<usize, Error> {
    if has_basic_address(bytes) {
        Ok(1)
    } else if has_mf_extended_address(bytes) {
        Ok(2)
    } else {
        Err(Error::InvalidAddress)
    }
}

/// Whether the packet resets the decoder.
pub open spec fn resets(bytes: Seq<u8>) -> bool {
    bytes.len() >= 2 && bytes[0] == 0 && bytes[1] == 0
}

impl Packet {
    /// A packet of the given bytes; `None` if they are more than a packet can hold.
    pub fn new(bytes: &[u8]) -> (r: Option<Packet>)
        ensures
            match r {
                Some(packet) => bytes@.len() <= PACKET_CAPACITY && packet@ == bytes@,
                None => bytes@.len() > PACKET_CAPACITY,
            },
    {
        match vec_from_slice(bytes) {
            Some(data) => Some(Packet { data }),
            None => None,
        }
    }

    /// The bytes of the packet, without the checksum.
    pub fn as_slice(&self) -> (r: &[u8])
        ensures
            r@ == self@,
            r@.len() <= PACKET_CAPACITY,
    {
        vec_as_slice(&self.data)
    }

    /// Reads the address from the packet
    pub fn addr(&self) -> (r: Result<u16, Error>)
        requires
            self@.len() >= 1,
        ensures
            r == packet_address(self@),
    {
        let data = self.as_slice();
        if is_basic_address(data) {
            let first: u8 = data[0];
            assert(first & 0b0111_1111 == first) by (bit_vector)
                requires
                    first <= 127,
            ;
            return Ok((first & 0b0111_1111) as u16);
        }
        if is_mf_extended_address(data) {
            return Ok(crate::read_extended_address(data));
        }
        // the addresses from 128 to 191 belong to accessory decoders
        Err(Error::InvalidAddress)
    }

    /// Returns `true` if the packet may be a service mode packet.
    ///
    /// We cannot know for sure it is a service mode packet because some
    /// command mode packets have the same structure.
    pub fn service_mode_candidate(&self) -> (r: bool)
        requires
            self@.len() >= 1,
        ensures
            r == (112 <= self@[0] <= 127),
    {
        let first: u8 = self.as_slice()[0];
        112 <= first && first <= 127
    }

    /// Returns the length of the address in bytes.
    pub fn address_length(&self) -> (r: Result<usize, Error>)
        requires
            self@.len() >= 1,
        ensures
            r == address_bytes(self@),
    {
        let data = self.as_slice();
        if is_basic_address(data) {
            Ok(1)
        } else if is_mf_extended_address(data) {
            Ok(2)
        } else {
            Err(Error::InvalidAddress)
        }
    }

    /// Returns the data following the address.
    pub fn raw_instruction_data(&self) -> (r: Result<&[u8], Error>)
        requires
            self@.len() >= 1,
        ensures
            match r {
                Ok(data) => address_bytes(self@) is Ok && data@ == self@.skip(
                    address_bytes(self@)->Ok_0 as int,
                ),
                Err(e) => address_bytes(self@) == Err::<usize, Error>(e),
            },
    {
        let length: usize = self.address_length()?;
        let data = self.as_slice();
        Ok(vstd::slice::slice_subrange(data, length, data.len()))
    }

    /// Returns `true` if the packet is a reset packet.
    pub fn is_reset(&self) -> (r: bool)
        ensures
            r == resets(self@),
    {
        let data = self.as_slice();
        data.len() >= 2 && data[0] == 0x00 && data[1] == 0x00
    }
}

/// Checks if the given raw packet contains a basic (one byte) address.
pub fn is_basic_address(raw_packet: &[u8]) -> (r: bool)
    requires
        raw_packet@.len() >= 1,
    ensures
        r == has_basic_address(raw_packet@),
{
    raw_packet[0] <= 127
}

/// Checks if the given raw packet contains an extended (two byte) address for a
/// multifunction decoder.
pub fn is_mf_extended_address(raw_packet: &[u8]) -> (r: bool)
    ensures
        r == has_mf_extended_address(raw_packet@),
{
    if raw_packet.len() < 2 {
        return false;
    }
    192 <= raw_packet[0] && raw_packet[0] <= 231
}

/// The kind of an operation mode instruction: the upper three bits of its first byte.
#[derive(Copy, Clone, Debug, PartialEq, Eq, Structural)]
pub enum OperationInstructionType {
    DecoderControl,
    AdvancedOperations,
    SpeedDirectionReverse,
    SpeedDirectionForward,
    FunctionGroup1,
    FunctionGroup2,
    FeatureExpansion,
    CVAccess,
}

impl OperationInstructionType {
    /// The code of the kind.
    pub open spec fn code(self) -> u8 {
        match self {
            OperationInstructionType::DecoderControl => 0b000,
            OperationInstructionType::AdvancedOperations => 0b001,
            OperationInstructionType::SpeedDirectionReverse => 0b010,
            OperationInstructionType::SpeedDirectionForward => 0b011,
            OperationInstructionType::FunctionGroup1 => 0b100,
            OperationInstructionType::FunctionGroup2 => 0b101,
            OperationInstructionType::FeatureExpansion => 0b110,
            OperationInstructionType::CVAccess => 0b111,
        }
    }

    /// The kind with the given code.
    pub fn from_code(code: u8) -> (r: Option<OperationInstructionType>)
        ensures
            match r {
                Some(kind) => kind.code() == code,
                None => code > 0b111,
            },
    {
        match code {
            0b000 => Some(OperationInstructionType::DecoderControl),
            0b001 => Some(OperationInstructionType::AdvancedOperations),
            0b010 => Some(OperationInstructionType::SpeedDirectionReverse),
            0b011 => Some(OperationInstructionType::SpeedDirectionForward),
            0b100 => Some(OperationInstructionType::FunctionGroup1),
            0b101 => Some(OperationInstructionType::FunctionGroup2),
            0b110 => Some(OperationInstructionType::FeatureExpansion),
            0b111 => Some(OperationInstructionType::CVAccess),
            _ => None,
        }
    }
}

/// An instruction for normal operation.
#[derive(Copy, Clone, Debug, PartialEq, Eq, Structural)]
pub enum OperationModeInstruction {
    AdvancedOperations(AdvancedOperationsInstruction),
    FunctionGroup(FunctionGroup),
}

/// An advanced operations instruction.
#[derive(Copy, Clone, Debug, PartialEq, Eq, Structural)]
pub enum AdvancedOperationsInstruction {
    SpeedStepControl(VelocitySetpoint),
}

/// The setpoint that the second byte of a 128 speed step instruction holds: the upper bit
/// is set for forward, and the lower seven bits are the speed, in which 1 is the emergency
/// stop.
pub open spec fn speed_vector(byte: u8) -> VelocitySetpoint {
    VelocitySetpoint {
        speed_step: if byte % 128 == 0 {
            SpeedStep::Stop
        } else if byte % 128 == 1 {
            SpeedStep::EmergencyStop
        } else {
            SpeedStep::Num((byte % 128 - 1) as u8)
        },
        direction: if byte >= 128 {
            Direction::Forward
        } else {
            Direction::Reverse
        },
    }
}

/// The request that a function group 1 instruction makes: its lower five bits are the states
/// of F1 to F4 and of FL.
pub open spec fn function_group_1(instruction: u8) -> FunctionGroup {
    FunctionGroup {
        group_mask: FunctionGroupFlags { bits: 0x001f },
        flags: FunctionGroupFlags { bits: (instruction % 32) as u16 },
    }
}

/// The request that a function group 2 instruction makes: its lower four bits are the states
/// of F5 to F8 if the bit above them is set, or else of F9 to F12.
pub open spec fn function_group_2(instruction: u8) -> FunctionGroup {
    if instruction % 32 >= 16 {
        FunctionGroup {
            group_mask: FunctionGroupFlags { bits: 0x01e0 },
            flags: FunctionGroupFlags { bits: ((instruction % 16) * 32) as u16 },
        }
    } else {
        FunctionGroup {
            group_mask: FunctionGroupFlags { bits: 0x1e00 },
            flags: FunctionGroupFlags { bits: ((instruction % 16) * 512) as u16 },
        }
    }
}

/// The instruction in the bytes that follow the address.
pub open spec fn instruction_in(data: Seq<u8>) -> Result<OperationModeInstruction, Error> {
    if data.len() == 0 {
        Err(Error::Undersize)
    } else if data[0] == 0b0011_1111 {
        if data.len() < 2 {
            Err(Error::Undersize)
        } else {
            Ok(
                OperationModeInstruction::AdvancedOperations(
                    AdvancedOperationsInstruction::SpeedStepControl(speed_vector(data[1])),
                ),
            )
        }
    } else if 0b1000_0000 <= data[0] <= 0b1001_1111 {
        Ok(OperationModeInstruction::FunctionGroup(function_group_1(data[0])))
    } else if 0b1010_0000 <= data[0] <= 0b1011_1111 {
        Ok(OperationModeInstruction::FunctionGroup(function_group_2(data[0])))
    } else {
        Err(Error::InvalidInstruction)
    }
}

/// The operation mode instruction of a packet.
pub open spec fn operation_instruction(bytes: Seq<u8>) -> Result<OperationModeInstruction, Error> {
    match address_bytes(bytes) {
        Err(e) => Err(e),
        Ok(length) => instruction_in(bytes.skip(length as int)),
    }
}

impl OperationModeInstruction {
    /// Reads the instruction from a packet.
    pub fn try_from(value: &Packet) -> (r: Result<OperationModeInstruction, Error>)
        requires
            value@.len() >= 1,
        ensures
            r == operation_instruction(value@),
    {
        let data = value.raw_instruction_data()?;
        if data.len() == 0 {
            return Err(Error::Undersize);
        }
        let first: u8 = data[0];
        assert(first >> 5 == first / 32 && first & 0b0001_1111 == first % 32) by (bit_vector);
        let kind = match OperationInstructionType::from_code(first >> 5) {
            Some(kind) => kind,
            None => {
                return Err(Error::InvalidInstruction);
            },
        };
        match kind {
            OperationInstructionType::DecoderControl => Err(Error::InvalidInstruction),
            OperationInstructionType::AdvancedOperations => {
                if first & 0b0001_1111 != 0b0001_1111 {
                    return Err(Error::InvalidInstruction);
                }
                // 128 speed step control
                if data.len() < 2 {
                    return Err(Error::Undersize);
                }
                let vector: u8 = data[1];
                assert((vector & 0b1000_0000) >> 7 == vector / 128 && vector & 0b0111_1111 == vector
                    % 128) by (bit_vector);
                let direction = if (vector & 0b1000_0000) >> 7 == 0 {
                    Direction::Reverse
                } else {
                    Direction::Forward
                };
                // mask out the direction
                let speed: u8 = vector & 0b0111_1111;
                let speed_step = match speed {
                    0 => SpeedStep::Stop,
                    1 => SpeedStep::EmergencyStop,
                    _ => SpeedStep::Num(speed - 1),
                };
                Ok(
                    OperationModeInstruction::AdvancedOperations(
                        AdvancedOperationsInstruction::SpeedStepControl(
                            VelocitySetpoint { speed_step, direction },
                        ),
                    ),
                )
            },
            OperationInstructionType::SpeedDirectionReverse => Err(Error::InvalidInstruction),
            OperationInstructionType::SpeedDirectionForward => Err(Error::InvalidInstruction),
            OperationInstructionType::FunctionGroup1 => Ok(
                OperationModeInstruction::FunctionGroup(parse_fg1(first)),
            ),
            OperationInstructionType::FunctionGroup2 => Ok(
                OperationModeInstruction::FunctionGroup(parse_fg2(first)),
            ),
            OperationInstructionType::FeatureExpansion => Err(Error::InvalidInstruction),
            OperationInstructionType::CVAccess => Err(Error::InvalidInstruction),
        }
    }
}

/// Reads a function group 1 instruction.
pub fn parse_fg1(instruction: u8) -> (r: FunctionGroup)
    ensures
        r == function_group_1(instruction),
        r.wf(),
{
    let mut flags = FunctionGroupFlags::empty();
    // Group 1: 100 D D D D D (FL F4 F3 F2 F1)
    // Bits 0-3 control F1-F4, bit 4 controls FL
    if (instruction & 0b0000_0001) != 0 {
        flags = flags.union(FunctionGroupFlags::f1());
    }
    if (instruction & 0b0000_0010) != 0 {
        flags = flags.union(FunctionGroupFlags::f2());
    }
    if (instruction & 0b0000_0100) != 0 {
        flags = flags.union(FunctionGroupFlags::f3());
    }
    if (instruction & 0b0000_1000) != 0 {
        flags = flags.union(FunctionGroupFlags::f4());
    }
    if (instruction & 0b0001_0000) != 0 {
        flags = flags.union(FunctionGroupFlags::fl());
    }
    proof {
        let none = 0u16;
        let f1 = if (instruction & 0b0000_0001) != 0 { none | 0x0001 } else { none };
        let f2 = if (instruction & 0b0000_0010) != 0 { f1 | 0x0002 } else { f1 };
        let f3 = if (instruction & 0b0000_0100) != 0 { f2 | 0x0004 } else { f2 };
        let f4 = if (instruction & 0b0000_1000) != 0 { f3 | 0x0008 } else { f3 };
        let fl = if (instruction & 0b0001_0000) != 0 { f4 | 0x0010 } else { f4 };
        assert(fl & 0x001f == (instruction % 32) as u16) by (bit_vector)
            requires
                none == 0u16,
                f1 == (if (instruction & 0b0000_0001) != 0 { none | 0x0001 } else { none }),
                f2 == (if (instruction & 0b0000_0010) != 0 { f1 | 0x0002 } else { f1 }),
                f3 == (if (instruction & 0b0000_0100) != 0 { f2 | 0x0004 } else { f2 }),
                f4 == (if (instruction & 0b0000_1000) != 0 { f3 | 0x0008 } else { f3 }),
                fl == (if (instruction & 0b0001_0000) != 0 { f4 | 0x0010 } else { f4 }),
        ;
    }
    FunctionGroup::new(FunctionGroupFlags::fg_1(), flags)
}

/// Reads a function group 2 instruction.
pub fn parse_fg2(instruction: u8) -> (r: FunctionGroup)
    ensures
        r == function_group_2(instruction),
        r.wf(),
{
    let mut flags = FunctionGroupFlags::empty();
    // Group 2: 101 S D D D D
    // Bit 4 (S) determines which group: 1 = F5-F8, 0 = F9-F12
    // Bits 0-3 (DDDD) contain the function states
    let s_bit: u8 = (instruction >> 4) & 1;
    assert(s_bit == (if instruction % 32 >= 16 { 1u8 } else { 0u8 })) by (bit_vector)
        requires
            s_bit == (instruction >> 4) & 1,
    ;
    let group_mask = if s_bit == 1 {
        // F5-F8 (bits 0-3 map to F5-F8)
        if (instruction & 0b0000_0001) != 0 {
            flags = flags.union(FunctionGroupFlags::f5());
        }
        if (instruction & 0b0000_0010) != 0 {
            flags = flags.union(FunctionGroupFlags::f6());
        }
        if (instruction & 0b0000_0100) != 0 {
            flags = flags.union(FunctionGroupFlags::f7());
        }
        if (instruction & 0b0000_1000) != 0 {
            flags = flags.union(FunctionGroupFlags::f8());
        }
        proof {
            lemma_four_functions(instruction, 0x0020, 0x0040, 0x0080, 0x0100);
        }
        FunctionGroupFlags::fg_2_1()
    } else {
        // F9-F12 (bits 0-3 map to F9-F12)
        if (instruction & 0b0000_0001) != 0 {
            flags = flags.union(FunctionGroupFlags::f9());
        }
        if (instruction & 0b0000_0010) != 0 {
            flags = flags.union(FunctionGroupFlags::f10());
        }
        if (instruction & 0b0000_0100) != 0 {
            flags = flags.union(FunctionGroupFlags::f11());
        }
        if (instruction & 0b0000_1000) != 0 {
            flags = flags.union(FunctionGroupFlags::f12());
        }
        proof {
            lemma_four_functions(instruction, 0x0200, 0x0400, 0x0800, 0x1000);
        }
        FunctionGroupFlags::fg_2_0()
    };
    FunctionGroup::new(group_mask, flags)
}

/// Collecting four functions one by one is the same as moving the lower four bits to the
/// place of the first.
proof fn lemma_four_functions(instruction: u8, a: u16, b: u16, c: u16, d: u16)
    requires
        a == 0x0020 || a == 0x0200,
        b == 2 * a,
        c == 4 * a,
        d == 8 * a,
    ensures
        ({
            let none = 0u16;
            let fa = if (instruction & 0b0000_0001) != 0 { none | a } else { none };
            let fb = if (instruction & 0b0000_0010) != 0 { fa | b } else { fa };
            let fc = if (instruction & 0b0000_0100) != 0 { fb | c } else { fb };
            let fd = if (instruction & 0b0000_1000) != 0 { fc | d } else { fc };
            fd & (if a == 0x0020 { 0x01e0u16 } else { 0x1e00u16 }) == (instruction % 16) * a
        }),
{
    let none = 0u16;
    let fa = if (instruction & 0b0000_0001) != 0 { none | a } else { none };
    let fb = if (instruction & 0b0000_0010) != 0 { fa | b } else { fa };
    let fc = if (instruction & 0b0000_0100) != 0 { fb | c } else { fb };
    let fd = if (instruction & 0b0000_1000) != 0 { fc | d } else { fc };
    assert(fd & (if a == 0x0020 { 0x01e0u16 } else { 0x1e00u16 }) == (instruction % 16) * a)
        by (bit_vector)
        requires
            a == 0x0020 || a == 0x0200,
            b == 2 * a,
            c == 4 * a,
            d == 8 * a,
            none == 0u16,
            fa == (if (instruction & 0b0000_0001) != 0 { none | a } else { none }),
            fb == (if (instruction & 0b0000_0010) != 0 { fa | b } else { fa }),
            fc == (if (instruction & 0b0000_0100) != 0 { fb | c } else { fb }),
            fd == (if (instruction & 0b0000_1000) != 0 { fc | d } else { fc }),
    ;
}

/// The kind of a service mode instruction.
#[derive(Copy, Clone, Debug, PartialEq, Eq, Structural)]
pub enum ServiceInstructionType {
    ManipulateBit,
    VerifyByte,
    WriteByte,
}

/// The kind of service mode instruction that a packet holds: bits 2 and 3 of its first byte.
pub open spec fn service_instruction(bytes: Seq<u8>) -> Result<ServiceInstructionType, Error> {
    if bytes.len() == 0 {
        Err(Error::Undersize)
    } else if bytes[0] / 4 % 4 == 0b01 {
        Ok(ServiceInstructionType::VerifyByte)
    } else if bytes[0] / 4 % 4 == 0b10 {
        Ok(ServiceInstructionType::ManipulateBit)
    } else if bytes[0] / 4 % 4 == 0b11 {
        Ok(ServiceInstructionType::WriteByte)
    } else {
        Err(Error::InvalidInstruction)
    }
}

/// The number of the configuration variable that a service mode packet is about. The packet
/// counts from 0.
pub open spec fn service_cv_address(bytes: Seq<u8>) -> Result<u16, Error> {
    if bytes.len() < 2 {
        Err(Error::Undersize)
    } else {
        Ok((bytes[0] % 4 * 256 + bytes[1] + 1) as u16)
    }
}

/// The data byte of a service mode packet.
pub open spec fn service_cv_data(bytes: Seq<u8>) -> Result<u8, Error> {
    if bytes.len() < 3 {
        Err(Error::Undersize)
    } else {
        Ok(bytes[2])
    }
}

/// Packet extensions for when the decoder is in service mode.
pub trait ServicePacket {
    /// The bytes of the packet.
    spec fn bytes(&self) -> Seq<u8>;

    /// The kind of instruction.
    fn instruction_type(&self) -> (r: Result<ServiceInstructionType, Error>)
        ensures
            r == service_instruction(self.bytes()),
    ;

    /// The number of the configuration variable.
    fn cv_address(&self) -> (r: Result<u16, Error>)
        ensures
            r == service_cv_address(self.bytes()),
    ;

    /// The data for the configuration variable.
    fn cv_data(&self) -> (r: Result<u8, Error>)
        ensures
            r == service_cv_data(self.bytes()),
    ;
}

impl ServicePacket for Packet {
    open spec fn bytes(&self) -> Seq<u8> {
        self@
    }

    fn instruction_type(&self) -> Result<ServiceInstructionType, Error> {
        let data = self.as_slice();
        if data.len() == 0 {
            return Err(Error::Undersize);
        }
        let first: u8 = data[0];
        assert((first >> 2) & 0b11 == first / 4 % 4) by (bit_vector);
        let code: u8 = (first >> 2) & 0b11;
        match code {
            0b01 => Ok(ServiceInstructionType::VerifyByte),
            0b10 => Ok(ServiceInstructionType::ManipulateBit),
            0b11 => Ok(ServiceInstructionType::WriteByte),
            _ => Err(Error::InvalidInstruction),
        }
    }

    fn cv_address(&self) -> Result<u16, Error> {
        let data = self.as_slice();
        if data.len() < 2 {
            return Err(Error::Undersize);
        }
        let first: u8 = data[0];
        assert(first & 0b0000_0011 == first % 4) by (bit_vector);
        let msb: u16 = (first & 0b0000_0011) as u16 * 256;
        Ok(msb + data[1] as u16 + 1)
    }

    fn cv_data(&self) -> Result<u8, Error> {
        let data = self.as_slice();
        if data.len() < 3 {
            return Err(Error::Undersize);
        }
        Ok(data[2])
    }
}

/// The bytes with which a packet for an address begins.
pub open spec fn address_field(address: u16) -> Seq<u8> {
    if address <= 127 {
        seq![address as u8]
    } else {
        seq![(192 + address / 256) as u8, (address % 256) as u8]
    }
}

/// A packet that is made for an address is read as one for that address, and what follows the
/// address is read as its instruction.
pub proof fn address_round_trip(address: u16, instruction: Seq<u8>)
    requires
        address <= 10239,
    ensures
        packet_address(address_field(address) + instruction) == Ok::<u16, Error>(address),
        operation_instruction(address_field(address) + instruction) == instruction_in(instruction),
{
    let bytes = address_field(address) + instruction;
    if address <= 127 {
        assert(bytes.skip(1) =~= instruction);
    } else {
        assert(bytes.skip(2) =~= instruction);
        let high = (address / 256) as u8;
        let msb = (192 + address / 256) as u8;
        assert(msb & 0b0011_1111 == high) by (bit_vector)
            requires
                msb == 192 + high,
                high <= 39,
        ;
    }
}

/// The second byte of the instruction for a setpoint.
pub open spec fn speed_byte(setpoint: VelocitySetpoint) -> u8 {
    let speed = match setpoint.speed_step {
        SpeedStep::Stop => 0,
        SpeedStep::EmergencyStop => 1,
        SpeedStep::Num(n) => n + 1,
    };
    match setpoint.direction {
        Direction::Forward => (128 + speed) as u8,
        Direction::Reverse => speed as u8,
    }
}

/// Every setpoint of the 126 speed steps, and both stops, can be sent, and is read as what was
/// sent.
pub proof fn speed_round_trip(setpoint: VelocitySetpoint)
    requires
        setpoint.speed_step matches SpeedStep::Num(n) ==> 1 <= n <= 126,
    ensures
        speed_vector(speed_byte(setpoint)) == setpoint,
        instruction_in(seq![0b0011_1111u8, speed_byte(setpoint)]) == Ok::<
            OperationModeInstruction,
            Error,
        >(
            OperationModeInstruction::AdvancedOperations(
                AdvancedOperationsInstruction::SpeedStepControl(setpoint),
            ),
        ),
{
}

/// Whatever is received, a speed step lies between 1 and 126.
pub proof fn speed_steps_in_range(byte: u8)
    ensures
        speed_vector(byte).speed_step matches SpeedStep::Num(n) ==> 1 <= n <= 126,
{
}

/// The bits of the first byte of a service mode packet that tell the kind of instruction.
pub open spec fn service_code(kind: ServiceInstructionType) -> int {
    match kind {
        ServiceInstructionType::VerifyByte => 0b01,
        ServiceInstructionType::ManipulateBit => 0b10,
        ServiceInstructionType::WriteByte => 0b11,
    }
}

/// The service mode packet with an instruction about a configuration variable.
pub open spec fn service_packet(kind: ServiceInstructionType, cv: u16, data: u8) -> Seq<u8> {
    seq![
        (0b0111_0000 + service_code(kind) * 4 + (cv - 1) / 256) as u8,
        ((cv - 1) % 256) as u8,
        data,
    ]
}

/// A service mode packet about any of the 1024 variables that can be addressed is read as what
/// was sent.
pub proof fn service_packet_round_trip(kind: ServiceInstructionType, cv: u16, data: u8)
    requires
        1 <= cv <= 1024,
    ensures
        112 <= service_packet(kind, cv, data)[0] <= 127,
        service_instruction(service_packet(kind, cv, data)) == Ok::<
            ServiceInstructionType,
            Error,
        >(kind),
        service_cv_address(service_packet(kind, cv, data)) == Ok::<u16, Error>(cv),
        service_cv_data(service_packet(kind, cv, data)) == Ok::<u8, Error>(data),
{
}

/// Both function group instructions only ever ask for functions of their group.
pub proof fn function_groups_are_wf(instruction: u8)
    ensures
        function_group_1(instruction).wf(),
        function_group_2(instruction).wf(),
{
    let (a, b) = ((instruction % 32) as u16, (instruction % 16) as u16);
    let (c, d) = ((b * 32) as u16, (b * 512) as u16);
    assert(a & !0x001fu16 == 0) by (bit_vector)
        requires
            a < 32,
    ;
    assert(c & !0x01e0u16 == 0 && d & !0x1e00u16 == 0) by (bit_vector)
        requires
            b < 16,
            c == b * 32,
            d == b * 512,
    ;
}

/// The address that the first bytes of a packet stand for: up to 127 it is the first byte alone; the
/// first bytes from 192 to 231 count from 0 as the upper byte of an address whose lower byte
/// follows; all others stand for no address.
pub proof fn addresses_by_first_byte(bytes: Seq<u8>)
    requires
        bytes.len() >= 1,
    ensures
        bytes[0] <= 127 ==> {
            &&& packet_address(bytes) == Ok::<u16, Error>(bytes[0] as u16)
            &&& address_bytes(bytes) == Ok::<usize, Error>(1)
        },
        192 <= bytes[0] <= 231 && bytes.len() >= 2 ==> {
            &&& packet_address(bytes) matches Ok(address) && address == (bytes[0] - 192) * 256
                + bytes[1]
            &&& address_bytes(bytes) == Ok::<usize, Error>(2)
        },
        128 <= bytes[0] <= 191 || bytes[0] >= 232 || (bytes[0] >= 192 && bytes.len() == 1) ==> {
            &&& packet_address(bytes) == Err::<u16, Error>(Error::InvalidAddress)
            &&& address_bytes(bytes) == Err::<usize, Error>(Error::InvalidAddress)
        },
{
    let first = bytes[0];
    if 192 <= first <= 231 {
        assert(first & 0b0011_1111 == first - 192) by (bit_vector)
            requires
                192 <= first <= 231,
        ;
    }
}

/// How a speed is sent: the byte is 0 for a stop, 1 for an emergency stop and one more than the
/// speed for every speed from 1 to 126; and 128 more than that if the direction is forward. What is
/// read from the byte is what was sent, behind any address.
pub proof fn speeds_by_byte(byte: u8, speed: u8)
    requires
        2 <= speed <= 127,
    ensures
        ({
            let read = |b: int| speed_vector(b as u8);
            &&& read(0).speed_step == SpeedStep::Stop && read(128).speed_step == SpeedStep::Stop
            &&& read(1).speed_step == SpeedStep::EmergencyStop
            &&& read(129).speed_step == SpeedStep::EmergencyStop
            &&& read(speed as int).speed_step == SpeedStep::Num((speed - 1) as u8)
            &&& read(128 + speed).speed_step == SpeedStep::Num((speed - 1) as u8)
        }),
        byte < 128 <==> speed_vector(byte).direction == Direction::Reverse,
        byte >= 128 <==> speed_vector(byte).direction == Direction::Forward,
{
}

/// An instruction is known by its first byte: 63 is followed by a speed, the bytes from 128 to 191
/// switch functions, and no other instruction is known.
pub proof fn instructions_by_first_byte(data: Seq<u8>)
    ensures
        data.len() == 0 ==> instruction_in(data) == Err::<OperationModeInstruction, Error>(
            Error::Undersize,
        ),
        data.len() == 1 && data[0] == 63 ==> instruction_in(data) == Err::<
            OperationModeInstruction,
            Error,
        >(Error::Undersize),
        data.len() >= 2 && data[0] == 63 ==> instruction_in(data) == Ok::<
            OperationModeInstruction,
            Error,
        >(
            OperationModeInstruction::AdvancedOperations(
                AdvancedOperationsInstruction::SpeedStepControl(speed_vector(data[1])),
            ),
        ),
        data.len() >= 1 && 128 <= data[0] <= 191 ==> instruction_in(data) is Ok
            && instruction_in(data)->Ok_0 is FunctionGroup,
        data.len() >= 1 && data[0] != 63 && !(128 <= data[0] <= 191) ==> instruction_in(data)
            == Err::<OperationModeInstruction, Error>(Error::InvalidInstruction),
{
}

/// Which functions an instruction switches, and how: an instruction from 128 to 159 switches the
/// functions at the bits 0 to 4 to its own lower five bits; one from 176 to 191 switches those at
/// the bits 5 to 8, and one from 160 to 175 those at the bits 9 to 12, to its own lower four bits.
/// All other functions stay as they are.
pub proof fn functions_by_instruction(instruction: u8, before: FunctionGroupFlags, i: u16)
    requires
        128 <= instruction <= 191,
        i < 16,
    ensures
        ({
            let first = if instruction < 160 {
                0int
            } else if instruction >= 176 {
                5int
            } else {
                9int
            };
            let count = if instruction < 160 {
                5int
            } else {
                4int
            };
            &&& instruction_in(seq![instruction]) matches Ok(
                OperationModeInstruction::FunctionGroup(group),
            ) && {
                let after = group.applied(before);
                if first <= i < first + count {
                    (after.bits >> i) & 1 == ((instruction as u16) >> ((i - first) as u16)) & 1
                } else {
                    (after.bits >> i) & 1 == (before.bits >> i) & 1
                }
            }
        }),
{
    let group = if instruction < 160 {
        function_group_1(instruction)
    } else {
        function_group_2(instruction)
    };
    assert(instruction_in(seq![instruction]) == Ok::<OperationModeInstruction, Error>(
        OperationModeInstruction::FunctionGroup(group),
    ));
    let (f, m, o, word) = (
        group.flags.bits,
        group.group_mask.bits,
        before.bits,
        instruction as u16,
    );
    let first: u16 = if instruction < 160 {
        0
    } else if instruction >= 176 {
        5
    } else {
        9
    };
    let count: u16 = if instruction < 160 {
        5
    } else {
        4
    };
    let at: u16 = if first <= i {
        (i - first) as u16
    } else {
        0
    };
    assert(if first <= i < first + count {
        (((o & !m) | f) >> i) & 1 == (word >> at) & 1
    } else {
        (((o & !m) | f) >> i) & 1 == (o >> i) & 1
    }) by (bit_vector)
        requires
            i < 16,
            first <= i ==> at == i - first,
            (first == 0 && count == 5 && m == 0x001f && f == word % 32) || (first == 5 && count == 4
                && m == 0x01e0 && f == (word % 16) * 32) || (first == 9 && count == 4 && m == 0x1e00
                && f == (word % 16) * 512),
    ;
}

/// What a service mode packet is about is told by its bytes: bits 2 and 3 of the first byte say what
/// is to be done (01 to verify, 11 to write, 10 for a bit), its lower two bits and the second byte
/// say with which variable, counted from 0, and the third byte is the data. A packet that is too
/// short for what is asked of it is rejected as that.
pub proof fn service_packets_by_byte(bytes: Seq<u8>)
    requires
        bytes.len() >= 1,
        112 <= bytes[0] <= 127,
    ensures
        bytes[0] < 116 ==> service_instruction(bytes) == Err::<ServiceInstructionType, Error>(
            Error::InvalidInstruction,
        ),
        116 <= bytes[0] < 120 ==> service_instruction(bytes) == Ok::<
            ServiceInstructionType,
            Error,
        >(ServiceInstructionType::VerifyByte),
        120 <= bytes[0] < 124 ==> service_instruction(bytes) == Ok::<
            ServiceInstructionType,
            Error,
        >(ServiceInstructionType::ManipulateBit),
        124 <= bytes[0] ==> service_instruction(bytes) == Ok::<ServiceInstructionType, Error>(
            ServiceInstructionType::WriteByte,
        ),
        bytes.len() == 1 ==> service_cv_address(bytes) == Err::<u16, Error>(Error::Undersize),
        bytes.len() >= 2 ==> service_cv_address(bytes) is Ok && service_cv_address(bytes)->Ok_0 - 1
            == (bytes[0] % 4) * 256 + bytes[1],
        bytes.len() < 3 ==> service_cv_data(bytes) == Err::<u8, Error>(Error::Undersize),
        bytes.len() >= 3 ==> service_cv_data(bytes) == Ok::<u8, Error>(bytes[2]),
{
}

/// The kind of an operation mode instruction, by the eight ranges of its first byte.
pub proof fn kinds_by_range(first: u8, kind: OperationInstructionType)
    requires
        kind.code() == first / 32,
    ensures
        first < 32 <==> kind is DecoderControl,
        32 <= first < 64 <==> kind is AdvancedOperations,
        64 <= first < 96 <==> kind is SpeedDirectionReverse,
        96 <= first < 128 <==> kind is SpeedDirectionForward,
        128 <= first < 160 <==> kind is FunctionGroup1,
        160 <= first < 192 <==> kind is FunctionGroup2,
        192 <= first < 224 <==> kind is FeatureExpansion,
        224 <= first <==> kind is CVAccess,
{
}

} // verus!
