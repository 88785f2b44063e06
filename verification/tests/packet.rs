use dcc_decoder::motor::{Direction, SpeedStep, VelocitySetpoint};
use dcc_decoder::transport::packet::AdvancedOperationsInstruction::SpeedStepControl;
use dcc_decoder::transport::packet::{
    parse_fg1, parse_fg2, Error, OperationInstructionType, OperationModeInstruction, Packet,
    ServiceInstructionType, ServicePacket,
};
use dcc_decoder::{FunctionGroup, FunctionGroupFlags};

fn pkt(bytes: &[u8]) -> Packet {
    let data = heapless::Vec::from_slice(bytes).expect("packet too large");
    Packet { data }
}

#[test]
fn function_group_1_instruction() {
    // Group 1: 100 D D D D D (FL F4 F3 F2 F1)
    // Example: 100 1 0 0 1 1 -> FL=1, F4=0, F3=0, F2=1, F1=1
    // Byte = 0b10010011 = 0x93
    // Address 3
    let pkt_data = [3, 0x93, 0x90]; // Checksum 3 ^ 0x93 = 0x90
    let p = pkt(&pkt_data);

    let op_instr = OperationModeInstruction::try_from(&p).unwrap();

    if let OperationModeInstruction::FunctionGroup(fg) = op_instr {
        // Test that the correct flags are set
        assert!(
            fg.flags.contains(FunctionGroupFlags::f1()),
            "F1 should be set"
        );
        assert!(
            fg.flags.contains(FunctionGroupFlags::f2()),
            "F2 should be set"
        );
        assert!(
            !fg.flags.contains(FunctionGroupFlags::f3()),
            "F3 should not be set"
        );
        assert!(
            !fg.flags.contains(FunctionGroupFlags::f4()),
            "F4 should not be set"
        );
        assert!(
            fg.flags.contains(FunctionGroupFlags::fl()),
            "FL should be set"
        );

        // Test the group mask is correct
        assert_eq!(fg.group_mask, FunctionGroupFlags::fg_1());

        // Test the exact flag combination
        let expected_flags =
            FunctionGroupFlags::f1().union(FunctionGroupFlags::f2()).union(FunctionGroupFlags::fl());
        assert_eq!(fg.flags, expected_flags);
    } else {
        panic!("Expected FunctionGroup");
    }
}

#[test]
fn function_group_2_instruction_s1() {
    // Group 2: 101 S D D D D
    // S=1 -> F5-F8
    // 101 1 F8 F7 F6 F5
    // Example: 101 1 0 1 0 1 -> F8=0, F7=1, F6=0, F5=1
    // Byte = 0b10110101 = 0xB5
    // Address 3
    let pkt_data = [3, 0xB5, 0xB6]; // Checksum 3 ^ 0xB5 = 0xB6
    let p = pkt(&pkt_data);

    let op_instr = OperationModeInstruction::try_from(&p).unwrap();

    if let OperationModeInstruction::FunctionGroup(fg) = op_instr {
        // Test that the correct flags are set
        assert!(
            fg.flags.contains(FunctionGroupFlags::f5()),
            "F5 should be set"
        );
        assert!(
            !fg.flags.contains(FunctionGroupFlags::f6()),
            "F6 should not be set"
        );
        assert!(
            fg.flags.contains(FunctionGroupFlags::f7()),
            "F7 should be set"
        );
        assert!(
            !fg.flags.contains(FunctionGroupFlags::f8()),
            "F8 should not be set"
        );

        // Test the group mask is correct
        assert_eq!(fg.group_mask, FunctionGroupFlags::fg_2_1());

        // Test the exact flag combination
        let expected_flags = FunctionGroupFlags::f5().union(FunctionGroupFlags::f7());
        assert_eq!(fg.flags, expected_flags);
    } else {
        panic!("Expected FunctionGroup");
    }
}

#[test]
fn function_group_2_instruction_s0() {
    // Group 2: 101 S D D D D
    // S=0 -> F9-F12
    // 101 0 F12 F11 F10 F9
    // Example: 101 0 1 1 0 0 -> F12=1, F11=1, F10=0, F9=0
    // Byte = 0b10101100 = 0xAC
    // Address 3
    let pkt_data = [3, 0xAC, 0xAF]; // Checksum 3 ^ 0xAC = 0xAF
    let p = pkt(&pkt_data);

    let op_instr = OperationModeInstruction::try_from(&p).unwrap();

    if let OperationModeInstruction::FunctionGroup(fg) = op_instr {
        // Test that the correct flags are set
        assert!(
            !fg.flags.contains(FunctionGroupFlags::f9()),
            "F9 should not be set"
        );
        assert!(
            !fg.flags.contains(FunctionGroupFlags::f10()),
            "F10 should not be set"
        );
        assert!(
            fg.flags.contains(FunctionGroupFlags::f11()),
            "F11 should be set"
        );
        assert!(
            fg.flags.contains(FunctionGroupFlags::f12()),
            "F12 should be set"
        );

        // Test the group mask is correct
        assert_eq!(fg.group_mask, FunctionGroupFlags::fg_2_0());

        // Test the exact flag combination
        let expected_flags = FunctionGroupFlags::f11().union(FunctionGroupFlags::f12());
        assert_eq!(fg.flags, expected_flags);
    } else {
        panic!("Expected FunctionGroup");
    }
}

#[test]
fn service_mode_candidate_range() {
    // 0x70..=0x7F should be detected as service-mode candidates
    for b in 0x70u8..=0x7F {
        assert!(
            pkt(&[b]).service_mode_candidate(),
            "0x{b:02X} not detected as service mode candidate"
        );
    }

    // Some bytes outside the range should not be service-mode candidates
    for &b in &[0x00u8, 0x10, 0x6F, 0x80, 0xFF] {
        assert!(
            !pkt(&[b]).service_mode_candidate(),
            "0x{b:02X} incorrectly detected as service mode candidate"
        );
    }
}

#[test]
fn service_instruction_type_decode() {
    let verify = pkt(&[0b0100, 0x00, 0x00]);
    let manipulate = pkt(&[0b1000, 0x00, 0x00]);
    let write = pkt(&[0b1100, 0x00, 0x00]);

    assert_eq!(
        verify.instruction_type().unwrap(),
        ServiceInstructionType::VerifyByte
    );
    assert_eq!(
        manipulate.instruction_type().unwrap(),
        ServiceInstructionType::ManipulateBit
    );
    assert_eq!(
        write.instruction_type().unwrap(),
        ServiceInstructionType::WriteByte
    );
}

#[test]
fn service_mode_cv_address_and_data() {
    let p1 = pkt(&[0b0111_0100, 0x24, 0x99]);
    assert_eq!(p1.cv_address().unwrap(), 0x025);
    assert_eq!(p1.cv_data().unwrap(), 0x99);

    // Example 2: MSBs = 0b11, LSBs = 0xFF -> CV = 0x3FF (1023)
    let p2 = pkt(&[0b0111_0011, 0xFE, 0x55]);
    assert_eq!(p2.cv_address().unwrap(), 0x3FF);
    assert_eq!(p2.cv_data().unwrap(), 0x55);
}

#[test]
fn service_packet_undersize_errors() {
    // Empty packet
    let p = pkt(&[]);
    assert_eq!(p.instruction_type().unwrap_err(), Error::Undersize);

    // Only one byte -> instruction_type ok, but cv_address needs 2 bytes
    let p = pkt(&[0x70]);
    assert_eq!(p.cv_address().unwrap_err(), Error::Undersize);

    // Two bytes -> cv_data needs 3 bytes
    let p = pkt(&[0x70, 0x00]);
    assert_eq!(p.cv_data().unwrap_err(), Error::Undersize);
}

#[test]
fn reset_packet_detection() {
    assert!(pkt(&[0x00, 0x00]).is_reset());
    assert!(!pkt(&[0x00]).is_reset());
    assert!(!pkt(&[0x00, 0x01]).is_reset());
}

#[test]
fn operation_mode_instruction_128_speed_control() {
    let directions = [Direction::Forward, Direction::Reverse];

    for &direction in directions.iter() {
        let dir = match direction {
            Direction::Forward => 1,
            Direction::Reverse => 0,
        } << 7;

        assert_eq!(
            Ok(OperationModeInstruction::AdvancedOperations(
                SpeedStepControl(VelocitySetpoint::new(SpeedStep::Stop, direction))
            )),
            OperationModeInstruction::try_from(&pkt(&[3, 0b00111111, 0b00000000 + dir]))
        );

        assert_eq!(
            Ok(OperationModeInstruction::AdvancedOperations(
                SpeedStepControl(VelocitySetpoint::new(SpeedStep::EmergencyStop, direction))
            )),
            OperationModeInstruction::try_from(&pkt(&[3, 0b00111111, 0b00000001 + dir]))
        );

        assert_eq!(
            Ok(OperationModeInstruction::AdvancedOperations(
                SpeedStepControl(VelocitySetpoint::new(SpeedStep::Num(1), direction))
            )),
            OperationModeInstruction::try_from(&pkt(&[3, 0b00111111, 0b00000010 + dir]))
        );

        assert_eq!(
            Ok(OperationModeInstruction::AdvancedOperations(
                SpeedStepControl(VelocitySetpoint::new(SpeedStep::Num(126), direction))
            )),
            OperationModeInstruction::try_from(&pkt(&[3, 0b00111111, 0b01111111 + dir]))
        );
    }
}

#[test]
fn instruction_types_by_code() {
    assert_eq!(
        OperationInstructionType::from_code(0b001),
        Some(OperationInstructionType::AdvancedOperations)
    );
    assert_eq!(OperationInstructionType::from_code(0b111), Some(OperationInstructionType::CVAccess));
    assert_eq!(OperationInstructionType::from_code(8), None);
}

#[test]
fn all_function_group_instructions() {
    for instruction in 0b1000_0000..=0b1001_1111u8 {
        assert_eq!(parse_fg1(instruction).flags.bits(), (instruction & 0x1f) as u16);
    }
    for instruction in 0b1010_0000..=0b1010_1111u8 {
        assert_eq!(parse_fg2(instruction).flags.bits(), ((instruction & 0xf) as u16) << 9);
    }
    for instruction in 0b1011_0000..=0b1011_1111u8 {
        assert_eq!(parse_fg2(instruction).flags.bits(), ((instruction & 0xf) as u16) << 5);
    }
}

#[test]
fn group_requests_touch_their_group_only() {
    let before = FunctionGroupFlags::fg_2_1().union(FunctionGroupFlags::f2());
    let request = FunctionGroup::new(
        FunctionGroupFlags::fg_1(),
        FunctionGroupFlags::f1().union(FunctionGroupFlags::f12()),
    );
    // flags outside of the group are dropped
    assert_eq!(request.flags, FunctionGroupFlags::f1());
    let after = request.union_with_mask(before);
    assert_eq!(after, FunctionGroupFlags::fg_2_1().union(FunctionGroupFlags::f1()));
    assert_eq!(request.union_with_mask(after), after);

    let other = parse_fg2(0b1010_0011);
    assert_eq!(
        other.union_with_mask(request.union_with_mask(before)),
        request.union_with_mask(other.union_with_mask(before))
    );
}

#[test]
fn flag_sets() {
    let flags = FunctionGroupFlags::f3().union(FunctionGroupFlags::f4());
    assert_eq!(flags.bits(), 0b1100);
    assert_eq!(flags.difference(FunctionGroupFlags::f3()), FunctionGroupFlags::f4());
    assert_eq!(flags.intersection(FunctionGroupFlags::f10()), FunctionGroupFlags::empty());
    assert!(flags.contains(FunctionGroupFlags::empty()));
    assert!(!FunctionGroupFlags::f3().contains(flags));
    assert_eq!(FunctionGroupFlags::f6().bits(), 1 << 6);
    assert_eq!(FunctionGroupFlags::f7().bits(), 1 << 7);
    assert_eq!(FunctionGroupFlags::f8().bits(), 1 << 8);
    assert_eq!(FunctionGroupFlags::f9().bits(), 1 << 9);
    assert_eq!(FunctionGroupFlags::f11().bits(), 1 << 11);
}
