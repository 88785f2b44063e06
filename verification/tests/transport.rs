use dcc_decoder::transport::codec::{checksum, DccCodec};
use dcc_decoder::transport::frame::recover;
use dcc_decoder::transport::packet::{is_basic_address, is_mf_extended_address};
use dcc_decoder::transport::packet::{Error as PacketError, Packet};
use dcc_decoder::transport::Decoder;
use dcc_decoder::{is_broadcast, read_extended_address};

/// Helper function to create a Packet directly from raw bytes
fn create_packet(bytes: &[u8]) -> Packet {
    Packet {
        data: heapless::Vec::from_slice(bytes).unwrap(),
    }
}

#[test]
fn test_standard_addresses() {
    // Test standard 7-bit addresses (0-127)
    // Uses bits 0-6 of first byte

    // Address 0 (broadcast)
    let packet = create_packet(&[0x00, 0x60, 0x60]);
    assert_eq!(packet.addr(), Ok(0));

    // Address 1
    let packet = create_packet(&[0x01, 0x60, 0x61]);
    assert_eq!(packet.addr(), Ok(1));

    // Address 3 (common default)
    let packet = create_packet(&[0x03, 0x60, 0x63]);
    assert_eq!(packet.addr(), Ok(3));

    // Address 64 (middle range)
    let packet = create_packet(&[0x40, 0x60, 0x20]);
    assert_eq!(packet.addr(), Ok(64));

    // Address 127 (maximum standard - all 7 bits set)
    let packet = create_packet(&[0x7F, 0x60, 0x1F]);
    assert_eq!(packet.addr(), Ok(127));
}

#[test]
fn test_basic_accessory_decoder_addresses() {
    // Test Basic Accessory Decoder addresses (128-191)
    // These are not implemented yet, so should return InvalidAddress

    // Address 128
    let packet = create_packet(&[128, 0x80, 0x00]);
    assert_eq!(packet.addr(), Err(PacketError::InvalidAddress));

    // Address 150
    let packet = create_packet(&[150, 0x80, 0x96]);
    assert_eq!(packet.addr(), Err(PacketError::InvalidAddress));

    // Address 191 (maximum basic accessory)
    let packet = create_packet(&[191, 0x80, 0x31]);
    assert_eq!(packet.addr(), Err(PacketError::InvalidAddress));
}

#[test]
fn test_extended_accessory_decoder_addresses() {
    // Test Extended Accessory Decoder addresses (128-191)
    // These are not implemented yet, so should return InvalidAddress

    // Address 128 in longer packet
    let packet = create_packet(&[128, 0x01, 0x80, 0x49]);
    assert_eq!(packet.addr(), Err(PacketError::InvalidAddress));

    // Address 160 in longer packet
    let packet = create_packet(&[160, 0x02, 0x80, 0x22]);
    assert_eq!(packet.addr(), Err(PacketError::InvalidAddress));
}

#[test]
fn test_multifunction_decoder_extended_addresses() {
    // Test Multifunction Decoder Extended addresses (192-231)
    // These use 14-bit addressing: (first_byte & 0x3F) << 8 | second_byte

    let packet = create_packet(&[192, 0x00, 0x60, 0xF2]);
    assert_eq!(packet.addr(), Ok(0));

    let packet = create_packet(&[192, 0x01, 0x60, 0xF3]);
    assert_eq!(packet.addr(), Ok(1));

    let packet = create_packet(&[192, 0xFF, 0x60, 0x0D]);
    assert_eq!(packet.addr(), Ok(255));

    let packet = create_packet(&[193, 0x00, 0x60, 0xF1]);
    assert_eq!(packet.addr(), Ok(256));

    let packet = create_packet(&[195, 0x2C, 0x60, 0xDF]);
    assert_eq!(packet.addr(), Ok(812));

    let packet = create_packet(&[200, 0x00, 0x60, 0xE8]);
    assert_eq!(packet.addr(), Ok(2048));

    let packet = create_packet(&[231, 0xFF, 0x60, 0x76]);
    assert_eq!(packet.addr(), Ok(10239));
}

#[test]
fn test_address_boundary_conditions() {
    // Test boundary between standard and extended addressing

    // Address 191 (accessory decoder - not implemented)
    let packet = create_packet(&[191, 0x80, 0x31]);
    assert_eq!(packet.addr(), Err(PacketError::InvalidAddress));

    // Address 192 (first extended range)
    let packet = create_packet(&[192, 0x80, 0x60, 0x72]);
    assert_eq!(packet.addr(), Ok(128));

    // Address 224 (extended range)
    let packet = create_packet(&[224, 0x00, 0x60, 0xC4]);
    assert_eq!(packet.addr(), Ok(8192));
}

#[test]
fn test_extended_address_detection() {
    // Verify is_extended_address function works correctly
    assert!(!is_mf_extended_address(&[127])); // Standard address
    assert!(!is_mf_extended_address(&[191])); // Accessory decoder
    assert!(is_mf_extended_address(&[192, 0])); // Extended address
    assert!(is_mf_extended_address(&[200, 0])); // Extended address
    assert!(is_mf_extended_address(&[231, 0])); // Extended address
    assert!(!is_mf_extended_address(&[232])); // Future use
    assert!(!is_mf_extended_address(&[])); // Empty packet
    assert!(!is_mf_extended_address(&[192])); // Single byte (length < 2)
}

#[test]
fn decode_packets() {
    let packet = DccCodec::decode(&[3, 0x3f, 0x85, 3 ^ 0x3f ^ 0x85]);
    match packet {
        Ok(Some(packet)) => assert_eq!(packet.as_slice(), &[3, 0x3f, 0x85]),
        _ => panic!("packet expected"),
    }
    // the longest one
    let mut raw = vec![3, 1, 2, 3, 4];
    raw.push(checksum(&raw));
    match DccCodec::decode(&raw) {
        Ok(Some(packet)) => assert_eq!(packet.as_slice(), &[3, 1, 2, 3, 4]),
        _ => panic!("packet expected"),
    }
}

#[test]
fn decode_errors() {
    let error = |raw: &[u8]| match DccCodec::decode(raw) {
        Err(e) => e,
        Ok(_) => panic!("error expected"),
    };
    assert_eq!(error(&[0; 7]), PacketError::Oversize);
    assert_eq!(error(&[0; 2]), PacketError::Undersize);
    assert_eq!(error(&[]), PacketError::Undersize);
    assert_eq!(error(&[192, 1, 193]), PacketError::Undersize);
    assert_eq!(error(&[232, 1, 233]), PacketError::InvalidAddress);
    assert_eq!(error(&[254, 1, 255]), PacketError::InvalidAddress);
    assert_eq!(error(&[3, 1, 3]), PacketError::InvalidChecksum);
    assert!(matches!(DccCodec::decode(&[0xff, 0, 0xff]), Ok(None)));
}

#[test]
fn every_damaged_byte_is_detected() {
    let raw = [3u8, 0x3f, 0x85, 3 ^ 0x3f ^ 0x85];
    for i in 0..raw.len() {
        for value in 0..=255u8 {
            if value != raw[i] {
                let mut damaged = raw;
                damaged[i] = value;
                assert!(!matches!(DccCodec::decode(&damaged), Ok(Some(_))));
            }
        }
    }
}

#[test]
fn frames_are_recovered() {
    let bytes = [3u8, 0x3f, 0x85, 0xb9];
    let mut frame = [0u8; 8];
    for i in 0..4 {
        frame[i] = !bytes[i];
    }
    frame[7] = 3;
    let len = recover(&mut frame);
    assert_eq!(len, 4);
    assert_eq!(frame, [3, 0x3f, 0x85, 0xb9, 0, 0, 0, 3]);
    match Decoder::new(()).accept(&frame[..len]) {
        Some(packet) => assert_eq!(packet.as_slice(), &[3, 0x3f, 0x85]),
        None => panic!("packet expected"),
    }

    let mut garbled = [1u8, 2, 3, 4, 5, 6, 7, 8];
    assert_eq!(recover(&mut garbled), 0);
    assert_eq!(garbled, [1, 2, 3, 4, 5, 6, 7, 8]);
    assert!(Decoder::new(()).accept(&garbled[..0]).is_none());

    let mut full = [0xffu8, 0xfe, 0xfd, 0xfc, 0xfb, 0xfa, 0xf9, 0];
    assert_eq!(recover(&mut full), 7);
    assert_eq!(full, [0, 1, 2, 3, 4, 5, 6, 0]);
}

#[test]
fn decoder_holds_its_receiver() {
    let decoder = Decoder::new(7u8);
    assert_eq!(decoder.inner, 7);
    assert!(decoder.accept(&[0xff, 0, 0xff]).is_none());
}

#[test]
fn packets_hold_up_to_six_bytes() {
    assert_eq!(Packet::new(&[1, 2, 3, 4, 5, 6]).unwrap().as_slice(), &[1, 2, 3, 4, 5, 6]);
    assert!(Packet::new(&[0; 7]).is_none());
    let a = Packet::new(&[1, 2]).unwrap();
    let b = a.clone();
    assert!(a == b);
    assert_eq!(b.as_slice(), &[1, 2]);
    assert!(a != Packet::new(&[1, 3]).unwrap());
    assert!(a != Packet::new(&[1]).unwrap());
}

#[test]
fn addresses_in_packets() {
    assert!(is_basic_address(&[127]));
    assert!(!is_basic_address(&[128]));
    assert_eq!(read_extended_address(&[0xff, 0xff]), 16383);
    assert_eq!(read_extended_address(&[0xc1, 0x02]), 258);
    assert_eq!(create_packet(&[200]).addr(), Err(PacketError::InvalidAddress));
    assert_eq!(create_packet(&[3]).address_length(), Ok(1));
    assert_eq!(create_packet(&[192, 1]).address_length(), Ok(2));
    assert_eq!(create_packet(&[150, 1]).address_length(), Err(PacketError::InvalidAddress));
    assert_eq!(create_packet(&[192, 1, 7]).raw_instruction_data(), Ok(&[7u8][..]));
    assert!(is_broadcast(&create_packet(&[0x00, 0x60, 0x60])));
    assert!(is_broadcast(&create_packet(&[0xc0, 0x00, 0x60])));
    for first in 1..=255 {
        assert!(!is_broadcast(&create_packet(&[first, 0xff, 0xff])));
    }
}
