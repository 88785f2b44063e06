use dcc_decoder::cv::Cv;
use dcc_decoder::handler::{Error, Handler, Op, SERVICE_MODE_TIMEOUT_MS};
use dcc_decoder::motor::{Direction, SpeedStep, VelocitySetpoint};
use dcc_decoder::transport::packet::{Error as PacketError, Packet};
use dcc_decoder::{Timer, TimerModel};
use dcc_decoder::cv::store::{Error as StoreError, Store, StoreModel};
use dcc_decoder::cv::CV_SIZE;

struct MockStore {
    cvs: [u8; CV_SIZE],
    forced: usize,
}

impl MockStore {
    fn new() -> Self {
        MockStore { cvs: [0; CV_SIZE], forced: 0 }
    }

    fn with_cv(mut self, cv_id: u16, value: u8) -> Self {
        if (cv_id as usize) < CV_SIZE {
            self.cvs[cv_id as usize] = value;
        }
        self
    }
}

impl Store for MockStore {
    fn view(&self) -> StoreModel {
        unreachable!("the model is never computed")
    }

    fn read_byte(&self, cv_id: usize) -> Result<u8, StoreError> {
        if cv_id < CV_SIZE {
            Ok(self.cvs[cv_id])
        } else {
            Ok(0)
        }
    }

    fn read_bytes(&self, start: usize, len: usize) -> Result<&[u8], StoreError> {
        if start < CV_SIZE && start + len <= CV_SIZE {
            Ok(&self.cvs[start..start + len])
        } else {
            Ok(&[])
        }
    }

    fn write_byte(&mut self, cv_id: usize, value: u8) -> Result<(), StoreError> {
        if cv_id < CV_SIZE {
            self.cvs[cv_id] = value;
            Ok(())
        } else {
            Err(StoreError::Io)
        }
    }

    fn write_bytes(&mut self, start: usize, value: &[u8], force: bool) -> Result<(), StoreError> {
        let start_idx = start - 1;
        self.forced += force as usize;
        if start_idx < CV_SIZE && start_idx + value.len() <= CV_SIZE {
            self.cvs[start_idx..start_idx + value.len()].copy_from_slice(value);
            Ok(())
        } else {
            Err(StoreError::Io)
        }
    }
}

struct MockTimer {
    running: bool,
    starts: usize,
    elapsed: Option<usize>,
}

impl MockTimer {
    fn new() -> Self {
        Self { running: false, starts: 0, elapsed: None }
    }

    fn set_elapsed(&mut self, elapsed: usize) {
        self.elapsed = Some(elapsed);
    }
}

impl Timer for MockTimer {
    fn view(&self) -> TimerModel {
        unreachable!("the model is never computed")
    }

    fn shows(&self, elapsed: Option<usize>) -> bool {
        self.elapsed_ms() == elapsed
    }

    fn stop(&mut self) {
        self.running = false;
        self.elapsed = None;
    }

    fn start(&mut self) {
        self.running = true;
        self.starts += 1;
    }

    fn elapsed_ms(&self) -> Option<usize> {
        if self.running {
            self.elapsed
        } else {
            None
        }
    }
}

fn pkt(bytes: &[u8]) -> Packet {
    let data = heapless::Vec::from_slice(bytes).expect("packet too large");
    Packet { data }
}

fn reset_packet() -> Packet {
    pkt(&[0x00, 0x00, 0x00])
}

fn service_verify_packet(cv_addr: u16, value: u8) -> Packet {
    let cv_addr = cv_addr - 1;
    let addr_high = ((cv_addr >> 8) & 0x03) as u8;
    let addr_low = (cv_addr & 0xFF) as u8;
    pkt(&[0x70 | (0b01 << 2) | addr_high, addr_low, value, 0x00])
}

fn service_write_packet(cv_addr: u16, value: u8) -> Packet {
    let cv_addr = cv_addr - 1;
    let addr_high = ((cv_addr >> 8) & 0x03) as u8;
    let addr_low = (cv_addr & 0xFF) as u8;
    pkt(&[0x70 | (0b11 << 2) | addr_high, addr_low, value, 0x00])
}

fn service_bit_verify_packet(cv_addr: u16, bit_pos: u8, bit_val: u8) -> Packet {
    let cv_addr = cv_addr - 1;
    let addr_high = ((cv_addr >> 8) & 0x03) as u8;
    let addr_low = (cv_addr & 0xFF) as u8;
    let data = 0b1110_0000 | (bit_val << 3) | bit_pos;
    pkt(&[0x70 | (0b10 << 2) | addr_high, addr_low, data, 0x00])
}

fn service_bit_write_packet(cv_addr: u16, bit_pos: u8, bit_val: u8) -> Packet {
    let cv_addr = cv_addr - 1;
    let addr_high = ((cv_addr >> 8) & 0x03) as u8;
    let addr_low = (cv_addr & 0xFF) as u8;
    let data = 0b1111_0000 | (bit_val << 3) | bit_pos;
    pkt(&[0x70 | (0b10 << 2) | addr_high, addr_low, data, 0x00])
}

fn operation_packet(addr: u16, instruction: &[u8]) -> Packet {
    let mut vec = Vec::new();
    if addr <= 127 {
        vec.push(addr as u8);
    } else {
        vec.push(0xC0 | ((addr >> 8) as u8)); // address high byte
        vec.push((addr & 0xFF) as u8); // address low byte
    }

    vec.extend_from_slice(instruction);

    pkt(&vec)
}

fn advanced_speed_step_packet(addr: u16, speed_step: SpeedStep) -> Packet {
    let instruction = match speed_step {
        SpeedStep::Stop => 0b00000000,
        SpeedStep::EmergencyStop => 0b00000001,
        SpeedStep::Num(n) => n + 1, // add one to account for emergency stop being 1
    };
    operation_packet(addr, &[0b00111111, instruction])
}

// Test harness to reduce boilerplate
struct TestHarness {
    handler: Handler<MockTimer, MockStore>,
}

impl TestHarness {
    fn new() -> Self {
        Self {
            handler: Handler::new(MockTimer::new(), MockStore::new()),
        }
    }

    fn with_address(addr: u8) -> Self {
        Self {
            handler: Handler::new(
                MockTimer::new(),
                MockStore::new().with_cv(Cv::PrimaryAddress.number(), addr),
            ),
        }
    }

    fn with_extended_address(addr: u16) -> Self {
        let cv_base = Cv::ExtendedAddressMsb.number();

        Self {
            handler: Handler::new(
                MockTimer::new(),
                MockStore::new()
                    .with_cv(
                        // address high byte
                        cv_base,
                        (addr >> 8) as u8,
                    )
                    .with_cv(
                        // address low byte
                        cv_base + 1,
                        addr as u8,
                    )
                    .with_cv(Cv::DecoderConfiguration.number(), 0b00100000), // put decoder into extended address mode
            ),
        }
    }

    fn with_store(store: MockStore) -> Self {
        Self {
            handler: Handler::new(MockTimer::new(), store),
        }
    }

    fn handle(&mut self, packet: &Packet) -> Result<Option<Op>, Error> {
        self.handler.handle(packet)
    }

    fn set_timer_elapsed(&mut self, elapsed: usize) {
        self.handler.enter_service_mode_timer.set_elapsed(elapsed);
    }

    fn start_timer(&mut self) {
        self.handler.enter_service_mode_timer.start();
    }

    fn enter_service_mode(&mut self) {
        self.start_timer();
        self.set_timer_elapsed(10);
    }

    fn read_cv(&self, addr: usize) -> u8 {
        self.handler
            .store
            .read_byte(addr)
            .expect("error reading cv")
    }

    /// Send the same packet twice and return the second result.
    /// The first packet must latch (return Ok(None)).
    fn send_two_packets(&mut self, packet: &Packet) -> Result<Option<Op>, Error> {
        assert_eq!(
            self.handle(packet),
            Ok(None),
            "first service write packet should latch, not execute"
        );
        self.handle(packet)
    }
}

#[test]
fn handler_test_reset_packet_starts_timer() {
    let mut harness = TestHarness::new();
    let result = harness.handle(&reset_packet());

    assert_eq!(result, Ok(Some(Op::Reset)));
    assert!(harness.handler.enter_service_mode_timer.running);
}

#[test]
fn handler_test_service_verify_byte_match() {
    let store = MockStore::new().with_cv(10, 0x42);
    let mut harness = TestHarness::with_store(store);
    harness.enter_service_mode();

    let packet = service_verify_packet(10, 0x42);
    let result = harness.send_two_packets(&packet);

    assert_eq!(result, Ok(Some(Op::AcknowledgeCv)));
}

#[test]
fn handler_test_service_verify_byte_mismatch() {
    let store = MockStore::new().with_cv(10, 0x42);
    let mut harness = TestHarness::with_store(store);
    harness.enter_service_mode();

    let packet = service_verify_packet(10, 0x99);
    let result = harness.handle(&packet);

    assert_eq!(result, Ok(None));
}

#[test]
fn handler_test_service_write_byte() {
    let mut harness = TestHarness::new();
    harness.enter_service_mode();

    let result = harness.send_two_packets(&service_write_packet(20, 0xAB));

    assert_eq!(result, Ok(Some(Op::AcknowledgeCv)));
    assert_eq!(harness.read_cv(20), 0xAB);
}

#[test]
fn handler_test_service_bit_verify_match() {
    let store = MockStore::new().with_cv(
        15,
        0b0000_1000, // bit 3 is set
    );
    let mut harness = TestHarness::with_store(store);
    harness.enter_service_mode();

    let packet = service_bit_verify_packet(15, 3, 1);
    let result = harness.send_two_packets(&packet);

    assert_eq!(result, Ok(Some(Op::AcknowledgeCv)));
}

#[test]
fn handler_test_service_bit_verify_mismatch() {
    let store = MockStore::new().with_cv(
        15,
        0b0000_1000, // bit 3 is set
    );
    let mut harness = TestHarness::with_store(store);
    harness.enter_service_mode();

    let packet = service_bit_verify_packet(15, 3, 0);
    let result = harness.handle(&packet);

    assert_eq!(result, Ok(None));
}

#[test]
fn handler_test_service_bit_write_set() {
    let store = MockStore::new().with_cv(25, 0b0000_0000);
    let mut harness = TestHarness::with_store(store);
    harness.enter_service_mode();

    let result = harness.send_two_packets(&service_bit_write_packet(25, 5, 1));

    assert_eq!(result, Ok(Some(Op::AcknowledgeCv)));
    assert_eq!(harness.read_cv(25), 0b0010_0000);
}

#[test]
fn handler_test_service_bit_write_clear() {
    let store = MockStore::new().with_cv(25, 0xFF);
    let mut harness = TestHarness::with_store(store);
    harness.enter_service_mode();

    let result = harness.send_two_packets(&service_bit_write_packet(25, 2, 0));

    assert_eq!(result, Ok(Some(Op::AcknowledgeCv)));
    assert_eq!(harness.read_cv(25), 0b1111_1011);
}

#[test]
fn handler_test_service_mode_timeout() {
    let mut harness = TestHarness::new();

    harness.start_timer();
    harness.set_timer_elapsed(SERVICE_MODE_TIMEOUT_MS + 1); // past timeout

    let packet = service_verify_packet(10, 0x42);
    let result = harness.handle(&packet);

    // Should not be handled as service mode packet
    assert_eq!(result, Ok(None));
}

#[test]
fn handler_test_operation_mode_basic_address() {
    let mut harness = TestHarness::with_address(3);

    let packet = advanced_speed_step_packet(3, SpeedStep::Num(50));
    let result = harness.handle(&packet);

    assert_eq!(
        result,
        Ok(Some(Op::Velocity128(VelocitySetpoint {
            speed_step: SpeedStep::Num(50),
            direction: Direction::Reverse,
        })))
    );
}

#[test]
fn handler_test_operation_mode_extended_address() {
    let mut harness = TestHarness::with_extended_address(5000);

    let packet = advanced_speed_step_packet(5000, SpeedStep::Num(100));
    let result = harness.handle(&packet);

    assert_eq!(
        result,
        Ok(Some(Op::Velocity128(VelocitySetpoint {
            speed_step: SpeedStep::Num(100),
            direction: Direction::Reverse,
        })))
    );
}

#[test]
fn handler_test_operation_mode_stop() {
    let mut harness = TestHarness::with_address(10);

    let packet = advanced_speed_step_packet(10, SpeedStep::Stop);
    let result = harness.handle(&packet);

    assert_eq!(
        result,
        Ok(Some(Op::Velocity128(VelocitySetpoint {
            speed_step: SpeedStep::Stop,
            direction: Direction::Reverse,
        })))
    );
}

#[test]
fn handler_test_operation_mode_emergency_stop() {
    let mut harness = TestHarness::with_address(10);

    let packet = advanced_speed_step_packet(10, SpeedStep::EmergencyStop);
    let result = harness.handle(&packet);

    assert_eq!(
        result,
        Ok(Some(Op::Velocity128(VelocitySetpoint {
            speed_step: SpeedStep::EmergencyStop,
            direction: Direction::Reverse,
        })))
    );
}

#[test]
fn handler_test_packet_not_for_us() {
    let mut harness = TestHarness::with_address(3);

    // Send packet addressed to different decoder
    let packet = advanced_speed_step_packet(99, SpeedStep::Num(50));
    let result = harness.handle(&packet);

    assert_eq!(result, Ok(None));
}

#[test]
fn handler_test_service_mode_sequence() {
    let mut harness = TestHarness::with_address(3);

    // Start with reset
    assert_eq!(harness.handle(&reset_packet()), Ok(Some(Op::Reset)));
    harness.set_timer_elapsed(5);

    let result = harness.send_two_packets(&service_write_packet(100, 0x55));
    assert_eq!(result, Ok(Some(Op::AcknowledgeCv)));
    assert_eq!(harness.read_cv(100), 0x55);

    let result = harness.send_two_packets(&service_verify_packet(100, 0x55));
    assert_eq!(result, Ok(Some(Op::AcknowledgeCv)));
}

#[test]
fn handler_test_bit_manipulation_all_positions() {
    let mut harness = TestHarness::new();
    harness.enter_service_mode();

    for bit_pos in 0..8 {
        let result = harness.send_two_packets(&service_bit_write_packet(50, bit_pos, 1));
        assert_eq!(result, Ok(Some(Op::AcknowledgeCv)));
    }
    assert_eq!(harness.read_cv(50), 0xFF);

    for bit_pos in 0..8 {
        let result = harness.send_two_packets(&service_bit_write_packet(50, bit_pos, 0));
        assert_eq!(result, Ok(Some(Op::AcknowledgeCv)));
    }
    assert_eq!(harness.read_cv(50), 0x00);
}

#[test]
fn test_service_write_address_only() {
    let store = MockStore::new()
        .with_cv(Cv::DecoderConfiguration.number(), 0b00100000) // CV29 bit 5 set (extended addressing)
        .with_cv(19, 0x42); // CV19 consist address non-zero
    let mut harness = TestHarness::with_store(store);
    harness.enter_service_mode();

    let result = harness.send_two_packets(&service_write_packet(1, 5));

    assert_eq!(result, Ok(Some(Op::AcknowledgeCv)));
    assert_eq!(harness.read_cv(1), 5);
    assert_eq!(harness.read_cv(29) & 0b00100000, 0); // CV29 bit 5 cleared
    assert_eq!(harness.read_cv(19), 0); // CV19 cleared
}

#[test]
fn test_service_write_address_only_invalid_range() {
    let mut harness = TestHarness::new();
    harness.enter_service_mode();

    // First packet latches; second executes and rejects the out-of-range value
    let invalid_err = Err(Error::Packet(PacketError::InvalidInstruction));
    assert_eq!(harness.handle(&service_write_packet(1, 0)), Ok(None));
    assert_eq!(harness.handle(&service_write_packet(1, 0)), invalid_err);

    assert_eq!(harness.handle(&service_write_packet(1, 128)), Ok(None));
    assert_eq!(harness.handle(&service_write_packet(1, 128)), invalid_err);
}

#[test]
fn test_service_write_cv17_valid() {
    let store = MockStore::new().with_cv(18, 0x01); // CV18 non-zero -> address != 0
    let mut harness = TestHarness::with_store(store);
    harness.enter_service_mode();

    // CV17 = 200 is within the required 192..=231 range
    let result = harness.send_two_packets(&service_write_packet(17, 200));

    assert_eq!(result, Ok(Some(Op::AcknowledgeCv)));
    assert_eq!(harness.read_cv(17), 200);
}

#[test]
fn test_service_write_cv17_out_of_range() {
    let mut harness = TestHarness::new();
    harness.enter_service_mode();

    let invalid_err = Err(Error::Packet(PacketError::InvalidInstruction));

    // Below the valid 192..=231 range
    assert_eq!(
        harness.send_two_packets(&service_write_packet(17, 100)),
        invalid_err
    );
    assert_eq!(harness.read_cv(17), 0);

    // Above the valid range
    assert_eq!(
        harness.send_two_packets(&service_write_packet(17, 240)),
        invalid_err
    );
    assert_eq!(harness.read_cv(17), 0);
}

#[test]
fn test_service_write_cv17_rejects_address_zero() {
    // CV18 defaults to 0; writing CV17 = 192 would form extended address 0.
    let mut harness = TestHarness::new();
    harness.enter_service_mode();

    let result = harness.send_two_packets(&service_write_packet(17, 192));

    assert_eq!(result, Err(Error::Packet(PacketError::InvalidInstruction)));
    assert_eq!(harness.read_cv(17), 0);
}

#[test]
fn test_service_write_cv18_rejects_address_zero() {
    // CV17 == 192 and writing CV18 = 0 would form extended address 0.
    let store = MockStore::new().with_cv(17, 192);
    let mut harness = TestHarness::with_store(store);
    harness.enter_service_mode();

    let result = harness.send_two_packets(&service_write_packet(18, 0));

    assert_eq!(result, Err(Error::Packet(PacketError::InvalidInstruction)));
    assert_eq!(harness.read_cv(18), 0);
}

#[test]
fn test_service_write_cv18_valid() {
    let store = MockStore::new().with_cv(17, 200);
    let mut harness = TestHarness::with_store(store);
    harness.enter_service_mode();

    let result = harness.send_two_packets(&service_write_packet(18, 5));

    assert_eq!(result, Ok(Some(Op::AcknowledgeCv)));
    assert_eq!(harness.read_cv(18), 5);
}

#[test]
fn test_service_write_cv31_cv32_ignored() {
    let mut harness = TestHarness::new();
    harness.enter_service_mode();

    // CV31/CV32 select the CV index page; this decoder does not implement indexed CVs,
    // so the write is silently ignored (no store change, no ack).
    assert_eq!(
        harness.send_two_packets(&service_write_packet(31, 0xAB)),
        Ok(None)
    );
    assert_eq!(harness.read_cv(31), 0);

    assert_eq!(
        harness.send_two_packets(&service_write_packet(32, 0xCD)),
        Ok(None)
    );
    assert_eq!(harness.read_cv(32), 0);
}

#[test]
fn test_service_write_latch_first_packet_returns_none() {
    let mut harness = TestHarness::new();
    harness.enter_service_mode();

    let result = harness.handle(&service_write_packet(20, 0xAB));

    assert_eq!(result, Ok(None));
    assert_eq!(harness.read_cv(20), 0x00); // not written
}

#[test]
fn test_service_write_latch_different_second_packet_does_not_execute() {
    let mut harness = TestHarness::new();
    harness.enter_service_mode();

    // Latch CV 20 = 0xAB
    assert_eq!(harness.handle(&service_write_packet(20, 0xAB)), Ok(None));
    // Different data — does not match, re-latches, does not write
    assert_eq!(harness.handle(&service_write_packet(20, 0xFF)), Ok(None));
    assert_eq!(harness.read_cv(20), 0x00);
}

#[test]
fn test_service_factory_defaults() {
    let mut harness = TestHarness::new();
    harness.enter_service_mode();

    let packet = pkt(&[0b01111111, 0b00001000]);
    let result = harness.send_two_packets(&packet);

    assert_eq!(result, Ok(Some(Op::Reboot)));
}

#[test]
fn factory_reset_is_forced() {
    for packet in [pkt(&[0b01111111, 0b00001000]), service_write_packet(8, 8)] {
        let mut harness = TestHarness::new();
        harness.enter_service_mode();
        assert_eq!(harness.send_two_packets(&packet), Ok(Some(Op::Reboot)));
        assert_eq!(harness.handler.store.forced, 1);
    }
}

#[test]
fn service_mode_packets_restart_the_timer() {
    let mut harness = TestHarness::new();
    assert_eq!(harness.handle(&reset_packet()), Ok(Some(Op::Reset)));
    assert_eq!(harness.handler.enter_service_mode_timer.starts, 1);
    harness.set_timer_elapsed(10);
    // also while it runs
    assert_eq!(harness.handle(&reset_packet()), Ok(Some(Op::Reset)));
    assert_eq!(harness.handler.enter_service_mode_timer.starts, 2);
    assert_eq!(harness.handle(&service_write_packet(20, 1)), Ok(None));
    assert_eq!(harness.handler.enter_service_mode_timer.starts, 3);
    assert_eq!(harness.handle(&service_write_packet(20, 1)), Ok(Some(Op::AcknowledgeCv)));
    assert_eq!(harness.handler.enter_service_mode_timer.starts, 4);
}

#[test]
fn commands_for_all_decoders_are_carried_out() {
    let setpoint = VelocitySetpoint { speed_step: SpeedStep::Num(1), direction: Direction::Forward };
    for mut harness in [TestHarness::with_address(3), TestHarness::with_extended_address(5000)] {
        harness.enter_service_mode();
        assert_eq!(
            harness.handle(&pkt(&[0x00, 0b0011_1111, 0b1000_0010, 0xbd])),
            Ok(Some(Op::Velocity128(setpoint)))
        );
        // they do not end service mode
        assert!(harness.handler.enter_service_mode_timer.running);
        assert_eq!(harness.handler.enter_service_mode_timer.starts, 1);
        assert!(matches!(harness.handle(&pkt(&[0x00, 0x60, 0x60])), Err(Error::Packet(_))));
    }
}

#[test]
fn commands_in_the_service_mode_range_are_carried_out_after_the_timeout() {
    let mut harness = TestHarness::with_address(115);
    harness.enter_service_mode();
    let command = advanced_speed_step_packet(115, SpeedStep::Num(1));
    assert_eq!(harness.handler.handle_at(&command, Some(19)), Ok(None));
    assert!(matches!(
        harness.handler.handle_at(&command, Some(20)),
        Ok(Some(Op::Velocity128(_)))
    ));
    let other = advanced_speed_step_packet(116, SpeedStep::Num(1));
    assert_eq!(harness.handler.handle_at(&other, Some(20)), Ok(None));
}

#[test]
fn every_second_packet_is_carried_out() {
    let mut harness = TestHarness::new();
    harness.enter_service_mode();
    let write = service_write_packet(20, 0xAB);
    // there is no variable to write
    let failing = service_write_packet(1000, 1);
    for _ in 0..3 {
        assert_eq!(harness.handle(&write), Ok(None));
        assert_eq!(harness.handle(&write), Ok(Some(Op::AcknowledgeCv)));
    }
    for _ in 0..3 {
        assert_eq!(harness.handle(&failing), Ok(None));
        assert_eq!(harness.handle(&failing), Err(Error::Store(StoreError::Io)));
    }
}

#[test]
fn command_ends_service_mode() {
    let mut harness = TestHarness::with_address(3);
    harness.enter_service_mode();
    assert_eq!(harness.handle(&service_write_packet(20, 0xAB)), Ok(None));

    // a command for this decoder stops the timer, so that the repeated packet is no longer
    // taken for a service mode packet
    let command = advanced_speed_step_packet(3, SpeedStep::Num(1));
    assert!(matches!(harness.handle(&command), Ok(Some(Op::Velocity128(_)))));
    assert!(!harness.handler.enter_service_mode_timer.running);
    assert_eq!(harness.handle(&service_write_packet(20, 0xAB)), Ok(None));
    assert_eq!(harness.read_cv(20), 0);
}

#[test]
fn elapsed_time_decides_about_service_mode() {
    let mut harness = TestHarness::new();
    let packet = service_write_packet(20, 0xAB);

    assert_eq!(harness.handler.handle_at(&packet, Some(19)), Ok(None));
    assert!(harness.handler.pending_service_packet.is_some());
    assert!(harness.handler.enter_service_mode_timer.running);
    assert_eq!(harness.handler.handle_at(&packet, Some(20)), Ok(None));
    assert_eq!(harness.read_cv(20), 0);
    assert_eq!(harness.handler.handle_at(&packet, Some(19)), Ok(Some(Op::AcknowledgeCv)));
    assert_eq!(harness.read_cv(20), 0xAB);
    assert!(harness.handler.pending_service_packet.is_none());
}

#[test]
fn latch_is_cleared_once_it_was_used() {
    let mut harness = TestHarness::new();
    harness.enter_service_mode();
    let packet = service_write_packet(20, 0xAB);

    assert_eq!(harness.send_two_packets(&packet), Ok(Some(Op::AcknowledgeCv)));
    // the third packet latches again, the fourth executes
    assert_eq!(harness.send_two_packets(&packet), Ok(Some(Op::AcknowledgeCv)));
}

#[test]
fn function_group_command() {
    let mut harness = TestHarness::with_address(3);
    match harness.handle(&operation_packet(3, &[0b1001_0001])) {
        Ok(Some(Op::SetFunctions(fg))) => {
            assert_eq!(fg.flags.bits(), 0x11);
            assert_eq!(fg.group_mask.bits(), 0x1f);
        }
        other => panic!("unexpected: {:?}", other),
    }
}

#[test]
fn invalid_commands_are_rejected() {
    let mut harness = TestHarness::with_address(3);
    let invalid = Err(Error::Packet(PacketError::InvalidInstruction));
    assert_eq!(harness.handle(&operation_packet(3, &[0b0000_0001])), invalid);
    assert_eq!(harness.handle(&operation_packet(3, &[0b0010_0001])), invalid);
    assert_eq!(harness.handle(&operation_packet(3, &[0b0100_0001])), invalid);
    assert_eq!(harness.handle(&operation_packet(3, &[0b0110_0001])), invalid);
    assert_eq!(harness.handle(&operation_packet(3, &[0b1100_0001])), invalid);
    assert_eq!(harness.handle(&operation_packet(3, &[0b1110_0001])), invalid);
    assert_eq!(
        harness.handle(&operation_packet(3, &[0b0011_1111])),
        Err(Error::Packet(PacketError::Undersize))
    );
    assert_eq!(
        harness.handle(&pkt(&[3])),
        Err(Error::Packet(PacketError::Undersize))
    );
}

#[test]
fn bit_manipulation_needs_its_prefix() {
    let mut harness = TestHarness::new();
    harness.enter_service_mode();
    assert_eq!(
        harness.send_two_packets(&pkt(&[0x78, 14, 0b1101_1000])),
        Err(Error::Packet(PacketError::InvalidInstruction))
    );
    assert_eq!(
        harness.send_two_packets(&pkt(&[0x78, 14])),
        Err(Error::Packet(PacketError::Undersize))
    );
    assert_eq!(
        harness.send_two_packets(&pkt(&[0x70, 14, 0])),
        Err(Error::Packet(PacketError::InvalidInstruction))
    );
}

#[test]
fn manufacturer_variables_are_not_written() {
    let store = MockStore::new().with_cv(Cv::EmfAdcOffset.number(), 17);
    let mut harness = TestHarness::with_store(store);
    harness.enter_service_mode();

    // CV8: only 8 does something
    assert_eq!(harness.send_two_packets(&service_write_packet(8, 9)), Ok(None));
    assert_eq!(harness.read_cv(8), 0);
    // CV7: reboots in any case, 7 forgets the calibration
    assert_eq!(harness.send_two_packets(&service_write_packet(7, 1)), Ok(Some(Op::Reboot)));
    assert_eq!(harness.read_cv(Cv::EmfAdcOffset.number() as usize), 17);
    assert_eq!(harness.send_two_packets(&service_write_packet(7, 7)), Ok(Some(Op::Reboot)));
    assert_eq!(harness.read_cv(Cv::EmfAdcOffset.number() as usize), 255);
    assert_eq!(harness.read_cv(7), 0);
    // CV8 = 8: factory values
    assert_eq!(harness.send_two_packets(&service_write_packet(8, 8)), Ok(Some(Op::Reboot)));
}

#[test]
fn store_errors_are_passed_on() {
    let mut harness = TestHarness::new();
    harness.enter_service_mode();
    // beyond the variables of the store
    assert_eq!(
        harness.send_two_packets(&service_write_packet(600, 1)),
        Err(Error::Store(StoreError::Io))
    );
}

#[test]
fn bit_write_verifies_and_keeps_other_bits() {
    let store = MockStore::new().with_cv(15, 0b1010_0101);
    let mut harness = TestHarness::with_store(store);
    harness.enter_service_mode();
    assert_eq!(
        harness.send_two_packets(&service_bit_write_packet(15, 1, 1)),
        Ok(Some(Op::AcknowledgeCv))
    );
    assert_eq!(harness.read_cv(15), 0b1010_0111);
    assert_eq!(
        harness.send_two_packets(&service_bit_verify_packet(15, 1, 1)),
        Ok(Some(Op::AcknowledgeCv))
    );
    assert_eq!(harness.send_two_packets(&service_bit_verify_packet(15, 1, 0)), Ok(None));
}

#[test]
fn errors_convert() {
    assert_eq!(Error::from(PacketError::Oversize), Error::Packet(PacketError::Oversize));
    assert_eq!(Error::from(StoreError::InvalidAddress), Error::Store(StoreError::InvalidAddress));
}
