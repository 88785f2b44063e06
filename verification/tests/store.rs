use dcc_decoder::cv::store::{ensure_populated, reset, Error as StoreError, Store, StoreExt, StoreModel};
use dcc_decoder::cv::image::CvImage;
use dcc_decoder::cv::{default_value, default_values, Cv, CV_SIZE};
use dcc_decoder::motor::Direction;

struct MockStore {
    cvs: [u8; CV_SIZE],
    forced: usize,
}

impl MockStore {
    fn new() -> Self {
        MockStore { cvs: [0; CV_SIZE], forced: 0 }
    }

    fn with_cv(mut self, cv_id: u16, value: u8) -> Self {
        if (cv_id as usize) < CV_SIZE {
            self.cvs[cv_id as usize] = value;
        }
        self
    }

    fn with_extended_address(mut self, address: u16) -> Self {
        // Set extended address bit in CV29
        let cv29 = self.cvs[29] | 0b00100000;
        self.cvs[29] = cv29;

        // Set extended address bytes
        self.cvs[17] = ((address >> 8) & 0x3F) as u8 | 0xC0; // MSB with required bits
        self.cvs[18] = (address & 0xFF) as u8; // LSB
        self
    }
}

impl Store for MockStore {
    fn view(&self) -> StoreModel {
        unreachable!("the model is never computed")
    }

    fn read_byte(&self, cv_id: usize) -> Result<u8, StoreError> {
        if cv_id < CV_SIZE {
            Ok(self.cvs[cv_id])
        } else {
            Ok(0)
        }
    }

    fn read_bytes(&self, start: usize, len: usize) -> Result<&[u8], StoreError> {
        if start < CV_SIZE && start + len <= CV_SIZE {
            Ok(&self.cvs[start..start + len])
        } else {
            Ok(&[])
        }
    }

    fn write_byte(&mut self, cv_id: usize, value: u8) -> Result<(), StoreError> {
        if cv_id < CV_SIZE {
            self.cvs[cv_id] = value;
            Ok(())
        } else {
            Err(StoreError::Io)
        }
    }

    fn write_bytes(&mut self, start: usize, value: &[u8], force: bool) -> Result<(), StoreError> {
        let start_idx = start - 1;
        self.forced += force as usize;
        if start_idx < CV_SIZE && start_idx + value.len() <= CV_SIZE {
            self.cvs[start_idx..start_idx + value.len()].copy_from_slice(value);
            Ok(())
        } else {
            Err(StoreError::Io)
        }
    }
}

#[test]
fn test_addr_primary_address() {
    let store = MockStore::new()
        .with_cv(Cv::PrimaryAddress.number(), 42)
        .with_cv(Cv::DecoderConfiguration.number(), 0b00000000); // Extended address bit not set

    assert_eq!(store.addr().unwrap(), 42);
}

#[test]
fn test_addr_extended_address() {
    let store = MockStore::new()
        .with_cv(Cv::PrimaryAddress.number(), 42) // This should be ignored
        .with_extended_address(1234);

    assert_eq!(store.addr().unwrap(), 1234);
}

#[test]
fn test_addr_extended_address_min() {
    let store = MockStore::new().with_extended_address(128); // Minimum extended address

    assert_eq!(store.addr().unwrap(), 128);
}

#[test]
fn test_addr_extended_address_max() {
    let store = MockStore::new().with_extended_address(16383); // Maximum extended address (0x3FFF)

    assert_eq!(store.addr().unwrap(), 16383);
}

#[test]
fn test_addr_primary_address_boundaries() {
    // Test minimum primary address
    let store = MockStore::new()
        .with_cv(Cv::PrimaryAddress.number(), 1)
        .with_cv(Cv::DecoderConfiguration.number(), 0b00000000);

    assert_eq!(store.addr().unwrap(), 1);

    // Test maximum primary address
    let store = MockStore::new()
        .with_cv(Cv::PrimaryAddress.number(), 127)
        .with_cv(Cv::DecoderConfiguration.number(), 0b00000000);

    assert_eq!(store.addr().unwrap(), 127);
}

#[test]
fn test_addr_extended_bit_masking() {
    // Test that only the extended address bit (bit 5) matters in CV29
    let store = MockStore::new()
        .with_cv(Cv::PrimaryAddress.number(), 42)
        .with_cv(Cv::DecoderConfiguration.number(), 0b11011111); // All bits set except extended address bit

    assert_eq!(store.addr().unwrap(), 42); // Should use primary address

    let store = MockStore::new()
        .with_cv(Cv::PrimaryAddress.number(), 42)
        .with_cv(Cv::DecoderConfiguration.number(), 0b00100000) // Only extended address bit set
        .with_extended_address(1000);

    assert_eq!(store.addr().unwrap(), 1000); // Should use extended address
}

fn image(values: &[(usize, u8)]) -> CvImage {
    let mut cvs = vec![0; CV_SIZE];
    for &(address, value) in values {
        cvs[address - 1] = value;
    }
    CvImage::new(cvs).unwrap()
}

#[test]
fn numbers_and_variables_belong_together() {
    for number in 0..600 {
        if let Some(cv) = Cv::from_number(number) {
            assert_eq!(cv.number(), number);
        }
    }
    assert_eq!(Cv::from_number(29), Some(Cv::DecoderConfiguration));
    assert_eq!(Cv::from_number(30), None);
}

#[test]
fn image_needs_all_variables() {
    assert!(CvImage::new(vec![0; CV_SIZE - 1]).is_none());
    assert!(CvImage::new(vec![0; CV_SIZE + 1]).is_none());
    assert!(CvImage::new(vec![0; CV_SIZE]).is_some());
}

#[test]
fn image_counts_from_one() {
    let mut store = image(&[(1, 11), (2, 22), (CV_SIZE, 99)]);
    assert_eq!(store.read_byte(0), Err(StoreError::InvalidAddress));
    assert_eq!(store.read_byte(1), Ok(11));
    assert_eq!(store.read_byte(CV_SIZE), Ok(99));
    assert_eq!(store.read_byte(CV_SIZE + 1), Err(StoreError::InvalidAddress));
    assert_eq!(store.read_bytes(1, 2), Ok(&[11u8, 22][..]));
    assert_eq!(store.read_bytes(700, 0), Ok(&[][..]));
    assert_eq!(store.read_bytes(CV_SIZE, 2), Err(StoreError::InvalidAddress));
    assert_eq!(store.read_bytes(0, 2), Err(StoreError::InvalidAddress));
    assert_eq!(store.write_byte(2, 23), Ok(()));
    assert_eq!(store.write_byte(0, 1), Err(StoreError::InvalidAddress));
    assert_eq!(store.write_bytes(CV_SIZE - 1, &[1, 2], false), Ok(()));
    assert_eq!(store.write_bytes(CV_SIZE, &[1, 2], false), Err(StoreError::InvalidAddress));
    assert_eq!(store.as_slice()[..2], [11, 23]);
    assert_eq!(store.as_slice()[CV_SIZE - 2..], [1, 2]);
}

#[test]
fn factory_values_are_forced() {
    let mut store = MockStore::new();
    assert_eq!(ensure_populated(&mut store), Ok(()));
    assert_eq!(store.forced, 1);
    assert_eq!(reset(&mut store), Ok(()));
    assert_eq!(store.forced, 2);

    let mut store = MockStore::new().with_cv(1, 3);
    assert_eq!(ensure_populated(&mut store), Ok(()));
    assert_eq!(store.forced, 0);
}

#[test]
fn image_knows_what_it_holds() {
    let store = image(&[(10, 5), (11, 6)]);
    assert!(store.holds(10, &[5, 6]));
    assert!(!store.holds(10, &[5, 7]));
    assert!(!store.holds(0, &[0]));
    assert!(!store.holds(CV_SIZE, &[0, 0]));
}

#[test]
fn empty_store_is_populated_once() {
    let mut store = image(&[]);
    assert_eq!(store.addr(), Ok(0));
    assert_eq!(ensure_populated(&mut store), Ok(()));
    assert_eq!(store.addr(), Ok(3));
    assert_eq!(store.as_slice(), &default_values()[..]);

    store.write_byte(2, 77).unwrap();
    assert_eq!(ensure_populated(&mut store), Ok(()));
    assert_eq!(store.read_byte(2), Ok(77));

    assert_eq!(reset(&mut store), Ok(()));
    assert_eq!(store.read_byte(2), Ok(0));
}

#[test]
fn factory_values() {
    assert_eq!(default_values().len(), CV_SIZE);
    assert_eq!(default_value(1), 3);
    assert_eq!(default_value(5), 100);
    assert_eq!(default_value(9), 150);
    assert_eq!(default_value(172), 255);
    assert_eq!(default_value(175), 7);
    assert_eq!(default_values()[0], 3);
    assert_eq!(default_values()[174], 7);
}

#[test]
fn values_of_several_bytes() {
    let store = image(&[(100, 1), (101, 2), (102, 3), (103, 4)]);
    assert_eq!(store.read_cv::<u8>(100), Ok(1));
    assert_eq!(store.read_cv::<u16>(100), Ok(0x0102));
    assert_eq!(store.read_cv::<u32>(100), Ok(0x0102_0304));
    assert_eq!(store.read_cv::<u32>(CV_SIZE - 2), Err(StoreError::InvalidAddress));
    // a store that hands out too few bytes
    let store = MockStore::new();
    assert_eq!(store.read_cv::<u16>(CV_SIZE), Err(StoreError::Io));
    assert_eq!(store.read_cv::<u32>(CV_SIZE), Err(StoreError::Io));
}

#[test]
fn typed_variables() {
    let mut store = CvImage::new(default_values()).unwrap();
    assert_eq!(store.v_start(), Ok(0));
    assert_eq!(store.v_mid(), Ok(60));
    assert_eq!(store.v_high(), Ok(100));
    assert_eq!(store.acceleration_rate(), Ok(0));
    assert_eq!(store.deceleration_rate(), Ok(0));
    assert_eq!(store.pid_sample_time(), Ok(5));
    assert_eq!(store.pid_filter_tc(), Ok(10));
    assert_eq!(store.pid_ki(), Ok(25));
    assert_eq!(store.pid_kd(), Ok(50));
    assert_eq!(store.pid_k_ff(), Ok(0));
    assert_eq!(store.pid_kp_gain_range1_end(), Ok(13));
    assert_eq!(store.pid_kp_y0(), Ok(2000));
    assert_eq!(store.pid_kp_y1(), Ok(250));
    assert_eq!(store.pid_kp_y2(), Ok(150));
    assert_eq!(store.motor_pwm_frequency(), Ok(25_000));
    assert_eq!(store.motor_pwm_divider(), Ok(1));
    assert_eq!(store.speed_step_period(), Ok(7));
    assert_eq!(store.emf_measurement_delay(), Ok(0));
    assert_eq!(store.emf_samples(), Ok(0));
    assert_eq!(store.emf_l_side_cutoff(), Ok(0));
    assert_eq!(store.emf_r_side_cutoff(), Ok(0));

    assert_eq!(store.emf_adc_offset(), Ok(None));
    assert_eq!(store.write_emf_adc_offset(12), Ok(()));
    assert_eq!(store.emf_adc_offset(), Ok(Some(12)));
    assert_eq!(store.emf_adc_offset_clear(), Ok(()));
    assert_eq!(store.emf_adc_offset(), Ok(None));
}

#[test]
fn function_outputs() {
    let mut store = image(&[]);
    store.write_bytes(112, &[0, 0, 0, 0b11], true).unwrap();
    store.write_bytes(257, &[1, 2, 3, 4, 5, 6, 7, 8], true).unwrap();
    store.write_bytes(257 + 31 * 8 + 4, &[0, 0, 0, 9], true).unwrap();
    assert_eq!(store.pwm_enabled_mask(), Ok(0b11));
    assert_eq!(store.function_output_mask(0, Direction::Forward), Ok(Some(0x0102_0304)));
    assert_eq!(store.function_output_mask(0, Direction::Reverse), Ok(Some(0x0506_0708)));
    assert_eq!(store.function_output_mask(31, Direction::Reverse), Ok(Some(9)));
    assert_eq!(store.function_output_mask(32, Direction::Forward), Ok(None));
}

#[test]
fn pwm_slices() {
    let mut store = image(&[]);
    store.write_bytes(116 + 7, &[1, 0, 4, 0, 5, 0, 6], true).unwrap();
    store.write_bytes(116 + 2 * 7 + 2, &[255], true).unwrap();
    let config = store.pwm_configuration(1).unwrap().unwrap();
    assert_eq!(config.wrap, 256);
    assert_eq!(config.divider, 5);
    assert_eq!(config.a_level, 5);
    assert_eq!(config.b_level, 6);
    assert_eq!(store.pwm_configuration(2).unwrap().unwrap().divider, 255);
    assert_eq!(store.pwm_configuration(8), Ok(None));
}

#[test]
fn store_errors_in_words() {
    assert_eq!(StoreError::Io.message(), "IO error");
    assert_eq!(StoreError::InvalidAddress.message(), "Invalid Address");
}
