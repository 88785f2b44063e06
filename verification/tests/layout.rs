use dcc_decoder::cv::default_values;
use dcc_decoder::cv::image::{flash_range, CvImage};
use dcc_decoder::memory_layout::{
    cv_flash_region, parse_add_sub_expr, parse_number, parse_size_literal,
};
use dcc_decoder::motor::speed::gain::Config as GainConfig;
use dcc_decoder::motor::speed::pid::{Config, Scheduler};

#[test]
fn numbers_are_read() {
    assert_eq!(parse_number("42"), Some(42));
    assert_eq!(parse_number("  0x1F\t"), Some(31));
    assert_eq!(parse_number("0Xff"), Some(255));
    assert_eq!(parse_number("18446744073709551615"), Some(u64::MAX));
    assert_eq!(parse_number("18446744073709551616"), None);
    assert_eq!(parse_number(""), None);
    assert_eq!(parse_number("0x"), None);
    assert_eq!(parse_number("1F"), None);
    assert_eq!(parse_number("1 2"), None);
    assert_eq!(parse_number("+42"), Some(42));
    assert_eq!(parse_number("0x+1f"), Some(31));
    assert_eq!(parse_number("+"), None);
    assert_eq!(parse_number("0x+"), None);
    assert_eq!(parse_number("++1"), None);
    assert_eq!(parse_number("+ 1"), None);
    assert_eq!(parse_number("+0x1f"), None);
    assert_eq!(parse_number("-1"), None);
    assert_eq!(parse_number("\u{3000}42\u{a0}"), Some(42));
    assert_eq!(parse_number("\u{200b}42"), None);
    assert_eq!(parse_number("\u{661}"), None);
}

#[test]
fn sizes_are_read() {
    assert_eq!(parse_size_literal("2048K"), Some(2048 * 1024));
    assert_eq!(parse_size_literal(" 2 M "), Some(2 * 1024 * 1024));
    assert_eq!(parse_size_literal("0x10K"), Some(16 * 1024));
    assert_eq!(parse_size_literal("7"), Some(7));
    assert_eq!(parse_size_literal("+4\u{2003}K"), Some(4096));
    assert_eq!(parse_size_literal("K"), None);
    assert_eq!(parse_size_literal("18446744073709551615K"), None);
}

#[test]
fn expressions_are_read() {
    assert_eq!(
        parse_add_sub_expr("0x10000000 + 2048K - 128K"),
        Some(0x10000000 + 2048 * 1024 - 128 * 1024)
    );
    assert_eq!(parse_add_sub_expr("(0x10000000 + (2048K - 4K))"), Some(0x101ff000));
    assert_eq!(parse_add_sub_expr("5 - - 3"), Some(2));
    assert_eq!(parse_add_sub_expr("-3 + 5"), Some(2));
    assert_eq!(parse_add_sub_expr(""), Some(0));
    assert_eq!(parse_add_sub_expr("3 - 5"), None);
    assert_eq!(parse_add_sub_expr("3 + x"), None);
    assert_eq!(parse_add_sub_expr("x + 3"), None);
    assert_eq!(parse_add_sub_expr("18446744073709551615 + 2"), Some(1));
}

#[test]
fn white_space_is_what_unicode_says() {
    for code in 0..=0x10ffff {
        if let Some(c) = char::from_u32(code) {
            let expected = if c.is_whitespace() || c == '+' || c == '0' { Some(7) } else { None };
            let read = parse_number(&format!("{}7", c));
            match c.to_digit(10) {
                Some(d) => assert_eq!(read, Some(10 * d as u64 + 7)),
                None => assert_eq!(read, expected, "{:?}", c),
            }
        }
    }
}

const MEMORY_X: &str = "MEMORY {
    BOOT2 : ORIGIN = 0x10000000, LENGTH = 0x100
    FLASH : ORIGIN = 0x10000100, LENGTH = 2048K - 0x100 - 4K
    CV_FLASH : ORIGIN = 0x10000000 + 2048K - 4K, LENGTH = 4K
    RAM   : ORIGIN = 0x20000000, LENGTH = 264K
}
";

#[test]
fn region_is_found_in_memory_layout() {
    assert_eq!(cv_flash_region(MEMORY_X), Some((0x101ff000, 4096)));
    assert_eq!(cv_flash_region("CV_FLASH:ORIGIN=1,LENGTH=2"), Some((1, 2)));
    assert_eq!(cv_flash_region("CV_FLASH\n:\nORIGIN\n=\n1 ,\n LENGTH\n=\n 2 \r\n3"), Some((1, 2)));
    assert_eq!(cv_flash_region("CV_FLASH : ORIGIN = , LENGTH ="), Some((0, 0)));
}

#[test]
fn region_has_to_be_complete() {
    assert_eq!(cv_flash_region(""), None);
    assert_eq!(cv_flash_region("FLASH : ORIGIN = 1, LENGTH = 2"), None);
    assert_eq!(cv_flash_region("CV_FLASH : ORIGIN = 1"), None);
    assert_eq!(cv_flash_region("CV_FLASH (rx) : ORIGIN = 1, LENGTH = 2"), None);
    assert_eq!(cv_flash_region("CV_FLASH : LENGTH = 2, ORIGIN = 1"), None);
    // the origin stands on one line
    assert_eq!(cv_flash_region("CV_FLASH : ORIGIN = 1\n, LENGTH = 2"), None);
}

#[test]
fn region_has_to_be_readable() {
    assert_eq!(cv_flash_region("CV_FLASH : ORIGIN = x, LENGTH = 2"), None);
    assert_eq!(cv_flash_region("CV_FLASH : ORIGIN = 1, LENGTH = y"), None);
    // the length goes up to the end of the line, the origin up to the last length
    assert_eq!(cv_flash_region("CV_FLASH : ORIGIN = 1, LENGTH = 2 /* bytes */"), None);
    assert_eq!(cv_flash_region("CV_FLASH : ORIGIN = 1, LENGTH = 2, LENGTH = 3"), None);
    // the first description counts, also if it cannot be read
    assert_eq!(
        cv_flash_region("CV_FLASH : ORIGIN = x, LENGTH = 2\nCV_FLASH : ORIGIN = 1, LENGTH = 2"),
        None
    );
    // what is not complete is passed over
    assert_eq!(
        cv_flash_region("CV_FLASH : ORIGIN = 7\nCV_FLASH : ORIGIN = 1, LENGTH = 2"),
        Some((1, 2))
    );
}

#[test]
fn flash_is_erased_by_sector() {
    assert_eq!(flash_range(0x1ff000, 4096), (0x1ff000, 0x200000));
    assert_eq!(flash_range(0, 256), (0, 512));
}

#[test]
fn pid_inputs_are_limited() {
    let store = CvImage::new(default_values()).unwrap();
    let config = Config::read(&store, 5000, 1600).unwrap();
    assert_eq!(
        config,
        Config {
            sample_time: 5,
            filter_tc: 10,
            ki: 25,
            kd: 50,
            output_max: 5000,
            gain: GainConfig {
                max_setpoint: 1600,
                kp_gain_range1_end: 13,
                kp_y0: 2000,
                kp_y1: 250,
                kp_y2: 150,
            },
        }
    );
    let scheduler = Scheduler::new(config.gain);
    let inputs = scheduler.inputs(2000);
    assert_eq!(inputs.setpoint, 1600);
    assert_eq!(inputs.kp.num, 150 * inputs.kp.den);
    let inputs = scheduler.inputs(0);
    assert_eq!(inputs.setpoint, 0);
    assert_eq!(inputs.kp.num, 2000 * inputs.kp.den);
}
