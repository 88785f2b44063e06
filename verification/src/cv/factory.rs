//! What the factory values make of the decoder.
use vstd::prelude::*;
use crate::cv::store::{self, Error, PwmConfig, StoreModel};
use crate::motor::speed::{accel, gain, pid, table};
use crate::motor::Direction;

verus! {

/// After the factory values have been written, whatever the store held before, the decoder has the
/// address 3, no ramps, the factory speed table and controller parameters, and no calibration.
pub proof fn factory_values_configure_the_decoder(
    before: StoreModel,
    after: StoreModel,
    output_max: u16,
    max_setpoint: u16,
)
    requires
        store::attempted(before, after, store::factory_write(), Ok(())),
    ensures
        store::decoder_address(after) == Ok::<u16, Error>(3),
        accel::Config::stored(after) == Ok::<accel::Config, Error>(
            (accel::Config { accel_rate: 0, decel_rate: 0, loop_delay: 7 }),
        ),
        table::Config::stored(after) == Ok::<table::Config, Error>(
            (table::Config { v_start: 0, v_mid: 60, v_high: 100 }),
        ),
        gain::Config::stored(after, max_setpoint) == Ok::<gain::Config, Error>(
            (gain::Config {
                max_setpoint,
                kp_gain_range1_end: 13,
                kp_y0: 2000,
                kp_y1: 250,
                kp_y2: 150,
            }),
        ),
        pid::Config::stored(after, output_max, max_setpoint) matches Ok(config) && {
            &&& config.sample_time == 5
            &&& config.filter_tc == 10
            &&& config.ki == 25
            &&& config.kd == 50
        },
        store::pwm_frequency_of(after) == Ok::<u32, Error>(25_000),
        store::pwm_divider_of(after) == Ok::<u8, Error>(1),
        store::feed_forward_of(after) == Ok::<u8, Error>(0),
        store::stored_adc_offset(after) == Ok::<Option<u8>, Error>(None),
        store::pwm_mask_of(after) == Ok::<u32, Error>(0),
        forall|a: int|
            1 <= a <= 512 && !(a == 1 || 5 <= a <= 6 || 9 <= a <= 10 || 48 <= a <= 57 || a == 60 || a
                == 172 || a == 175) ==> #[trigger] after.byte(a) == Ok::<u8, Error>(0),
{
    reveal_with_fuel(StoreModel::range, 5);
    store::reset_store_has_factory_address(before, after);
    assert(after.byte(2) is Ok && after.byte(3) is Ok && after.byte(4) is Ok && after.byte(5) is Ok
        && after.byte(6) is Ok && after.byte(9) is Ok && after.byte(10) is Ok && after.byte(47)
        is Ok && after.byte(48) is Ok && after.byte(49) is Ok && after.byte(50) is Ok && after.byte(
        51,
    ) is Ok && after.byte(52) is Ok && after.byte(53) is Ok && after.byte(54) is Ok && after.byte(
        55,
    ) is Ok && after.byte(56) is Ok && after.byte(57) is Ok && after.byte(60) is Ok && after.byte(
        112,
    ) is Ok && after.byte(113) is Ok && after.byte(114) is Ok && after.byte(115) is Ok
        && after.byte(172) is Ok && after.byte(175) is Ok);
}

/// After the factory values have been written no function switches any output, and every PWM slice
/// is at level 0 with a divider of 1.
pub proof fn factory_values_switch_nothing(
    before: StoreModel,
    after: StoreModel,
    index: u8,
    direction: Direction,
    slice: u8,
)
    requires
        store::attempted(before, after, store::factory_write(), Ok(())),
        index < 32,
        slice < 8,
    ensures
        store::output_mask_of(after, index, direction) == Ok::<Option<u32>, Error>(Some(0)),
        store::pwm_configuration_of(after, slice) == Ok::<Option<PwmConfig>, Error>(
            Some((PwmConfig { wrap: 0, divider: 1, a_level: 0, b_level: 0 })),
        ),
{
    store::reset_store_has_factory_address(before, after);
    let start = store::function_map_address(index, direction);
    assert(257 <= start && start + 3 <= 512);
    assert(after.byte(start) is Ok && after.byte(start + 1) is Ok && after.byte(start + 2) is Ok
        && after.byte(start + 3) is Ok);
    let base = store::pwm_slice_address(slice);
    reveal_with_fuel(StoreModel::range, 5);
    assert(after.byte(base) is Ok && after.byte(base + 1) is Ok && after.byte(base + 2) is Ok
        && after.byte(base + 3) is Ok && after.byte(base + 4) is Ok && after.byte(base + 5) is Ok
        && after.byte(base + 6) is Ok);
}

} // verus!
