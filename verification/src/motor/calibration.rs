//! The offset of the back-EMF measurement, and the scale of the motor output.
use vstd::prelude::*;
use crate::cv::store::{self, Error as StoreError, StoreModel, Write};
use crate::cv::Cv;
use crate::math;

verus! {

/// Number of samples that are taken in each direction to find the offset.
pub const ADC_CALIBRATION_ITERATIONS: usize = 8192;

/// The level of samples that were taken while the motor stands still: their mean without those
/// that are more than two standard deviations away from it, or 0 if there is none.
pub open spec fn idle_level(samples: Seq<u16>) -> int {
    match math::mean_of_near(samples, 2) {
        Some(level) => level as int,
        None => 0,
    }
}

/// Calculates the level of samples that were taken while the motor stands still.
pub fn calc_idle_level(samples: &[u16]) -> (r: u16)
    ensures
        r == idle_level(samples@),
{
    match math::filtered_mean(samples, 2) {
        Some(level) => level,
        None => 0,
    }
}

/// The mean of two levels, rounded down.
pub open spec fn mean_of_both(offset_avg_fwd: u16, offset_avg_rev: u16) -> int {
    (offset_avg_fwd + offset_avg_rev) / 2
}

/// The offset from the levels in both directions: their mean, rounded down.
pub fn combined_offset(offset_avg_fwd: u16, offset_avg_rev: u16) -> (r: u16)
    ensures
        r == mean_of_both(offset_avg_fwd, offset_avg_rev),
{
    ((offset_avg_fwd as u32 + offset_avg_rev as u32) / 2) as u16
}

/// The offset as it is kept in the store, where 255 stands for no offset: the greatest that can
/// be kept if it is too large.
pub open spec fn kept_offset(measured_offset: u16) -> u8 {
    if measured_offset < u8::MAX {
        measured_offset as u8
    } else {
        (u8::MAX - 1) as u8
    }
}

/// The offset as it is kept in the store.
pub fn stored_offset(measured_offset: u16) -> (r: u8)
    ensures
        r == kept_offset(measured_offset),
{
    if measured_offset < u8::MAX as u16 {
        measured_offset as u8
    } else {
        // too large, truncated
        u8::MAX - 1
    }
}

/// The offset to work with, and the one that is to be written to the store, if any.
pub open spec fn choice(stored: Option<u8>, measured: Option<u16>) -> (u8, Option<u8>) {
    match (stored, measured) {
        (Some(offset), _) => (offset, None),
        (None, Some(level)) => (kept_offset(level), Some(kept_offset(level))),
        (None, None) => (0, None),
    }
}

/// The offset to work with, and the one that is to be written to the store, if any: the one that
/// is stored; or else the measured one, which is then kept; or else none.
pub fn chosen_offset(stored: Option<u8>, measured: Option<u16>) -> (r: (u8, Option<u8>))
    ensures
        r == choice(stored, measured),
{
    match (stored, measured) {
        (Some(offset), _) => (offset, None),
        (None, Some(level)) => {
            let offset: u8 = stored_offset(level);
            (offset, Some(offset))
        },
        (None, None) => (0, None),
    }
}

/// An offset that was measured and written to the store is found there: the store does not take
/// it for no offset.
pub proof fn measured_offset_is_found_again(
    before: StoreModel,
    after: StoreModel,
    measured_offset: u16,
)
    requires
        store::attempted(
            before,
            after,
            Write::byte(Cv::EmfAdcOffset.number() as int, kept_offset(measured_offset)),
            Ok(()),
        ),
    ensures
        store::stored_adc_offset(after) == Ok::<Option<u8>, StoreError>(
            Some(kept_offset(measured_offset)),
        ),
{
    store::adc_offset_round_trip(before, after, kept_offset(measured_offset));
}

/// The greatest output: how often the system clock ticks per period of the motor PWM, in as
/// many bits as the PWM has.
pub open spec fn ticks_per_period(clk_sys_freq: u32, motor_pwm_frequency: u32) -> int {
    (clk_sys_freq / motor_pwm_frequency) as int % 65536
}

/// The greatest output, see [`ticks_per_period`].
pub fn output_max(clk_sys_freq: u32, motor_pwm_frequency: u32) -> (r: u16)
    requires
        motor_pwm_frequency > 0,
    ensures
        r as int == ticks_per_period(clk_sys_freq, motor_pwm_frequency),
{
    let ticks: u32 = clk_sys_freq / motor_pwm_frequency;
    ((ticks % 65536) as u16)
}

/// The level at standstill follows the samples: samples that are all equal have their value as
/// level, and raising all samples by an amount raises the level by it.
pub proof fn idle_level_follows_samples(samples: Seq<u16>, value: u16, d: u16)
    requires
        samples.len() > 0,
        forall|i: int| 0 <= i < samples.len() ==> #[trigger] samples[i] + d <= u16::MAX,
    ensures
        (forall|i: int| 0 <= i < samples.len() ==> #[trigger] samples[i] == value) ==> idle_level(
            samples,
        ) == value,
        idle_level(math::shifted(samples, d)) == idle_level(samples) + d,
{
    math::filtered_mean_exists(samples, 2);
    math::filtered_mean_of_shifted(samples, 2, d);
    if forall|i: int| 0 <= i < samples.len() ==> #[trigger] samples[i] == value {
        math::filtered_mean_between_bounds(samples, 2, value, value);
    }
}

/// With up to five samples none is too far away from the others to count for the level at
/// standstill, which is then their mean, rounded to the nearest integer. In general it is the mean
/// of those samples whose distance from the mean of all is at most twice the standard deviation.
pub proof fn idle_level_is_a_mean(samples: Seq<u16>)
    requires
        samples.len() >= 2,
    ensures
        samples.len() <= 5 ==> (2 * idle_level(samples) - 1) * samples.len() <= 2 * math::sum(
            samples,
        ) < (2 * idle_level(samples) + 1) * samples.len(),
        ({
            let center = math::sum(samples) as int / samples.len() as int;
            let spread = math::squared_distances(samples, center);
            let kept = samples.filter(
                |e: u16| ((e - center) * (e - center)) * (samples.len() - 1) <= 4 * spread,
            );
            &&& kept.len() > 0
            &&& (2 * idle_level(samples) - 1) * kept.len() <= 2 * math::sum(kept) < (2
                * idle_level(samples) + 1) * kept.len()
        }),
{
    math::filtered_mean_exists(samples, 2);
    math::filtered_mean_is_rounded(samples, 2);
    math::near_elements_by_variance(samples, 2);
    if samples.len() <= 5 {
        math::many_deviations_keep_everything(samples, 2);
    }
    let center = math::sum(samples) as int / samples.len() as int;
    let spread = math::squared_distances(samples, center);
    let named = |e: u16|
        ((e - center) * (e - center)) * (samples.len() - 1) <= (2u16 * 2u16) * spread;
    let plain = |e: u16| ((e - center) * (e - center)) * (samples.len() - 1) <= 4 * spread;
    assert(named =~= plain);
}

/// The combined offset is as far from one of the levels as from the other, but for rounding down;
/// which of them is which does not matter.
pub proof fn combined_offset_is_the_middle(a: u16, b: u16)
    ensures
        0 <= a + b - 2 * mean_of_both(a, b) <= 1,
        mean_of_both(a, b) == mean_of_both(b, a),
{
}

/// An offset is kept as it was measured up to 254, and a greater one as 254; never as 255, which
/// stands for no offset.
pub proof fn kept_offset_is_the_nearest(measured_offset: u16)
    ensures
        measured_offset <= 254 ==> kept_offset(measured_offset) == measured_offset,
        measured_offset >= 254 ==> kept_offset(measured_offset) == 254,
{
}

/// A stored offset is used and not written again. Without one, the measured offset is used, and is
/// what is written, so that the next choice finds it stored and comes to the same; without a
/// measurement there is no correction, and nothing is written.
pub proof fn choice_is_made_once(stored: Option<u8>, measured: Option<u16>, later: Option<u16>)
    ensures
        stored matches Some(offset) ==> choice(stored, measured) == (offset, None::<u8>),
        stored is None ==> match measured {
            Some(level) => {
                let (offset, written) = choice(stored, measured);
                &&& written == Some(offset)
                &&& choice(written, later) == (offset, None::<u8>)
                &&& level <= 254 ==> offset == level
                &&& level > 254 ==> offset == 254
            },
            None => choice(stored, measured) == (0u8, None::<u8>),
        },
{
}

/// A period of the motor PWM has as many ticks of the system clock as fit into it, if the PWM can
/// count that far.
pub proof fn output_max_fills_the_period(clk_sys_freq: u32, motor_pwm_frequency: u32)
    requires
        motor_pwm_frequency > 0,
        clk_sys_freq < 65536 * motor_pwm_frequency,
    ensures
        ({
            let ticks = ticks_per_period(clk_sys_freq, motor_pwm_frequency);
            &&& ticks * motor_pwm_frequency <= clk_sys_freq
            &&& clk_sys_freq < (ticks + 1) * motor_pwm_frequency
        }),
{
    let (clk, freq) = (clk_sys_freq as int, motor_pwm_frequency as int);
    assert(0 <= clk / freq < 65536 && (clk / freq) * freq <= clk && clk < (clk / freq + 1) * freq)
        by (nonlinear_arith)
        requires
            freq > 0,
            0 <= clk < 65536 * freq,
    ;
}

} // verus!
