//! The store that keeps the configuration variables, and typed access to it.
use vstd::prelude::*;
use crate::cv::{self, Cv, CV_SIZE};
use crate::motor::Direction;

verus! {

/// The first variable of the function map: the most significant forward byte of function 0.
pub const FUNCTION_MAP_BASE: usize = 257;

/// Variables per function in the function map: four bytes forward, four bytes reverse.
pub const FUNCTION_MAP_STRIDE: usize = 8;

/// Where the reverse bytes of a function start.
pub const FUNCTION_MAP_DIR_OFFSET: usize = 4;

/// The first variable of the configuration of PWM slice 0.
pub const PWM_SLICE_CONFIG_BASE: usize = 116;

/// Variables per PWM slice: wrap (2), divider (1) and levels (4).
pub const PWM_SLICE_CONFIG_STRIDE: usize = 7;

/// What can go wrong in a store.
#[derive(Copy, Clone, Debug, PartialEq, Eq, Structural)]
pub enum Error {
    /// The address is outside of the range supported by the store.
    InvalidAddress,
    /// Error reading / writing the store.
    Io,
}

impl Error {
    /// What went wrong, in words.
    pub fn message(&self) -> (r: &'static str)
        ensures
            r@ == (match *self {
                Error::Io => "IO error"@,
                Error::InvalidAddress => "Invalid Address"@,
            }),
    {
        match self {
            Error::Io => "IO error",
            Error::InvalidAddress => "Invalid Address",
        }
    }
}

/// A write: consecutive bytes that go to the addresses from `start` on, and whether they are to
/// be persisted even if the store holds them already.
pub struct Write {
    pub start: int,
    pub values: Seq<u8>,
    pub force: bool,
}

impl Write {
    /// The write of one byte.
    pub open spec fn byte(address: int, value: u8) -> Write {
        Write { start: address, values: seq![value], force: false }
    }

    /// Whether the write goes to `address`.
    pub open spec fn covers(self, address: int) -> bool {
        self.start <= address < self.start + self.values.len()
    }
}

/// A write that was asked of a store, with what the store answered.
pub struct Attempt {
    pub write: Write,
    pub result: Result<(), Error>,
}

/// The state of a store: what a read of each address gives, and the writes that have been
/// asked of it so far, in order.
pub struct StoreModel {
    pub cells: spec_fn(int) -> Result<u8, Error>,
    pub attempts: Seq<Attempt>,
}

impl StoreModel {
    /// What a read of one address gives.
    pub open spec fn byte(self, address: int) -> Result<u8, Error> {
        (self.cells)(address)
    }

    /// What a read of `len` addresses from `start` on gives: their bytes, or the error of the
    /// first address that cannot be read.
    pub open spec fn range(self, start: int, len: nat) -> Result<Seq<u8>, Error>
        decreases len,
    {
        if len == 0 {
            Ok(Seq::empty())
        } else {
            match self.range(start, (len - 1) as nat) {
                Err(e) => Err(e),
                Ok(bytes) => match self.byte(start + len - 1) {
                    Err(e) => Err(e),
                    Ok(b) => Ok(bytes.push(b)),
                },
            }
        }
    }
}

/// One write is asked of a store in the state `before`, which answers `result` and is then
/// in the state `after`. Addresses outside of the write keep what they hold; the written
/// ones hold the new bytes if the store answered `Ok`.
pub open spec fn attempted(
    before: StoreModel,
    after: StoreModel,
    write: Write,
    result: Result<(), Error>,
) -> bool {
    &&& after.attempts == before.attempts.push(Attempt { write, result })
    &&& forall|a: int| !write.covers(a) ==> #[trigger] after.byte(a) == before.byte(a)
    &&& result is Ok ==> forall|a: int|
        write.covers(a) ==> #[trigger] after.byte(a) == Ok::<u8, Error>(
            write.values[a - write.start],
        )
}

/// Writes are asked of a store one after the other, up to the first that fails: the store
/// goes from the state `before` to the state `after`, and `result` is what the last of the
/// writes that were asked for answered (`Ok` if there is none).
pub open spec fn ran(
    plan: Seq<Write>,
    before: StoreModel,
    after: StoreModel,
    result: Result<(), Error>,
) -> bool
    decreases plan.len(),
{
    if plan.len() == 0 {
        result is Ok && after == before
    } else {
        ||| result is Err && ran(plan.drop_last(), before, after, result)
        ||| exists|between: StoreModel|
            {
                &&& ran(plan.drop_last(), before, between, Ok(()))
                &&& #[trigger] attempted(between, after, plan.last(), result)
            }
    }
}

/// What a read of `address` gives once all the planned writes have succeeded.
pub open spec fn planned_byte(plan: Seq<Write>, before: StoreModel, address: int) -> Result<
    u8,
    Error,
>
    decreases plan.len(),
{
    if plan.len() == 0 {
        before.byte(address)
    } else if plan.last().covers(address) {
        Ok(plan.last().values[address - plan.last().start])
    } else {
        planned_byte(plan.drop_last(), before, address)
    }
}

/// A plan without writes leaves the store alone.
pub proof fn lemma_ran_nothing(store: StoreModel)
    ensures
        ran(Seq::<Write>::empty(), store, store, Ok(())),
{
}

/// One more write, after a plan that has succeeded.
pub proof fn lemma_ran_push(
    plan: Seq<Write>,
    before: StoreModel,
    between: StoreModel,
    after: StoreModel,
    write: Write,
    result: Result<(), Error>,
)
    requires
        ran(plan, before, between, Ok(())),
        attempted(between, after, write, result),
    ensures
        ran(plan.push(write), before, after, result),
        result is Ok ==> ran(plan.push(write), before, after, Ok(())),
{
    assert(plan.push(write).drop_last() =~= plan);
    assert(attempted(between, after, plan.push(write).last(), result));
    if let Ok(unit) = result {
        assert(unit == ());
    }
}

/// A plan of one write.
pub proof fn lemma_ran_one(
    before: StoreModel,
    after: StoreModel,
    write: Write,
    result: Result<(), Error>,
)
    requires
        attempted(before, after, write, result),
    ensures
        ran(seq![write], before, after, result),
        result is Ok ==> ran(seq![write], before, after, Ok(())),
{
    lemma_ran_nothing(before);
    lemma_ran_push(Seq::empty(), before, before, after, write, result);
    assert(Seq::<Write>::empty().push(write) =~= seq![write]);
}

/// A plan that has failed is not resumed.
pub proof fn lemma_ran_stopped(
    plan: Seq<Write>,
    before: StoreModel,
    after: StoreModel,
    write: Write,
    result: Result<(), Error>,
)
    requires
        ran(plan, before, after, result),
        result is Err,
    ensures
        ran(plan.push(write), before, after, result),
{
    assert(plan.push(write).drop_last() =~= plan);
}

/// After a plan has succeeded, every address holds what the plan last wrote to it, or what
/// it held before.
pub proof fn lemma_ran_contents(
    plan: Seq<Write>,
    before: StoreModel,
    after: StoreModel,
    address: int,
)
    requires
        ran(plan, before, after, Ok(())),
    ensures
        after.byte(address) == planned_byte(plan, before, address),
    decreases plan.len(),
{
    if plan.len() > 0 {
        let between = choose|between: StoreModel|
            {
                &&& ran(plan.drop_last(), before, between, Ok(()))
                &&& #[trigger] attempted(between, after, plan.last(), Ok(()))
            };
        lemma_ran_contents(plan.drop_last(), before, between, address);
    }
}

/// Whether it succeeds or fails, a plan leaves alone the addresses that no write of it goes
/// to.
pub proof fn lemma_ran_frame(
    plan: Seq<Write>,
    before: StoreModel,
    after: StoreModel,
    result: Result<(), Error>,
    address: int,
)
    requires
        ran(plan, before, after, result),
        forall|i: int| 0 <= i < plan.len() ==> !(#[trigger] plan[i]).covers(address),
    ensures
        after.byte(address) == before.byte(address),
    decreases plan.len(),
{
    if plan.len() > 0 {
        let shorter = plan.drop_last();
        assert forall|i: int| 0 <= i < shorter.len() implies !(#[trigger] shorter[i]).covers(
            address,
        ) by {
            assert(shorter[i] == plan[i]);
        }
        assert(!plan[plan.len() - 1].covers(address));
        if result is Err && ran(shorter, before, after, result) {
            lemma_ran_frame(shorter, before, after, result, address);
        } else {
            let between = choose|between: StoreModel|
                {
                    &&& ran(plan.drop_last(), before, between, Ok(()))
                    &&& #[trigger] attempted(between, after, plan.last(), result)
                };
            lemma_ran_frame(shorter, before, between, Ok(()), address);
        }
    }
}

/// A configuration variable store.
///
/// Implementations of this trait should be optimized for fast reads.
/// Writes occur very infrequently so can be relatively slow.
pub trait Store {
    /// The state of the store.
    spec fn view(&self) -> StoreModel;

    /// Reads a single configuration variable.
    fn read_byte(&self, address: usize) -> (r: Result<u8, Error>)
        ensures
            r == self.view().byte(address as int),
    ;

    /// Reads a range of configuration variables.
    fn read_bytes(&self, start: usize, len: usize) -> (r: Result<&[u8], Error>)
        ensures
            match r {
                Ok(bytes) => self.view().range(start as int, len as nat) == Ok::<Seq<u8>, Error>(
                    bytes@,
                ),
                Err(e) => self.view().range(start as int, len as nat) == Err::<Seq<u8>, Error>(e),
            },
    ;

    /// Writes a single configuration variable.
    fn write_byte(&mut self, address: usize, value: u8) -> (r: Result<(), Error>)
        ensures
            attempted(
                old(self).view(),
                final(self).view(),
                Write::byte(address as int, value),
                r,
            ),
    ;

    /// Writes a multi-byte configuration value to the specified address.
    ///
    /// If `force` is true, the write is persisted even if `value` is present in the store.
    fn write_bytes(&mut self, address: usize, value: &[u8], force: bool) -> (r: Result<(), Error>)
        ensures
            attempted(
                old(self).view(),
                final(self).view(),
                Write { start: address as int, values: value@, force },
                r,
            ),
    ;
}

/// A value that occupies one or more configuration variables.
pub trait CvValue: Sized {
    /// How many variables the value occupies.
    spec fn size() -> nat;

    /// The value that the given bytes hold, most significant byte first.
    spec fn decoded(bytes: Seq<u8>) -> Self;

    /// Reads the value that starts at `address`.
    fn from_store<S: Store>(store: &S, address: usize) -> (r: Result<Self, Error>)
        ensures
            r == (match store.view().range(address as int, Self::size()) {
                Ok(bytes) => Ok(Self::decoded(bytes)),
                Err(e) => Err(e),
            }),
    ;
}

impl CvValue for u8 {
    open spec fn size() -> nat {
        1
    }

    open spec fn decoded(bytes: Seq<u8>) -> u8 {
        bytes[0]
    }

    fn from_store<S: Store>(store: &S, address: usize) -> Result<u8, Error> {
        proof {
            reveal_with_fuel(StoreModel::range, 2);
        }
        store.read_byte(address)
    }
}

impl CvValue for u16 {
    open spec fn size() -> nat {
        2
    }

    open spec fn decoded(bytes: Seq<u8>) -> u16 {
        (bytes[0] * 256 + bytes[1]) as u16
    }

    fn from_store<S: Store>(store: &S, address: usize) -> Result<u16, Error> {
        proof {
            reveal_with_fuel(StoreModel::range, 3);
        }
        match store.read_bytes(address, 2) {
            Ok(bytes) => if bytes.len() == 2 {
                Ok(bytes[0] as u16 * 256 + bytes[1] as u16)
            } else {
                Err(Error::Io)
            },
            Err(e) => Err(e),
        }
    }
}

impl CvValue for u32 {
    open spec fn size() -> nat {
        4
    }

    open spec fn decoded(bytes: Seq<u8>) -> u32 {
        (bytes[0] * 16777216 + bytes[1] * 65536 + bytes[2] * 256 + bytes[3]) as u32
    }

    fn from_store<S: Store>(store: &S, address: usize) -> Result<u32, Error> {
        proof {
            reveal_with_fuel(StoreModel::range, 5);
        }
        match store.read_bytes(address, 4) {
            Ok(bytes) => if bytes.len() == 4 {
                Ok(
                    bytes[0] as u32 * 16777216 + bytes[1] as u32 * 65536 + bytes[2] as u32 * 256
                        + bytes[3] as u32,
                )
            } else {
                Err(Error::Io)
            },
            Err(e) => Err(e),
        }
    }
}

/// What reading the value at `address` gives.
pub open spec fn cv_value<V: CvValue>(store: StoreModel, address: int) -> Result<V, Error> {
    match store.range(address, V::size()) {
        Ok(bytes) => Ok(V::decoded(bytes)),
        Err(e) => Err(e),
    }
}

/// Whether the value of the decoder configuration variable selects the extended address.
pub open spec fn uses_extended_address(configuration: u8) -> bool {
    0b0010_0000 & configuration != 0
}

/// The address of the decoder that has the given configuration variables.
pub open spec fn decoder_address(store: StoreModel) -> Result<u16, Error> {
    match store.byte(Cv::DecoderConfiguration.number() as int) {
        Err(e) => Err(e),
        Ok(configuration) => if uses_extended_address(configuration) {
            match store.range(Cv::ExtendedAddressMsb.number() as int, 2) {
                Err(e) => Err(e),
                Ok(bytes) => Ok(crate::extended_address(bytes[0], bytes[1])),
            }
        } else {
            match store.byte(Cv::PrimaryAddress.number() as int) {
                Err(e) => Err(e),
                Ok(address) => Ok(address as u16),
            }
        },
    }
}

/// Where the output mask of a function starts.
pub open spec fn function_map_address(function_index: u8, direction: Direction) -> int {
    FUNCTION_MAP_BASE + function_index * FUNCTION_MAP_STRIDE + match direction {
        Direction::Forward => 0int,
        Direction::Reverse => FUNCTION_MAP_DIR_OFFSET as int,
    }
}

/// Where the configuration of a PWM slice starts.
pub open spec fn pwm_slice_address(slice: u8) -> int {
    PWM_SLICE_CONFIG_BASE + slice * PWM_SLICE_CONFIG_STRIDE
}

/// The configuration of a PWM slice.
#[derive(Copy, Clone, Debug, PartialEq, Eq, Structural)]
pub struct PwmConfig {
    pub wrap: u16,
    pub divider: u8,
    pub a_level: u16,
    pub b_level: u16,
}

/// The configuration that starts at the given address. The divider is stored less one.
pub open spec fn pwm_config_at(store: StoreModel, base: int) -> Result<PwmConfig, Error> {
    match (
        cv_value::<u16>(store, base),
        store.byte(base + 2),
        cv_value::<u16>(store, base + 3),
        cv_value::<u16>(store, base + 5),
    ) {
        (Err(e), _, _, _) => Err(e),
        (_, Err(e), _, _) => Err(e),
        (_, _, Err(e), _) => Err(e),
        (_, _, _, Err(e)) => Err(e),
        (Ok(wrap), Ok(divider), Ok(a_level), Ok(b_level)) => Ok(
            PwmConfig {
                wrap,
                divider: if divider == 255 {
                    255u8
                } else {
                    (divider + 1) as u8
                },
                a_level,
                b_level,
            },
        ),
    }
}

/// The feed forward factor for the PID controller, as a store holds it.
pub open spec fn feed_forward_of(store: StoreModel) -> Result<u8, Error> {
    store.byte(Cv::PidFf.number() as int)
}

/// The delay before the EMF signal is measured, as a store holds it.
pub open spec fn emf_delay_of(store: StoreModel) -> Result<u8, Error> {
    store.byte(Cv::EmfMsrDelay.number() as int)
}

/// How many samples make up one EMF measurement, as a store holds it.
pub open spec fn emf_samples_of(store: StoreModel) -> Result<u8, Error> {
    store.byte(Cv::EmfMsrSamples.number() as int)
}

/// How many samples are discarded at the low end, as a store holds it.
pub open spec fn low_cutoff_of(store: StoreModel) -> Result<u8, Error> {
    store.byte(Cv::EmfMsrLowCutoff.number() as int)
}

/// How many samples are discarded at the high end, as a store holds it.
pub open spec fn high_cutoff_of(store: StoreModel) -> Result<u8, Error> {
    store.byte(Cv::EmfMsrHighCutoff.number() as int)
}

/// The clock divider of the motor PWM, as a store holds it.
pub open spec fn pwm_divider_of(store: StoreModel) -> Result<u8, Error> {
    store.byte(Cv::MotorPwmDivider.number() as int)
}

/// The PWM frequency of the motor, in Hz, as a store holds it: in units of 100 Hz above 10 kHz.
pub open spec fn pwm_frequency_of(store: StoreModel) -> Result<u32, Error> {
    match store.byte(Cv::MotorPwmFrequency.number() as int) {
        Ok(b) => Ok((b * 100 + 10_000) as u32),
        Err(e) => Err(e),
    }
}

/// The output mask of a function, as a store holds it; `None` if there is no such function.
pub open spec fn output_mask_of(store: StoreModel, function_index: u8, direction: Direction) -> Result<
    Option<u32>,
    Error,
> {
    if function_index >= 32 {
        Ok(None)
    } else {
        match cv_value::<u32>(store, function_map_address(function_index, direction)) {
            Ok(mask) => Ok(Some(mask)),
            Err(e) => Err(e),
        }
    }
}

/// The configuration of a PWM slice, as a store holds it; `None` if there is no such slice.
pub open spec fn pwm_configuration_of(store: StoreModel, slice: u8) -> Result<
    Option<PwmConfig>,
    Error,
> {
    if slice >= 8 {
        Ok(None)
    } else {
        match pwm_config_at(store, pwm_slice_address(slice)) {
            Ok(config) => Ok(Some(config)),
            Err(e) => Err(e),
        }
    }
}

/// The mask of the outputs that are driven by pulse width modulation, as a store holds it.
pub open spec fn pwm_mask_of(store: StoreModel) -> Result<u32, Error> {
    cv_value::<u32>(store, Cv::EnablePwmOutputMask.number() as int)
}

/// The write that keeps an offset of the EMF measurement, or that forgets it.
pub open spec fn adc_offset_write(offset: Option<u8>) -> Write {
    Write::byte(
        Cv::EmfAdcOffset.number() as int,
        match offset {
            Some(offset) => offset,
            None => u8::MAX,
        },
    )
}

/// Typed access to the variables of a store.
pub trait StoreExt: Store {
    /// Reads the value that starts at `address`.
    fn read_cv<V: CvValue>(&self, address: usize) -> (r: Result<V, Error>)
        ensures
            r == cv_value::<V>(self.view(), address as int),
    ;

    /// Reads the address from the store.
    fn addr(&self) -> (r: Result<u16, Error>)
        ensures
            r == decoder_address(self.view()),
    ;

    /// The start voltage of the motor.
    fn v_start(&self) -> (r: Result<u8, Error>)
        ensures
            r == self.view().byte(Cv::VStart.number() as int),
    ;

    /// The acceleration rate.
    fn acceleration_rate(&self) -> (r: Result<u8, Error>)
        ensures
            r == self.view().byte(Cv::AccelerationRate.number() as int),
    ;

    /// The deceleration rate.
    fn deceleration_rate(&self) -> (r: Result<u8, Error>)
        ensures
            r == self.view().byte(Cv::DecelerationRate.number() as int),
    ;

    /// The motor drive level at the highest speed step.
    fn v_high(&self) -> (r: Result<u8, Error>)
        ensures
            r == self.view().byte(Cv::VHigh.number() as int),
    ;

    /// The motor drive level at the middle speed step.
    fn v_mid(&self) -> (r: Result<u8, Error>)
        ensures
            r == self.view().byte(Cv::VMid.number() as int),
    ;

    /// Sample time for the PID controller, in milliseconds.
    fn pid_sample_time(&self) -> (r: Result<u8, Error>)
        ensures
            r == self.view().byte(Cv::PidSampleTime.number() as int),
    ;

    /// PID ki term, in tenths.
    fn pid_ki(&self) -> (r: Result<u8, Error>)
        ensures
            r == self.view().byte(Cv::PidKi.number() as int),
    ;

    /// PID kd term, in ten-thousandths.
    fn pid_kd(&self) -> (r: Result<u8, Error>)
        ensures
            r == self.view().byte(Cv::PidKd.number() as int),
    ;

    /// Low pass filter time constant, in milliseconds.
    fn pid_filter_tc(&self) -> (r: Result<u8, Error>)
        ensures
            r == self.view().byte(Cv::PidFilterTc.number() as int),
    ;

    /// Position of the end of range 1, as a fraction of the maximum in units of 1/255.
    fn pid_kp_gain_range1_end(&self) -> (r: Result<u8, Error>)
        ensures
            r == self.view().byte(Cv::PidKpGainRange1End.number() as int),
    ;

    /// PID kp term at the start of range 1, in hundredths.
    fn pid_kp_y0(&self) -> (r: Result<u16, Error>)
        ensures
            r == cv_value::<u16>(self.view(), Cv::PidKpY0.number() as int),
    ;

    /// PID kp term at the end of range 1, in hundredths.
    fn pid_kp_y1(&self) -> (r: Result<u16, Error>)
        ensures
            r == cv_value::<u16>(self.view(), Cv::PidKpY1.number() as int),
    ;

    /// PID kp term at the end of range 2, in hundredths.
    fn pid_kp_y2(&self) -> (r: Result<u16, Error>)
        ensures
            r == cv_value::<u16>(self.view(), Cv::PidKpY2.number() as int),
    ;

    /// Feed forward factor for the PID controller, in units of 1/255.
    fn pid_k_ff(&self) -> (r: Result<u8, Error>)
        ensures
            r == feed_forward_of(self.view()),
    ;

    /// Delay between cutting power to the motor and measuring the EMF signal, in microseconds.
    fn emf_measurement_delay(&self) -> (r: Result<u8, Error>)
        ensures
            r == emf_delay_of(self.view()),
    ;

    /// How many samples make up one EMF measurement.
    fn emf_samples(&self) -> (r: Result<u8, Error>)
        ensures
            r == emf_samples_of(self.view()),
    ;

    /// Samples discarded from the low end of a sorted EMF measurement.
    fn emf_l_side_cutoff(&self) -> (r: Result<u8, Error>)
        ensures
            r == low_cutoff_of(self.view()),
    ;

    /// Samples discarded from the high end of a sorted EMF measurement.
    fn emf_r_side_cutoff(&self) -> (r: Result<u8, Error>)
        ensures
            r == high_cutoff_of(self.view()),
    ;

    /// The clock divider of the motor PWM.
    fn motor_pwm_divider(&self) -> (r: Result<u8, Error>)
        ensures
            r == pwm_divider_of(self.view()),
    ;

    /// The period that the acceleration and deceleration rates count, in milliseconds.
    fn speed_step_period(&self) -> (r: Result<u8, Error>)
        ensures
            r == self.view().byte(Cv::SpeedStepPeriod.number() as int),
    ;

    /// The PWM frequency of the motor, in Hz.
    fn motor_pwm_frequency(&self) -> (r: Result<u32, Error>)
        ensures
            r == pwm_frequency_of(self.view()),
    ;

    /// The offset of the EMF measurement; `None` as long as it has not been calibrated.
    fn emf_adc_offset(&self) -> (r: Result<Option<u8>, Error>)
        ensures
            r == stored_adc_offset(self.view()),
    ;

    /// Forgets the calibrated offset.
    fn emf_adc_offset_clear(&mut self) -> (r: Result<(), Error>)
        ensures
            attempted(
                old(self).view(),
                final(self).view(),
                adc_offset_write(None),
                r,
            ),
    ;

    /// Keeps a calibrated offset.
    fn write_emf_adc_offset(&mut self, offset: u8) -> (r: Result<(), Error>)
        ensures
            attempted(
                old(self).view(),
                final(self).view(),
                adc_offset_write(Some(offset)),
                r,
            ),
    ;

    /// Returns the GPIO PWM enable mask.
    fn pwm_enabled_mask(&self) -> (r: Result<u32, Error>)
        ensures
            r == pwm_mask_of(self.view()),
    ;

    /// Returns the GPIO output mask for a function index and direction.
    ///
    /// The returned value is a mask representing ALL GPIO pins. Bits that are `1` in the mask
    /// should be enabled when the function is active. Returns `None` if there is no such
    /// function.
    fn function_output_mask(&self, function_index: u8, direction: Direction) -> (r: Result<
        Option<u32>,
        Error,
    >)
        ensures
            r == output_mask_of(self.view(), function_index, direction),
    ;

    /// Returns the PWM configuration for the requested slice.
    ///
    /// Returns `None` if the slice is invalid.
    fn pwm_configuration(&self, slice: u8) -> (r: Result<Option<PwmConfig>, Error>)
        ensures
            r == pwm_configuration_of(self.view(), slice),
    ;
}

impl<T: Store> StoreExt for T {
    fn read_cv<V: CvValue>(&self, address: usize) -> Result<V, Error> {
        V::from_store(self, address)
    }

    fn addr(&self) -> Result<u16, Error> {
        proof {
            reveal_with_fuel(StoreModel::range, 3);
        }
        // check if we are an extended address
        if 0b0010_0000 & self.read_byte(Cv::DecoderConfiguration.number() as usize)? != 0 {
            return Ok(
                crate::read_extended_address(
                    self.read_bytes(Cv::ExtendedAddressMsb.number() as usize, 2)?,
                ),
            );
        }
        Ok(self.read_byte(Cv::PrimaryAddress.number() as usize)? as u16)
    }

    fn v_start(&self) -> Result<u8, Error> {
        self.read_byte(Cv::VStart.number() as usize)
    }

    fn acceleration_rate(&self) -> Result<u8, Error> {
        self.read_byte(Cv::AccelerationRate.number() as usize)
    }

    fn deceleration_rate(&self) -> Result<u8, Error> {
        self.read_byte(Cv::DecelerationRate.number() as usize)
    }

    fn v_high(&self) -> Result<u8, Error> {
        self.read_byte(Cv::VHigh.number() as usize)
    }

    fn v_mid(&self) -> Result<u8, Error> {
        self.read_byte(Cv::VMid.number() as usize)
    }

    fn pid_sample_time(&self) -> Result<u8, Error> {
        self.read_byte(Cv::PidSampleTime.number() as usize)
    }

    fn pid_ki(&self) -> Result<u8, Error> {
        self.read_byte(Cv::PidKi.number() as usize)
    }

    fn pid_kd(&self) -> Result<u8, Error> {
        self.read_byte(Cv::PidKd.number() as usize)
    }

    fn pid_filter_tc(&self) -> Result<u8, Error> {
        self.read_byte(Cv::PidFilterTc.number() as usize)
    }

    fn pid_kp_gain_range1_end(&self) -> Result<u8, Error> {
        self.read_byte(Cv::PidKpGainRange1End.number() as usize)
    }

    fn pid_kp_y0(&self) -> Result<u16, Error> {
        self.read_cv::<u16>(Cv::PidKpY0.number() as usize)
    }

    fn pid_kp_y1(&self) -> Result<u16, Error> {
        self.read_cv::<u16>(Cv::PidKpY1.number() as usize)
    }

    fn pid_kp_y2(&self) -> Result<u16, Error> {
        self.read_cv::<u16>(Cv::PidKpY2.number() as usize)
    }

    fn pid_k_ff(&self) -> Result<u8, Error> {
        self.read_byte(Cv::PidFf.number() as usize)
    }

    fn emf_measurement_delay(&self) -> Result<u8, Error> {
        self.read_byte(Cv::EmfMsrDelay.number() as usize)
    }

    fn emf_samples(&self) -> Result<u8, Error> {
        self.read_byte(Cv::EmfMsrSamples.number() as usize)
    }

    fn emf_l_side_cutoff(&self) -> Result<u8, Error> {
        self.read_byte(Cv::EmfMsrLowCutoff.number() as usize)
    }

    fn emf_r_side_cutoff(&self) -> Result<u8, Error> {
        self.read_byte(Cv::EmfMsrHighCutoff.number() as usize)
    }

    fn motor_pwm_divider(&self) -> Result<u8, Error> {
        self.read_byte(Cv::MotorPwmDivider.number() as usize)
    }

    fn speed_step_period(&self) -> Result<u8, Error> {
        self.read_byte(Cv::SpeedStepPeriod.number() as usize)
    }

    fn motor_pwm_frequency(&self) -> Result<u32, Error> {
        Ok(self.read_byte(Cv::MotorPwmFrequency.number() as usize)? as u32 * 100 + 10_000)
    }

    fn emf_adc_offset(&self) -> Result<Option<u8>, Error> {
        let offset: u8 = self.read_byte(Cv::EmfAdcOffset.number() as usize)?;
        if offset != u8::MAX {
            Ok(Some(offset))
        } else {
            Ok(None)
        }
    }

    fn emf_adc_offset_clear(&mut self) -> Result<(), Error> {
        self.write_byte(Cv::EmfAdcOffset.number() as usize, u8::MAX)
    }

    fn write_emf_adc_offset(&mut self, offset: u8) -> Result<(), Error> {
        self.write_byte(Cv::EmfAdcOffset.number() as usize, offset)
    }

    fn pwm_enabled_mask(&self) -> Result<u32, Error> {
        self.read_cv::<u32>(Cv::EnablePwmOutputMask.number() as usize)
    }

    fn function_output_mask(&self, function_index: u8, direction: Direction) -> Result<
        Option<u32>,
        Error,
    > {
        if function_index >= 32 {
            return Ok(None);
        }
        let dir_offset: usize = match direction {
            Direction::Forward => 0,
            Direction::Reverse => FUNCTION_MAP_DIR_OFFSET,
        };
        let cv_start: usize = FUNCTION_MAP_BASE + (function_index as usize * FUNCTION_MAP_STRIDE)
            + dir_offset;
        Ok(Some(self.read_cv::<u32>(cv_start)?))
    }

    fn pwm_configuration(&self, slice: u8) -> Result<Option<PwmConfig>, Error> {
        if slice >= 8 {
            return Ok(None);
        }
        let base: usize = PWM_SLICE_CONFIG_BASE + (slice as usize * PWM_SLICE_CONFIG_STRIDE);
        let wrap: u16 = self.read_cv::<u16>(base)?;
        let divider: u8 = self.read_byte(base + 2)?.saturating_add(1);
        let a_level: u16 = self.read_cv::<u16>(base + 3)?;
        let b_level: u16 = self.read_cv::<u16>(base + 5)?;
        Ok(Some(PwmConfig { wrap, divider, a_level, b_level }))
    }
}

/// The write that puts the factory values into all variables.
pub open spec fn factory_write() -> Write {
    Write { start: 1, values: cv::spec_default_values(), force: true }
}

/// It is made sure that a store holds values: it goes from the state `before` to the state `after`,
/// and `result` says whether that has succeeded.
pub open spec fn populated(before: StoreModel, after: StoreModel, result: Result<(), Error>) -> bool {
    match decoder_address(before) {
        Err(e) => result == Err::<(), Error>(e) && after == before,
        Ok(0) => attempted(before, after, factory_write(), result),
        Ok(_) => result is Ok && after == before,
    }
}

/// Makes sure that the store holds values: a decoder without an address has an empty store,
/// which is given the factory values.
pub fn ensure_populated<S: Store>(store: &mut S) -> (r: Result<(), Error>)
    ensures
        populated(old(store).view(), final(store).view(), r),
{
    let primary_addr: u16 = store.addr()?;
    if primary_addr == 0 {
        reset(store)?;
    }
    Ok(())
}

/// Resets the CV store to the default values.
pub fn reset<S: Store>(store: &mut S) -> (r: Result<(), Error>)
    ensures
        attempted(old(store).view(), final(store).view(), factory_write(), r),
{
    let values = cv::default_values();
    store.write_bytes(1, values.as_slice(), true)
}

/// A store that has been reset answers to the factory address.
pub proof fn reset_store_has_factory_address(before: StoreModel, after: StoreModel)
    requires
        attempted(before, after, factory_write(), Ok(())),
    ensures
        decoder_address(after) == Ok::<u16, Error>(3),
        forall|a: int|
            1 <= a <= CV_SIZE ==> #[trigger] after.byte(a) == Ok::<u8, Error>(
                cv::spec_default_value(a),
            ),
{
    let cv29 = Cv::DecoderConfiguration.number() as int;
    assert(factory_write().covers(cv29));
    assert(after.byte(cv29) == Ok::<u8, Error>(0));
    assert(0b0010_0000u8 & 0u8 == 0) by (bit_vector);
    assert(factory_write().covers(1));
    assert(after.byte(1) == Ok::<u8, Error>(3));
}

/// Making sure that a store is populated twice does no more than doing it once: after it has
/// succeeded, the decoder has an address, so the second time leaves the store alone.
pub proof fn populated_store_has_address(before: StoreModel, after: StoreModel)
    requires
        populated(before, after, Ok(())),
    ensures
        decoder_address(after) is Ok,
        decoder_address(after) != Ok::<u16, Error>(0),
{
    if decoder_address(before) == Ok::<u16, Error>(0) {
        reset_store_has_factory_address(before, after);
    }
}

/// Only a store in which the decoder has the address 0 is given values: exactly one write is asked
/// of it then, the same as for a reset. A store in which the decoder has another address is left
/// alone, and so is one in which its address cannot be read, which is an error.
pub proof fn only_an_empty_store_is_populated(
    before: StoreModel,
    after: StoreModel,
    result: Result<(), Error>,
    address: u16,
)
    requires
        populated(before, after, result),
    ensures
        decoder_address(before) == Ok::<u16, Error>(address) && address != 0 ==> after == before
            && result is Ok,
        decoder_address(before) == Ok::<u16, Error>(0) ==> attempted(
            before,
            after,
            factory_write(),
            result,
        ),
        decoder_address(before) is Err ==> after == before && result is Err,
{
}

/// A range whose addresses all hold bytes reads as these bytes.
proof fn lemma_range_of_bytes(store: StoreModel, start: int, bytes: Seq<u8>, n: nat)
    requires
        n <= bytes.len(),
        forall|i: int|
            0 <= i < bytes.len() ==> store.byte(start + i) == Ok::<u8, Error>(
                #[trigger] bytes[i],
            ),
    ensures
        store.range(start, n) == Ok::<Seq<u8>, Error>(bytes.take(n as int)),
    decreases n,
{
    if n > 0 {
        lemma_range_of_bytes(store, start, bytes, (n - 1) as nat);
        assert(store.byte(start + (n - 1)) == Ok::<u8, Error>(bytes[n - 1]));
        assert(bytes.take(n as int) =~= bytes.take(n - 1).push(bytes[n - 1]));
    } else {
        assert(bytes.take(0) =~= Seq::<u8>::empty());
    }
}

/// What was written with success is read back: all of it at once, and byte by byte; all other
/// addresses read as before.
pub proof fn written_values_are_read_back(before: StoreModel, after: StoreModel, write: Write)
    requires
        attempted(before, after, write, Ok(())),
    ensures
        after.range(write.start, write.values.len()) == Ok::<Seq<u8>, Error>(write.values),
        forall|a: int|
            #![trigger after.byte(a)]
            after.byte(a) == (if write.covers(a) {
                Ok::<u8, Error>(write.values[a - write.start])
            } else {
                before.byte(a)
            }),
{
    assert forall|i: int| 0 <= i < write.values.len() implies after.byte(write.start + i) == Ok::<
        u8,
        Error,
    >(#[trigger] write.values[i]) by {
        assert(write.covers(write.start + i));
    }
    lemma_range_of_bytes(after, write.start, write.values, write.values.len());
    assert(write.values.take(write.values.len() as int) =~= write.values);
}

/// The offset of the EMF measurement that a store holds, `None` if it is not calibrated.
pub open spec fn stored_adc_offset(store: StoreModel) -> Result<Option<u8>, Error> {
    match store.byte(Cv::EmfAdcOffset.number() as int) {
        Ok(b) => Ok(
            if b == u8::MAX {
                None
            } else {
                Some(b)
            },
        ),
        Err(e) => Err(e),
    }
}

/// An offset that was kept is found again, and one that was forgotten is not.
pub proof fn adc_offset_round_trip(before: StoreModel, after: StoreModel, offset: u8)
    requires
        attempted(
            before,
            after,
            Write::byte(Cv::EmfAdcOffset.number() as int, offset),
            Ok(()),
        ),
    ensures
        stored_adc_offset(after) == Ok::<Option<u8>, Error>(
            if offset == u8::MAX {
                None
            } else {
                Some(offset)
            },
        ),
{
    assert(Write::byte(Cv::EmfAdcOffset.number() as int, offset).covers(
        Cv::EmfAdcOffset.number() as int,
    ));
}

/// Writes are asked of a store in the order of the plan, each one at most once, and none after one
/// that has failed; nothing that was asked before is forgotten. The plan has succeeded exactly when
/// all of its writes have, and else its error is the one of the last write that was asked for.
pub proof fn writes_are_asked_in_order(
    plan: Seq<Write>,
    before: StoreModel,
    after: StoreModel,
    result: Result<(), Error>,
)
    requires
        ran(plan, before, after, result),
    ensures
        ({
            let n = before.attempts.len();
            let asked = after.attempts.len() - n;
            &&& 0 <= asked <= plan.len()
            &&& after.attempts.take(n as int) == before.attempts
            &&& forall|i: int| 0 <= i < asked ==> (#[trigger] after.attempts[n + i]).write
                == plan[i]
            &&& forall|i: int|
                0 <= i < asked - 1 ==> (#[trigger] after.attempts[n + i]).result is Ok
            &&& result is Ok ==> asked == plan.len() && (asked > 0
                ==> after.attempts.last().result is Ok)
            &&& result is Err ==> asked > 0 && after.attempts.last().result == result
        }),
    decreases plan.len(),
{
    let n = before.attempts.len();
    if plan.len() == 0 {
        assert(before.attempts.take(n as int) =~= before.attempts);
    } else {
        let shorter = plan.drop_last();
        if result is Err && ran(shorter, before, after, result) {
            writes_are_asked_in_order(shorter, before, after, result);
            assert forall|i: int| 0 <= i < after.attempts.len() - n implies (
            #[trigger] after.attempts[n + i]).write == plan[i] by {
                assert(shorter[i] == plan[i]);
            }
        } else {
            let between = choose|between: StoreModel|
                {
                    &&& ran(shorter, before, between, Ok(()))
                    &&& #[trigger] attempted(between, after, plan.last(), result)
                };
            writes_are_asked_in_order(shorter, before, between, Ok(()));
            assert(after.attempts.take(n as int) =~= between.attempts.take(n as int));
            assert forall|i: int| 0 <= i < after.attempts.len() - n implies (
            #[trigger] after.attempts[n + i]).write == plan[i] by {
                if i < shorter.len() {
                    assert(between.attempts[n + i].write == shorter[i]);
                }
            }
            assert forall|i: int| 0 <= i < after.attempts.len() - n - 1 implies (
            #[trigger] after.attempts[n + i]).result is Ok by {
                assert(after.attempts[n + i] == between.attempts[n + i]);
                if i == shorter.len() - 1 {
                    assert(between.attempts[n + i] == between.attempts.last());
                }
            }
        }
    }
}

/// A value of two or four bytes is stored with its most significant byte first, and can be read
/// exactly if all of its bytes can.
pub proof fn values_are_stored_in_order(store: StoreModel, address: int)
    ensures
        cv_value::<u8>(store, address) == store.byte(address),
        cv_value::<u16>(store, address) matches Ok(value) ==> {
            &&& store.byte(address) == Ok::<u8, Error>((value / 256) as u8)
            &&& store.byte(address + 1) == Ok::<u8, Error>((value % 256) as u8)
        },
        cv_value::<u16>(store, address) is Ok <==> store.byte(address) is Ok && store.byte(
            address + 1,
        ) is Ok,
        cv_value::<u32>(store, address) matches Ok(value) ==> {
            &&& store.byte(address) == Ok::<u8, Error>((value / 16777216) as u8)
            &&& store.byte(address + 1) == Ok::<u8, Error>((value / 65536 % 256) as u8)
            &&& store.byte(address + 2) == Ok::<u8, Error>((value / 256 % 256) as u8)
            &&& store.byte(address + 3) == Ok::<u8, Error>((value % 256) as u8)
        },
        cv_value::<u32>(store, address) is Ok <==> {
            &&& store.byte(address) is Ok
            &&& store.byte(address + 1) is Ok
            &&& store.byte(address + 2) is Ok
            &&& store.byte(address + 3) is Ok
        },
{
    reveal_with_fuel(StoreModel::range, 5);
}

/// A range of addresses is read as the bytes at these addresses, and can be read exactly if each of
/// them can.
pub proof fn range_is_read_byte_by_byte(store: StoreModel, start: int, len: nat, i: int)
    requires
        0 <= i < len,
    ensures
        store.range(start, len) matches Ok(bytes) ==> bytes.len() == len && store.byte(start + i)
            == Ok::<u8, Error>(bytes[i]),
        store.byte(start + i) is Err ==> store.range(start, len) is Err,
    decreases len,
{
    if i < len - 1 {
        range_is_read_byte_by_byte(store, start, (len - 1) as nat, i);
    } else if len > 1 {
        range_is_read_byte_by_byte(store, start, (len - 1) as nat, 0);
    } else {
        reveal_with_fuel(StoreModel::range, 2);
    }
}

/// The address of the decoder: if bit 5 of variable 29 is set it is made of the lower six bits of
/// variable 17 and of variable 18, and else it is variable 1. The variables that are not used do not
/// matter.
pub proof fn decoder_address_by_configuration(store: StoreModel, configuration: u8)
    requires
        store.byte(29) == Ok::<u8, Error>(configuration),
    ensures
        configuration / 32 % 2 == 0 ==> match store.byte(1) {
            Ok(address) => decoder_address(store) == Ok::<u16, Error>(address as u16),
            Err(e) => decoder_address(store) == Err::<u16, Error>(e),
        },
        configuration / 32 % 2 == 1 ==> match (store.byte(17), store.byte(18)) {
            (Ok(msb), Ok(lsb)) => decoder_address(store) == Ok::<u16, Error>(
                (msb % 64 * 256 + lsb) as u16,
            ),
            _ => decoder_address(store) is Err,
        },
{
    reveal_with_fuel(StoreModel::range, 3);
    assert((0b0010_0000u8 & configuration != 0) == (configuration / 32 % 2 == 1)) by (bit_vector);
    if store.byte(17) is Ok {
        let msb = store.byte(17)->Ok_0;
        assert(msb & 0b0011_1111 == msb % 64) by (bit_vector);
    }
}

/// The variables that the motor is driven with: 47, 62, 61, 63, 64, 10 and 9.
pub proof fn motor_variables_are_stored(store: StoreModel)
    ensures
        feed_forward_of(store) == store.byte(47),
        emf_delay_of(store) == store.byte(62),
        emf_samples_of(store) == store.byte(61),
        low_cutoff_of(store) == store.byte(63),
        high_cutoff_of(store) == store.byte(64),
        pwm_divider_of(store) == store.byte(10),
        match pwm_frequency_of(store) {
            Ok(frequency) => {
                &&& store.byte(9) is Ok
                &&& frequency == 10_000 + 100 * store.byte(9)->Ok_0
            },
            Err(e) => store.byte(9) == Err::<u8, Error>(e),
        },
        match stored_adc_offset(store) {
            Ok(Some(offset)) => offset < 255 && store.byte(172) == Ok::<u8, Error>(offset),
            Ok(None) => store.byte(172) == Ok::<u8, Error>(255),
            Err(e) => store.byte(172) == Err::<u8, Error>(e),
        },
{
}

/// Every function has eight variables of its own, from variable 257 on: four for the outputs that it
/// switches when the locomotive goes forward, and four for those that it switches in reverse, each
/// with the most significant byte first. There are 32 functions.
pub proof fn function_outputs_are_stored(store: StoreModel, index: u8, direction: Direction)
    ensures
        index >= 32 ==> output_mask_of(store, index, direction) == Ok::<Option<u32>, Error>(None),
        index < 32 ==> {
            let start = 257 + 8 * index + (if direction == Direction::Forward {
                0int
            } else {
                4int
            });
            match output_mask_of(store, index, direction) {
                Ok(Some(mask)) => {
                    &&& store.byte(start) == Ok::<u8, Error>((mask / 16777216) as u8)
                    &&& store.byte(start + 1) == Ok::<u8, Error>((mask / 65536 % 256) as u8)
                    &&& store.byte(start + 2) == Ok::<u8, Error>((mask / 256 % 256) as u8)
                    &&& store.byte(start + 3) == Ok::<u8, Error>((mask % 256) as u8)
                },
                Ok(None) => false,
                Err(_) => exists|a: int| start <= a < start + 4 && #[trigger] store.byte(a) is Err,
            }
        },
{
    if index < 32 {
        let start = function_map_address(index, direction);
        values_are_stored_in_order(store, start);
        if output_mask_of(store, index, direction) is Err {
            assert(store.byte(start) is Err || store.byte(start + 1) is Err || store.byte(start + 2)
                is Err || store.byte(start + 3) is Err);
        }
    }
}

/// Every PWM slice has seven variables of its own, from variable 116 on: two for the wrap, one for
/// the divider less one, two for the level of the first output and two for that of the second one.
/// There are eight slices. The mask of the outputs that are driven this way is in the variables from
/// 112 on.
pub proof fn pwm_slices_are_stored(store: StoreModel, slice: u8)
    ensures
        slice >= 8 ==> pwm_configuration_of(store, slice) == Ok::<Option<PwmConfig>, Error>(None),
        slice < 8 ==> {
            let start = 116 + 7 * slice;
            match pwm_configuration_of(store, slice) {
                Ok(Some(config)) => {
                    &&& store.byte(start) == Ok::<u8, Error>((config.wrap / 256) as u8)
                    &&& store.byte(start + 1) == Ok::<u8, Error>((config.wrap % 256) as u8)
                    &&& store.byte(start + 2) matches Ok(divider) && config.divider == (if divider
                        < 255 {
                        divider + 1
                    } else {
                        255
                    })
                    &&& store.byte(start + 3) == Ok::<u8, Error>((config.a_level / 256) as u8)
                    &&& store.byte(start + 4) == Ok::<u8, Error>((config.a_level % 256) as u8)
                    &&& store.byte(start + 5) == Ok::<u8, Error>((config.b_level / 256) as u8)
                    &&& store.byte(start + 6) == Ok::<u8, Error>((config.b_level % 256) as u8)
                },
                Ok(None) => false,
                Err(_) => exists|a: int| start <= a < start + 7 && #[trigger] store.byte(a) is Err,
            }
        },
        pwm_mask_of(store) matches Ok(mask) ==> {
            &&& store.byte(112) == Ok::<u8, Error>((mask / 16777216) as u8)
            &&& store.byte(113) == Ok::<u8, Error>((mask / 65536 % 256) as u8)
            &&& store.byte(114) == Ok::<u8, Error>((mask / 256 % 256) as u8)
            &&& store.byte(115) == Ok::<u8, Error>((mask % 256) as u8)
        },
{
    values_are_stored_in_order(store, 112);
    let start = pwm_slice_address(slice);
    values_are_stored_in_order(store, start);
    values_are_stored_in_order(store, start + 3);
    values_are_stored_in_order(store, start + 5);
    if slice < 8 && pwm_configuration_of(store, slice) is Err {
        assert(store.byte(start) is Err || store.byte(start + 1) is Err || store.byte(start + 2)
            is Err || store.byte(start + 3) is Err || store.byte(start + 4) is Err || store.byte(
            start + 5,
        ) is Err || store.byte(start + 6) is Err);
    }
}

/// A reset gives every variable its factory value, whatever the store held, and asks for nothing
/// else: one write of all 512 values, from variable 1 on, that is persisted in any case.
pub proof fn reset_is_one_forced_write(before: StoreModel, after: StoreModel, result: Result<
    (),
    Error,
>)
    requires
        attempted(before, after, factory_write(), result),
    ensures
        after.attempts.len() == before.attempts.len() + 1,
        after.attempts.drop_last() == before.attempts,
        after.attempts.last().write.start == 1,
        after.attempts.last().write.values.len() == 512,
        after.attempts.last().write.force,
        after.attempts.last().result == result,
        forall|a: int| a < 1 || a > 512 ==> #[trigger] after.byte(a) == before.byte(a),
        result is Ok ==> forall|a: int|
            1 <= a <= 512 ==> #[trigger] after.byte(a) == Ok::<u8, Error>(
                after.attempts.last().write.values[a - 1],
            ),
{
    assert(after.attempts.drop_last() =~= before.attempts);
}

/// An offset that was kept is found again, unless it is the greatest one, which stands for none; an
/// offset that was forgotten is not found. No other variable changes.
pub proof fn kept_offset_is_found(
    before: StoreModel,
    after: StoreModel,
    offset: Option<u8>,
    address: int,
)
    requires
        attempted(before, after, adc_offset_write(offset), Ok(())),
        offset != Some(255u8),
    ensures
        stored_adc_offset(after) == Ok::<Option<u8>, Error>(offset),
        address != 172 ==> after.byte(address) == before.byte(address),
{
    assert(adc_offset_write(offset).covers(172));
}

} // verus!
