//! What the PID controller works with: its parameters, and its inputs by setpoint.
use vstd::prelude::*;
use crate::cv::store::{Error as StoreError, Store, StoreExt, StoreModel};
use crate::cv::Cv;
use crate::motor::speed::gain::{self, Gain, Schedule, SETPOINT_UNIT};

verus! {

/// Parameters of the PID controller, in the units of the configuration variables.
#[derive(Copy, Clone, Debug, PartialEq, Eq, Structural)]
pub struct Config {
    /// Sample time, in milliseconds.
    pub sample_time: u8,
    /// Low-pass filter time constant used on the derivative term, in milliseconds.
    pub filter_tc: u8,
    /// Time-invariant integral gain, in tenths.
    pub ki: u8,
    /// Time-invariant derivative gain, in ten-thousandths.
    pub kd: u8,
    /// Maximum controller output (PWM top).
    pub output_max: u16,
    /// Gain scheduling parameters for the proportional gain, in hundredths.
    pub gain: gain::Config,
}

impl Config {
    /// The parameters that a store holds.
    pub open spec fn stored(store: StoreModel, output_max: u16, max_setpoint: u16) -> Result<
        Config,
        StoreError,
    > {
        match (
            store.byte(Cv::PidSampleTime.number() as int),
            store.byte(Cv::PidFilterTc.number() as int),
            store.byte(Cv::PidKi.number() as int),
            store.byte(Cv::PidKd.number() as int),
            gain::Config::stored(store, max_setpoint),
        ) {
            (Err(e), _, _, _, _) => Err(e),
            (_, Err(e), _, _, _) => Err(e),
            (_, _, Err(e), _, _) => Err(e),
            (_, _, _, Err(e), _) => Err(e),
            (_, _, _, _, Err(e)) => Err(e),
            (Ok(sample_time), Ok(filter_tc), Ok(ki), Ok(kd), Ok(gain)) => Ok(
                Config { sample_time, filter_tc, ki, kd, output_max, gain },
            ),
        }
    }

    /// Reads the parameters from the store.
    pub fn read<S: Store>(store: &S, output_max: u16, max_setpoint: u16) -> (r: Result<
        Config,
        StoreError,
    >)
        ensures
            r == Config::stored(store.view(), output_max, max_setpoint),
    {
        let sample_time: u8 = store.pid_sample_time()?;
        let filter_tc: u8 = store.pid_filter_tc()?;
        let ki: u8 = store.pid_ki()?;
        let kd: u8 = store.pid_kd()?;
        let gain = gain::Config::read(store, max_setpoint)?;
        Ok(Config { sample_time, filter_tc, ki, kd, output_max, gain })
    }
}

/// What is handed to the PID controller for a setpoint.
#[derive(Copy, Clone, Debug, PartialEq, Eq, Structural)]
pub struct Inputs {
    /// The setpoint, at most the maximal one.
    pub setpoint: u16,
    /// The proportional gain, in hundredths.
    pub kp: Gain,
}

/// What is handed to the PID controller for a setpoint.
pub open spec fn inputs_for(config: gain::Config, setpoint: u16) -> Inputs {
    let sp = if setpoint <= config.max_setpoint {
        setpoint
    } else {
        config.max_setpoint
    };
    Inputs { setpoint: sp, kp: Schedule::of(config).kp((sp * SETPOINT_UNIT) as i32) }
}

/// The gain scheduling of a PID controller.
pub struct Scheduler {
    config: gain::Config,
    schedule: Schedule,
}

impl Scheduler {
    #[verifier::type_invariant]
    spec fn scheduled(self) -> bool {
        self.schedule == Schedule::of(self.config)
    }

    /// The configuration of the gain scheduling.
    pub closed spec fn config(&self) -> gain::Config {
        self.config
    }

    /// Precomputes the schedule.
    pub fn new(config: gain::Config) -> (r: Scheduler)
        ensures
            r.config() == config,
    {
        Scheduler { config, schedule: Schedule::new(config) }
    }

    /// Limits the setpoint, and finds the proportional gain for it.
    pub fn inputs(&self, setpoint: u16) -> (r: Inputs)
        ensures
            r == inputs_for(self.config(), setpoint),
    {
        proof {
            use_type_invariant(self);
        }
        let sp: u16 = if setpoint <= self.config.max_setpoint {
            setpoint
        } else {
            self.config.max_setpoint
        };
        Inputs { setpoint: sp, kp: self.schedule.kp_for_setpoint(sp as i32 * SETPOINT_UNIT) }
    }
}

/// With positive gains configured, the gain for every setpoint is positive, as the PID
/// controller asks of it.
pub proof fn gain_is_positive(config: gain::Config, setpoint: u16)
    requires
        config.kp_y0 >= 1,
        config.kp_y1 >= 1,
        config.kp_y2 >= 1,
    ensures
        inputs_for(config, setpoint).kp.den > 0,
        inputs_for(config, setpoint).kp.num > 0,
        inputs_for(config, setpoint).setpoint <= config.max_setpoint,
{
    let sp = inputs_for(config, setpoint).setpoint;
    gain::gain_between_nodes(config, (sp * SETPOINT_UNIT) as i32, 1, 65535);
}

/// The setpoint is handed on as it is up to the maximal one, and every greater one is treated as
/// that one; the gain goes in a straight line from its first value at standstill to its second one
/// where it bends, and in another one from there to its third one at the maximal setpoint.
pub proof fn inputs_follow_the_schedule(config: gain::Config, setpoint: u16)
    ensures
        setpoint <= config.max_setpoint ==> inputs_for(config, setpoint).setpoint == setpoint,
        setpoint > config.max_setpoint ==> inputs_for(config, setpoint) == inputs_for(
            config,
            config.max_setpoint,
        ),
        setpoint <= config.max_setpoint ==> {
            let bend = config.max_setpoint * config.kp_gain_range1_end;
            let top = config.max_setpoint * 255;
            let at = setpoint * 255;
            let kp = inputs_for(config, setpoint).kp;
            &&& kp.den > 0
            &&& at <= bend ==> kp.num * bend == (config.kp_y0 * (bend - at) + config.kp_y1 * at)
                * kp.den
            &&& at >= bend ==> kp.num * (top - bend) == (config.kp_y1 * (top - at) + config.kp_y2
                * (at - bend)) * kp.den
        },
{
    if setpoint <= config.max_setpoint {
        gain::gain_is_piecewise_linear(config, (setpoint * 255) as i32);
    }
}

/// The parameters are the variables 49, 48, 50 and 51, besides those of the gain scheduling; the
/// limits are the ones that are asked for.
pub proof fn parameters_are_stored(store: StoreModel, output_max: u16, max_setpoint: u16)
    ensures
        Config::stored(store, output_max, max_setpoint) matches Ok(config) ==> {
            &&& store.byte(49) == Ok::<u8, StoreError>(config.sample_time)
            &&& store.byte(48) == Ok::<u8, StoreError>(config.filter_tc)
            &&& store.byte(50) == Ok::<u8, StoreError>(config.ki)
            &&& store.byte(51) == Ok::<u8, StoreError>(config.kd)
            &&& config.output_max == output_max
            &&& gain::Config::stored(store, max_setpoint) == Ok::<gain::Config, StoreError>(
                config.gain,
            )
        },
        Config::stored(store, output_max, max_setpoint) is Err <==> {
            ||| exists|a: int| 48 <= a <= 51 && #[trigger] store.byte(a) is Err
            ||| gain::Config::stored(store, max_setpoint) is Err
        },
{
    if Config::stored(store, output_max, max_setpoint) is Err {
        assert(store.byte(48) is Err || store.byte(49) is Err || store.byte(50) is Err
            || store.byte(51) is Err || gain::Config::stored(store, max_setpoint) is Err);
    }
}

} // verus!
