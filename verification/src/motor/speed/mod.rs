//! From a requested speed to the output for the motor.
use vstd::prelude::*;
use crate::motor::emf::Measurement;
use crate::motor::speed::startup::{ComputeResult, Startup};

pub mod accel;
pub mod gain;
pub mod pid;
pub mod startup;
pub mod table;

verus! {

/// Configuration of the speed controller.
#[derive(Copy, Clone, Debug, PartialEq, Eq, Structural)]
pub struct Config {
    pub startup: startup::Config,
    /// Offset to correct the measured voltage.
    pub adc_offset: u8,
}

/// Which of the two controllers is active.
#[derive(Copy, Clone, Debug, PartialEq, Eq, Structural)]
pub enum Mode {
    /// The startup controller gets the motor moving.
    Startup,
    /// PID controller is active, with the specified feedforward value, in units of 1/255.
    Pid(u32),
}

/// What to do about the output.
#[derive(Copy, Clone, Debug, PartialEq, Eq, Structural)]
pub enum Decision {
    /// Turn the output off, and let the PID controller forget its integral.
    Off,
    /// Set the output to the given value.
    Output(u16),
    /// Leave the output as it is.
    Keep,
    /// Set the output to what the PID controller computes, with the given feedforward value
    /// in units of 1/255.
    Pid(u32),
}

/// The state of a speed controller.
pub struct Speed {
    pub adc_offset: u8,
    pub mode: Mode,
    pub startup: Startup,
}

impl Speed {
    /// The state at power-up.
    pub open spec fn fresh(config: Config) -> Speed {
        Speed {
            adc_offset: config.adc_offset,
            mode: Mode::Startup,
            startup: Startup::fresh(config.startup),
        }
    }

    /// The state after a reset.
    pub open spec fn stopped(self) -> Speed {
        Speed { mode: Mode::Startup, startup: Startup { output: 0, ..self.startup }, ..self }
    }

    /// The state after a computation.
    pub open spec fn after(self, measurement: Measurement, setpoint: u32) -> Speed {
        if setpoint == 0 {
            self.stopped()
        } else if self.mode is Startup {
            Speed {
                mode: match self.startup.result(measurement, self.adc_offset) {
                    ComputeResult::Output(_) => Mode::Startup,
                    ComputeResult::Handover(ff) => Mode::Pid(ff),
                },
                startup: self.startup.after(measurement, self.adc_offset),
                ..self
            }
        } else {
            self
        }
    }

    /// The decision of a computation.
    pub open spec fn decision(self, measurement: Measurement, setpoint: u32) -> Decision {
        if setpoint == 0 {
            Decision::Off
        } else {
            match self.mode {
                Mode::Startup => match self.startup.result(measurement, self.adc_offset) {
                    ComputeResult::Output(out) => Decision::Output(out),
                    ComputeResult::Handover(_) => Decision::Keep,
                },
                Mode::Pid(ff) => Decision::Pid(ff),
            }
        }
    }
}

/// Chooses between the startup controller and the PID controller.
pub struct Controller {
    adc_offset: u8,
    mode: Mode,
    startup: startup::Controller,
}

impl View for Controller {
    type V = Speed;

    closed spec fn view(&self) -> Speed {
        Speed { adc_offset: self.adc_offset, mode: self.mode, startup: self.startup@ }
    }
}

impl Controller {
    /// A controller at standstill.
    pub fn new(config: Config) -> (r: Controller)
        ensures
            r@ == Speed::fresh(config),
    {
        Controller {
            adc_offset: config.adc_offset,
            mode: Mode::Startup,
            startup: startup::Controller::new(config.startup),
        }
    }

    /// Resets the controller. The PID controller is to be reset as well.
    ///
    /// Eg: when stopping / changing directions
    pub fn reset(&mut self)
        ensures
            final(self)@ == old(self)@.stopped(),
    {
        self.startup.reset();
        self.mode = Mode::Startup;
    }

    /// Decides on the output, from the latest measured level and the level that is asked for.
    pub fn compute(&mut self, measurement: Measurement, setpoint: u32) -> (r: Decision)
        ensures
            final(self)@ == old(self)@.after(measurement, setpoint),
            r == old(self)@.decision(measurement, setpoint),
    {
        if setpoint == 0 {
            self.reset();
            return Decision::Off;
        }
        match self.mode {
            Mode::Startup => match self.startup.compute(measurement, self.adc_offset) {
                ComputeResult::Output(out) => Decision::Output(out),
                ComputeResult::Handover(ff) => {
                    self.mode = Mode::Pid(ff);
                    Decision::Keep
                },
            },
            Mode::Pid(ff) => Decision::Pid(ff),
        }
    }
}

/// The PID controller is used exactly from the computation after the handover on, up to the
/// next stop: a computation with a setpoint switches to it exactly when the motor moves, and
/// once it is in use only a setpoint of 0 takes it out of use.
pub proof fn pid_from_handover_to_stop(state: Speed, measurement: Measurement, setpoint: u32)
    ensures
        state.after(measurement, setpoint).mode is Pid <==> {
            &&& setpoint != 0
            &&& state.mode is Pid || startup::moving(measurement, state.adc_offset)
        },
        state.mode is Pid && setpoint != 0 ==> state.after(measurement, setpoint) == state,
        state.decision(measurement, setpoint) is Pid <==> setpoint != 0 && state.mode is Pid,
        state.decision(measurement, setpoint) is Off <==> setpoint == 0,
{
}

/// A stop leaves what was learned of the motor in place.
pub proof fn stop_keeps_known_starts(state: Speed, measurement: Measurement)
    ensures
        state.after(measurement, 0).startup.starts == state.startup.starts,
        state.after(measurement, 0).mode is Startup,
        state.after(measurement, 0).startup.output == 0,
{
}

/// From the computation on in which the motor moves, the PID controller is used with what was
/// handed over in that computation, which itself leaves the output as it is; until then the output
/// is what the startup controller says. Whether the motor moves is judged with the offset of the
/// configuration.
pub proof fn startup_until_the_motor_moves(
    config: Config,
    state: Speed,
    measurement: Measurement,
    setpoint: u32,
    next_measurement: Measurement,
    next_setpoint: u32,
)
    requires
        state.mode is Startup,
        setpoint != 0,
        next_setpoint != 0,
    ensures
        ({
            let moves = 2 * (measurement.sum - state.adc_offset * measurement.count) >= 15
                * measurement.count;
            let next = state.after(measurement, setpoint);
            match state.startup.result(measurement, state.adc_offset) {
                ComputeResult::Handover(ff) => {
                    &&& moves
                    &&& state.decision(measurement, setpoint) == Decision::Keep
                    &&& next.decision(next_measurement, next_setpoint) == Decision::Pid(ff)
                },
                ComputeResult::Output(out) => {
                    &&& !moves
                    &&& state.decision(measurement, setpoint) == Decision::Output(out)
                    &&& next.mode is Startup
                },
            }
        }),
        state.after(measurement, setpoint).startup == state.startup.after(
            measurement,
            state.adc_offset,
        ),
        state.after(measurement, setpoint).adc_offset == state.adc_offset,
        Speed::fresh(config).adc_offset == config.adc_offset,
        Speed::fresh(config).startup == Startup::fresh(config.startup),
        Speed::fresh(config).mode is Startup,
{
    startup::hands_over_from_seven_and_a_half(state.startup, measurement, state.adc_offset);
}

/// A setpoint of 0 turns the motor off, whatever the state: the next setpoint that is not 0 finds
/// the startup controller at its beginning, with all that it knows of the motor.
pub proof fn zero_setpoint_starts_over(
    state: Speed,
    measurement: Measurement,
    next_measurement: Measurement,
    next_setpoint: u32,
)
    requires
        next_setpoint != 0,
    ensures
        state.decision(measurement, 0) == Decision::Off,
        ({
            let start = Startup { output: 0, ..state.startup };
            match start.result(next_measurement, state.adc_offset) {
                ComputeResult::Output(out) => state.after(measurement, 0).decision(
                    next_measurement,
                    next_setpoint,
                ) == Decision::Output(out),
                ComputeResult::Handover(_) => state.after(measurement, 0).decision(
                    next_measurement,
                    next_setpoint,
                ) == Decision::Keep,
            }
        }),
{
}

} // verus!
