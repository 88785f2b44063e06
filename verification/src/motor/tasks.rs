//! The decisions of the tasks that run the motor. Each task waits for something to happen,
//! decides what to do about it here, and does it.
use vstd::prelude::*;
use crate::motor::emf::Measurement;
use crate::motor::speed::accel::{self, Delay, Helper};
use crate::motor::speed::table::{SpeedTable, SPEED_TABLE_LEN};
use crate::motor::speed::{Controller, Decision, Mode, Speed};
use crate::motor::{Direction, SpeedStep, VelocitySetpoint};

verus! {

/// A command for the motor.
#[derive(Copy, Clone, Debug, PartialEq, Eq, Structural)]
pub enum Command {
    AcknowledgeCv,
    Reset,
    /// A 128 speed step velocity setpoint.
    SetVelocity128(VelocitySetpoint),
}

/// A back-EMF level to keep, and the direction to turn in.
#[derive(Copy, Clone, Debug, PartialEq, Eq, Structural)]
pub struct OutputLevel {
    pub dir: Direction,
    pub setpoint: u16,
}

/// Which tasks a command is for. A command for both goes to the acceleration task first.
#[derive(Copy, Clone, Debug, PartialEq, Eq, Structural)]
pub struct Recipients {
    pub accel_helper: bool,
    pub motor_controller: bool,
}

/// Which tasks a command is for: the motor task only sets a velocity that it is handed by the
/// acceleration task, which has nothing to do with acknowledgements.
pub open spec fn recipients_of(command: Command) -> Recipients {
    Recipients {
        accel_helper: !(command is AcknowledgeCv),
        motor_controller: !(command is SetVelocity128),
    }
}

/// Which tasks a command is for.
pub fn recipients(command: Command) -> (r: Recipients)
    ensures
        r == recipients_of(command),
{
    match command {
        Command::AcknowledgeCv => Recipients { accel_helper: false, motor_controller: true },
        Command::Reset => Recipients { accel_helper: true, motor_controller: true },
        Command::SetVelocity128(_) => Recipients { accel_helper: true, motor_controller: false },
    }
}

/// Every command is for at least one task, and a reset is for both.
pub proof fn every_command_has_a_recipient(command: Command)
    ensures
        recipients_of(command).accel_helper || recipients_of(command).motor_controller,
        command is Reset ==> recipients_of(command).accel_helper && recipients_of(
            command,
        ).motor_controller,
{
}

/// What the acceleration task waits for.
#[derive(Copy, Clone, Debug, PartialEq, Eq, Structural)]
pub enum AccelEvent {
    /// A command has come in.
    Command(Command),
    /// The delay that was asked for is over.
    DelayOver,
}

/// What the acceleration task does.
#[derive(Copy, Clone, Debug, PartialEq, Eq, Structural)]
pub enum AccelAction {
    /// Nothing; the delay goes on.
    Nothing,
    /// The delay is taken back.
    Disarm,
    /// Hand the level to the motor task, and wait for the delay.
    Signal(OutputLevel, Delay),
}

/// The level that belongs to a speed: the entry of the table for its speed step, or the last
/// entry if there is none for it.
pub open spec fn output_level_of(v: VelocitySetpoint, speed_table: Seq<u16>) -> OutputLevel {
    OutputLevel {
        dir: v.direction,
        setpoint: if v.speed_step.idx() < speed_table.len() {
            speed_table[v.speed_step.idx() as int]
        } else {
            speed_table.last()
        },
    }
}

/// Converts the velocity to an output level by indexing into the speed table.
pub fn to_output_level(v: VelocitySetpoint, speed_table: &SpeedTable) -> (r: OutputLevel)
    ensures
        r == output_level_of(v, speed_table@),
{
    let idx: usize = v.speed_step.idx() as usize;
    let last: usize = SPEED_TABLE_LEN - 1;
    let idx: usize = if idx < last {
        idx
    } else {
        last
    };
    OutputLevel { dir: v.direction, setpoint: speed_table[idx] }
}

/// The helper with a new target, if the event brings one.
pub open spec fn retargeted(helper: Helper, event: AccelEvent) -> Helper {
    match event {
        AccelEvent::Command(Command::SetVelocity128(v)) => Helper { target: v, ..helper },
        _ => helper,
    }
}

/// What an event does to the helper, and what the task does on it.
pub open spec fn accel_reaction(helper: Helper, speed_table: Seq<u16>, event: AccelEvent) -> (
    Helper,
    AccelAction,
) {
    match event {
        AccelEvent::Command(Command::AcknowledgeCv) => (helper, AccelAction::Nothing),
        AccelEvent::Command(Command::Reset) => (
            Helper {
                target: VelocitySetpoint {
                    speed_step: crate::motor::SpeedStep::Stop,
                    direction: Direction::Forward,
                },
                current: VelocitySetpoint {
                    speed_step: crate::motor::SpeedStep::Stop,
                    direction: Direction::Forward,
                },
                ..helper
            },
            AccelAction::Disarm,
        ),
        _ => {
            let h = retargeted(helper, event);
            let (setpoint, delay) = accel::step_result(
                h.config,
                h.current,
                h.target,
            );
            (
                Helper {
                    current: accel::next_state(h.config, h.current, h.target),
                    ..h
                },
                AccelAction::Signal(output_level_of(setpoint, speed_table), delay),
            )
        },
    }
}

/// One turn of the acceleration task.
pub fn on_accel_event(helper: &mut Helper, speed_table: &SpeedTable, event: AccelEvent) -> (r:
    AccelAction)
    ensures
        (*final(helper), r) == accel_reaction(*old(helper), speed_table@, event),
{
    match event {
        AccelEvent::Command(Command::AcknowledgeCv) => AccelAction::Nothing,
        AccelEvent::Command(Command::Reset) => {
            helper.reset();
            AccelAction::Disarm
        },
        AccelEvent::Command(Command::SetVelocity128(v)) => {
            helper.set_target(v);
            let (setpoint, delay) = helper.step();
            AccelAction::Signal(to_output_level(setpoint, speed_table), delay)
        },
        AccelEvent::DelayOver => {
            let (setpoint, delay) = helper.step();
            AccelAction::Signal(to_output_level(setpoint, speed_table), delay)
        },
    }
}

/// What the motor task waits for.
#[derive(Copy, Clone, Debug, PartialEq, Eq, Structural)]
pub enum MotorEvent {
    /// The acceleration task has handed over a level.
    Level(OutputLevel),
    /// A command has come in.
    Command(Command),
    /// The sample time of the controller is over.
    SampleTimeOver,
}

/// What the motor task does.
#[derive(Copy, Clone, Debug, PartialEq, Eq, Structural)]
pub enum MotorAction {
    /// Nothing; the sample time goes on.
    Nothing,
    /// Measure the motor and set its output for the level; whether that succeeds or not, wait
    /// for the sample time again.
    Drive(OutputLevel),
    /// Acknowledge with a pulse of the motor; wait for no sample time.
    Acknowledge,
    /// Stop the motor and reset the speed controller; wait for no sample time.
    Stop,
}

/// The motor task.
pub struct MotorTask {
    pub last_output_level: OutputLevel,
}

/// What an event does to the level that the motor task keeps, and what the task does on it.
pub open spec fn motor_reaction(last: OutputLevel, event: MotorEvent) -> (
    OutputLevel,
    MotorAction,
) {
    match event {
        MotorEvent::Level(level) => (level, MotorAction::Drive(level)),
        MotorEvent::Command(Command::AcknowledgeCv) => (last, MotorAction::Acknowledge),
        MotorEvent::Command(Command::Reset) => (last, MotorAction::Stop),
        MotorEvent::Command(Command::SetVelocity128(_)) => (last, MotorAction::Nothing),
        MotorEvent::SampleTimeOver => (last, MotorAction::Drive(last)),
    }
}

impl MotorTask {
    /// A task that has been handed no level yet.
    pub fn new() -> (r: MotorTask)
        ensures
            r.last_output_level == (OutputLevel { dir: Direction::Forward, setpoint: 0 }),
    {
        MotorTask { last_output_level: OutputLevel { dir: Direction::Forward, setpoint: 0 } }
    }

    /// One turn of the motor task.
    pub fn on_event(&mut self, event: MotorEvent) -> (r: MotorAction)
        ensures
            (final(self).last_output_level, r) == motor_reaction(
                old(self).last_output_level,
                event,
            ),
    {
        match event {
            MotorEvent::Level(level) => {
                // output level changed
                self.last_output_level = level;
                MotorAction::Drive(level)
            },
            // command received via a packet
            MotorEvent::Command(Command::AcknowledgeCv) => MotorAction::Acknowledge,
            MotorEvent::Command(Command::Reset) => MotorAction::Stop,
            // handled by the acceleration task
            MotorEvent::Command(Command::SetVelocity128(_)) => MotorAction::Nothing,
            // pid timer timeout
            MotorEvent::SampleTimeOver => MotorAction::Drive(self.last_output_level),
        }
    }
}

/// How the wait for the sample time goes on after an action.
#[derive(Copy, Clone, Debug, PartialEq, Eq, Structural)]
pub enum SampleTimer {
    /// It goes on as before.
    Keep,
    /// It starts anew.
    Restart,
    /// It does not end.
    Disarm,
}

/// How the wait for the sample time goes on after an action.
pub open spec fn sample_timer_of(action: MotorAction) -> SampleTimer {
    match action {
        MotorAction::Nothing => SampleTimer::Keep,
        MotorAction::Drive(_) => SampleTimer::Restart,
        MotorAction::Acknowledge => SampleTimer::Disarm,
        MotorAction::Stop => SampleTimer::Disarm,
    }
}

/// How the wait for the sample time goes on after an action.
pub fn sample_timer_after(action: MotorAction) -> (r: SampleTimer)
    ensures
        r == sample_timer_of(action),
{
    match action {
        MotorAction::Nothing => SampleTimer::Keep,
        MotorAction::Drive(_) => SampleTimer::Restart,
        MotorAction::Acknowledge => SampleTimer::Disarm,
        MotorAction::Stop => SampleTimer::Disarm,
    }
}

/// What the motor task sets the output to, once the motor has been measured.
#[derive(Copy, Clone, Debug, PartialEq, Eq, Structural)]
pub enum Drive {
    /// Leave the output as it is.
    Keep,
    /// Set the output to the given value.
    Output(u16, Direction),
    /// Set the output to 0, and let the PID controller forget its integral.
    Off(Direction),
    /// Set the output to what the PID controller computes for the setpoint, with the given
    /// feedforward value in units of 1/255.
    Pid(u16, u32, Direction),
}

/// What a decision of the speed controller means for the level that is asked for.
pub open spec fn drive_for(decision: Decision, level: OutputLevel) -> Drive {
    match decision {
        Decision::Off => Drive::Off(level.dir),
        Decision::Output(out) => Drive::Output(out, level.dir),
        Decision::Keep => Drive::Keep,
        Decision::Pid(ff) => Drive::Pid(level.setpoint, ff, level.dir),
    }
}

/// The state of the speed controller after the output has been decided on, and the decision.
pub open spec fn driven(state: Speed, bemf: Measurement, level: OutputLevel) -> (Speed, Drive) {
    (
        state.after(bemf, level.setpoint as u32),
        drive_for(state.decision(bemf, level.setpoint as u32), level),
    )
}

/// Decides on the output for the level, from the latest measurement.
pub fn drive(speed_control: &mut Controller, bemf: Measurement, level: OutputLevel) -> (r: Drive)
    ensures
        (final(speed_control)@, r) == driven(old(speed_control)@, bemf, level),
{
    match speed_control.compute(bemf, level.setpoint as u32) {
        Decision::Off => Drive::Off(level.dir),
        Decision::Output(out) => Drive::Output(out, level.dir),
        Decision::Keep => Drive::Keep,
        Decision::Pid(ff) => Drive::Pid(level.setpoint, ff, level.dir),
    }
}

/// One of the two motor outputs, with the level that it is set to.
#[derive(Copy, Clone, Debug, PartialEq, Eq, Structural)]
pub struct OutputSetting {
    pub output: Direction,
    pub level: u16,
}

/// The settings of the motor outputs that turn the motor in a direction, in the order in which
/// they are to be made.
pub open spec fn settings_for(pwm_level: u16, direction: Direction) -> Seq<OutputSetting> {
    let other = match direction {
        Direction::Forward => Direction::Reverse,
        Direction::Reverse => Direction::Forward,
    };
    seq![
        OutputSetting { output: other, level: 0 },
        OutputSetting { output: direction, level: pwm_level },
    ]
}

/// The settings of the motor outputs that turn the motor in a direction, in the order in which
/// they are to be made: the output of the other direction goes off before this one goes on.
pub fn motor_outputs(pwm_level: u16, direction: Direction) -> (r: [OutputSetting; 2])
    ensures
        r@ == settings_for(pwm_level, direction),
        r@.len() == 2,
        r@[0].output != direction,
        r@[0].level == 0,
        r@[1] == (OutputSetting { output: direction, level: pwm_level }),
{
    let other = match direction {
        Direction::Forward => Direction::Reverse,
        Direction::Reverse => Direction::Forward,
    };
    let r: [OutputSetting; 2] = [
        OutputSetting { output: other, level: 0 },
        OutputSetting { output: direction, level: pwm_level },
    ];
    assert(r@ =~= settings_for(pwm_level, direction));
    r
}

/// The direction of the pulse with which the next acknowledgement is given: the directions
/// take turns, so that the locomotive stays where it is.
pub fn after_acknowledgement(ack_dir: Direction) -> (r: Direction)
    ensures
        r != ack_dir,
{
    match ack_dir {
        Direction::Forward => Direction::Reverse,
        Direction::Reverse => Direction::Forward,
    }
}

/// A velocity that is asked for is reached if the task is left alone: every time the delay is
/// over the speed is closer to the target, and when there is no more delay the level that was
/// handed over last is the one of the target.
pub proof fn accel_task_reaches_target(helper: Helper, speed_table: Seq<u16>)
    ensures
        ({
            let (next, action) = accel_reaction(helper, speed_table, AccelEvent::DelayOver);
            &&& next.target == helper.target
            &&& next.config == helper.config
            &&& action is Signal
            &&& action->Signal_1 is Never ==> action->Signal_0 == output_level_of(
                helper.target,
                speed_table,
            )
            &&& !helper.current.equivalent(&helper.target)
                ==> accel::distance(next.current, helper.target)
                < accel::distance(helper.current, helper.target)
        }),
{
    accel::step_comes_closer(helper.config, helper.current, helper.target);
    accel::no_delay_exactly_at_target(
        helper.config,
        helper.current,
        helper.target,
    );
}

/// Between two levels that are handed over, the motor is driven for the first of them,
/// whatever commands come in.
pub proof fn level_is_kept(last: OutputLevel, event: MotorEvent)
    requires
        !(event is Level),
    ensures
        motor_reaction(last, event).0 == last,
        motor_reaction(last, event).1 is Drive ==> motor_reaction(last, event).1
            == MotorAction::Drive(last),
{
}

/// The level for a velocity turns the motor in the direction of that velocity, and is the entry of
/// the table at its speed: the first one for both stops, and the last one for speeds beyond the
/// table.
pub proof fn level_belongs_to_velocity(v: VelocitySetpoint, speed_table: Seq<u16>, speed: u8)
    requires
        speed_table.len() == 127,
        accel::asks_for(v.speed_step, speed),
    ensures
        output_level_of(v, speed_table).dir == v.direction,
        speed < 127 ==> output_level_of(v, speed_table).setpoint == speed_table[speed as int],
        speed >= 127 ==> output_level_of(v, speed_table).setpoint == speed_table[126],
{
}

/// Whenever the acceleration task hands over a level, it belongs to the velocity that the ramp has
/// reached by then: it turns the motor in that direction, and is the entry of the table at that
/// speed. When there is nothing more to wait for, that velocity is the target.
pub proof fn handed_over_level_belongs_to_the_ramp(
    helper: Helper,
    speed_table: Seq<u16>,
    event: AccelEvent,
    speed: u8,
)
    requires
        speed_table.len() == 127,
        accel_reaction(helper, speed_table, event).1 is Signal,
        accel::asks_for(accel_reaction(helper, speed_table, event).0.current.speed_step, speed),
    ensures
        ({
            let (next, action) = accel_reaction(helper, speed_table, event);
            let level = action->Signal_0;
            &&& level.dir == next.current.direction
            &&& speed < 127 ==> level.setpoint == speed_table[speed as int]
            &&& speed >= 127 ==> level.setpoint == speed_table[126]
            &&& action->Signal_1 is Never ==> {
                &&& level.dir == next.target.direction
                &&& accel::asks_for(next.target.speed_step, speed)
            }
        }),
{
    let h = retargeted(helper, event);
    accel::no_delay_exactly_at_target(h.config, h.current, h.target);
}

/// A velocity that is asked for becomes the target, and the way to it begins at once. An
/// acknowledgement is none of the task's business, a reset takes everything back, and when a delay
/// is over the way to the same target goes on. The configuration always stays.
pub proof fn acceleration_task_follows_commands(
    helper: Helper,
    speed_table: Seq<u16>,
    v: VelocitySetpoint,
)
    ensures
        ({
            let event = AccelEvent::Command(Command::SetVelocity128(v));
            let (next, action) = accel_reaction(helper, speed_table, event);
            &&& next.target == v
            &&& next.config == helper.config
            &&& action is Signal
            &&& accel_reaction(helper, speed_table, event) == accel_reaction(
                Helper { target: v, ..helper },
                speed_table,
                AccelEvent::DelayOver,
            )
        }),
        ({
            let event = AccelEvent::Command(Command::AcknowledgeCv);
            accel_reaction(helper, speed_table, event) == (helper, AccelAction::Nothing)
        }),
        ({
            let event = AccelEvent::Command(Command::Reset);
            let (next, action) = accel_reaction(helper, speed_table, event);
            &&& action == AccelAction::Disarm
            &&& next.config == helper.config
            &&& next.target == next.current
            &&& next.current.speed_step == SpeedStep::Stop
            &&& next.current.direction == Direction::Forward
        }),
        ({
            let (next, action) = accel_reaction(helper, speed_table, AccelEvent::DelayOver);
            &&& next.target == helper.target
            &&& next.config == helper.config
            &&& action is Signal
            &&& action->Signal_1 == accel::step_result(
                helper.config,
                helper.current,
                helper.target,
            ).1
            &&& next.current == accel::next_state(helper.config, helper.current, helper.target)
        }),
{
}

/// Without ramps, a velocity that is asked for is what the motor is driven with at once: its
/// direction, and the entry of the table at its speed; and there is nothing more to wait for.
pub proof fn velocity_without_ramps_takes_effect(
    helper: Helper,
    speed_table: Seq<u16>,
    v: VelocitySetpoint,
    speed: u8,
)
    requires
        helper.config.accel_rate == 0,
        helper.config.decel_rate == 0,
        speed_table.len() == 127,
        accel::asks_for(v.speed_step, speed),
        speed < 127,
    ensures
        accel_reaction(
            helper,
            speed_table,
            AccelEvent::Command(Command::SetVelocity128(v)),
        ).1 == AccelAction::Signal(
            (OutputLevel { dir: v.direction, setpoint: speed_table[speed as int] }),
            Delay::Never,
        ),
{
}

/// The motor is driven for the level that was handed over last, at once and whenever the sample time
/// is over, whatever commands came in between.
pub proof fn last_level_is_driven(last: OutputLevel, level: OutputLevel, command: Command)
    ensures
        ({
            let (kept, action) = motor_reaction(last, MotorEvent::Level(level));
            let (still_kept, _) = motor_reaction(kept, MotorEvent::Command(command));
            &&& action == MotorAction::Drive(level)
            &&& motor_reaction(kept, MotorEvent::SampleTimeOver) == (
                level,
                MotorAction::Drive(level),
            )
            &&& motor_reaction(still_kept, MotorEvent::SampleTimeOver) == (
                level,
                MotorAction::Drive(level),
            )
        }),
        motor_reaction(last, MotorEvent::Command(Command::Reset)).1 == MotorAction::Stop,
        motor_reaction(last, MotorEvent::Command(Command::AcknowledgeCv)).1
            == MotorAction::Acknowledge,
        command is SetVelocity128 ==> motor_reaction(last, MotorEvent::Command(command)).1
            == MotorAction::Nothing,
{
}

/// The sample time runs exactly while the motor is driven: driving starts it anew, stopping and
/// acknowledging end it, and what does nothing leaves it alone.
pub proof fn sample_time_runs_while_driving(last: OutputLevel, event: MotorEvent)
    ensures
        sample_timer_of(motor_reaction(last, event).1) == SampleTimer::Restart <==> event is Level
            || event is SampleTimeOver,
        sample_timer_of(motor_reaction(last, event).1) == SampleTimer::Keep <==> (event matches
            MotorEvent::Command(command) && command is SetVelocity128),
{
}

/// What the motor is set to always turns it in the direction of the level, and for a level of 0 it
/// is set to nothing: the output goes off. Otherwise the startup controller sets the output as long
/// as it is in charge, and from then on the PID controller does, for the setpoint of the level and
/// with what was handed over to it.
pub proof fn motor_is_driven_for_the_level(state: Speed, bemf: Measurement, level: OutputLevel)
    ensures
        ({
            let drive = driven(state, bemf, level).1;
            &&& match drive {
                Drive::Keep => true,
                Drive::Output(_, dir) => dir == level.dir,
                Drive::Off(dir) => dir == level.dir,
                Drive::Pid(_, _, dir) => dir == level.dir,
            }
            &&& drive is Off <==> level.setpoint == 0
            &&& level.setpoint != 0 ==> match state.mode {
                Mode::Pid(ff) => drive == Drive::Pid(level.setpoint, ff, level.dir),
                Mode::Startup => drive is Output || drive is Keep,
            }
            &&& level.setpoint != 0 && state.mode is Startup ==> match state.startup.result(
                bemf,
                state.adc_offset,
            ) {
                crate::motor::speed::startup::ComputeResult::Output(out) => drive == Drive::Output(
                    out,
                    level.dir,
                ),
                crate::motor::speed::startup::ComputeResult::Handover(_) => drive is Keep,
            }
        }),
        level.setpoint == 0 ==> driven(state, bemf, level).0 == state.stopped(),
        level.setpoint != 0 && state.mode is Pid ==> driven(state, bemf, level).0 == state,
        level.setpoint != 0 && state.mode is Startup ==> driven(state, bemf, level).0.startup
            == state.startup.after(bemf, state.adc_offset),
{
}

/// The levels of the forward and of the reverse output after a setting has been made.
pub open spec fn outputs_after(outputs: (u16, u16), setting: OutputSetting) -> (u16, u16) {
    match setting.output {
        Direction::Forward => (setting.level, outputs.1),
        Direction::Reverse => (outputs.0, setting.level),
    }
}

/// Whatever the outputs were at, after the settings the output of the direction is at the level and
/// the other one is off; and if the outputs were not both on before, they never are.
pub proof fn never_both_outputs_on(outputs: (u16, u16), pwm_level: u16, direction: Direction)
    ensures
        ({
            let settings = settings_for(pwm_level, direction);
            let between = outputs_after(outputs, settings[0]);
            let after = outputs_after(between, settings[1]);
            &&& settings.len() == 2
            &&& direction == Direction::Forward ==> after == (pwm_level, 0u16)
            &&& direction == Direction::Reverse ==> after == (0u16, pwm_level)
            &&& between.0 == 0 || between.1 == 0 || (outputs.0 != 0 && outputs.1 != 0)
            &&& after.0 == 0 || after.1 == 0
            &&& direction == Direction::Forward ==> between == (outputs.0, 0u16)
            &&& direction == Direction::Reverse ==> between == (0u16, outputs.1)
        }),
{
}

/// A velocity goes to the acceleration task alone, and an acknowledgement to the motor task alone.
pub proof fn commands_go_where_they_belong(command: Command)
    ensures
        command is SetVelocity128 ==> recipients_of(command).accel_helper && !recipients_of(
            command,
        ).motor_controller,
        command is AcknowledgeCv ==> !recipients_of(command).accel_helper && recipients_of(
            command,
        ).motor_controller,
{
}

/// Once the motor moves, the next time it is driven it is driven by the PID controller, with the
/// feed forward value that was handed over, and for the level that is asked for then.
pub proof fn pid_takes_over(
    state: Speed,
    bemf: Measurement,
    level: OutputLevel,
    next_bemf: Measurement,
    next_level: OutputLevel,
)
    requires
        state.mode is Startup,
        level.setpoint != 0,
        next_level.setpoint != 0,
        2 * (bemf.sum - state.adc_offset * bemf.count) >= 15 * bemf.count,
    ensures
        ({
            let (next, drive) = driven(state, bemf, level);
            &&& drive == Drive::Keep
            &&& state.startup.result(bemf, state.adc_offset) matches
                crate::motor::speed::startup::ComputeResult::Handover(ff)
            &&& driven(next, next_bemf, next_level).1 == Drive::Pid(
                next_level.setpoint,
                ff,
                next_level.dir,
            )
        }),
{
    crate::motor::speed::startup::hands_over_from_seven_and_a_half(
        state.startup,
        bemf,
        state.adc_offset,
    );
}

} // verus!
