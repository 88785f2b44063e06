use dcc_decoder::motor::emf::{cutoffs, sample_count, trimmed_measurement, Measurement};
use dcc_decoder::motor::speed::accel::{Config as AccelConfig, Delay, Helper};
use dcc_decoder::motor::speed::startup::{ComputeResult, Config as StartupConfig};
use dcc_decoder::motor::speed::startup::Controller as StartupController;
use dcc_decoder::motor::speed::table::{build, Config as TableConfig};
use dcc_decoder::motor::speed::{Config, Controller, Decision};
use dcc_decoder::motor::tasks::{
    after_acknowledgement, drive, motor_outputs, on_accel_event, recipients, sample_timer_after,
    to_output_level, AccelAction, AccelEvent, Command, Drive, MotorAction, MotorEvent,
    MotorTask, OutputLevel, OutputSetting, Recipients, SampleTimer,
};
use dcc_decoder::motor::{Direction, SpeedStep, VelocitySetpoint};

const STILL: Measurement = Measurement { sum: 30, count: 4 };
const MOVING: Measurement = Measurement { sum: 70, count: 4 };

#[test]
fn emf_sample_counts() {
    assert_eq!(sample_count(0), 1);
    assert_eq!(sample_count(1), 1);
    assert_eq!(sample_count(255), 255);
    assert_eq!(cutoffs(10, 3, 4), (3, 4));
    assert_eq!(cutoffs(7, 3, 4), (0, 0));
    assert_eq!(cutoffs(8, 3, 4), (3, 4));
}

#[test]
fn emf_samples_are_trimmed() {
    let mut samples = [50, 10, 1000, 20, 0, 30];
    let m = trimmed_measurement(&mut samples, 1, 2);
    assert_eq!(samples, [0, 10, 20, 30, 50, 1000]);
    assert_eq!(m, Measurement { sum: 10 + 20 + 30, count: 3 });

    let mut all = [65535u16; 255];
    let m = trimmed_measurement(&mut all, 200, 200);
    assert_eq!(m, Measurement { sum: 255 * 65535, count: 255 });

    let mut one = [7];
    assert_eq!(trimmed_measurement(&mut one, 0, 0), Measurement { sum: 7, count: 1 });
}

#[test]
fn startup_ramps_and_hands_over() {
    let config = StartupConfig { output_max: 5000, pid_ff: 200 };
    let mut controller = StartupController::new(config);
    // 30 / 4 is exactly 7.5, which is enough without an offset
    assert_eq!(controller.compute(STILL, 1), ComputeResult::Output(0));
    assert_eq!(controller.compute(STILL, 1), ComputeResult::Output(20));
    assert_eq!(controller.compute(STILL, 1), ComputeResult::Output(40));
    assert_eq!(controller.compute(STILL, 0), ComputeResult::Handover(200 * 60));
    // two thirds of what was needed the last time
    assert_eq!(controller.compute(STILL, 1), ComputeResult::Output(40));
    assert_eq!(controller.compute(STILL, 1), ComputeResult::Output(60));
    controller.reset();
    assert_eq!(controller.compute(STILL, 1), ComputeResult::Output(40));
}

#[test]
fn startup_starts_over_at_the_maximum() {
    let config = StartupConfig { output_max: 500, pid_ff: 255 };
    let mut controller = StartupController::new(config);
    for _ in 0..31 {
        controller.compute(STILL, 1);
    }
    assert_eq!(controller.compute(MOVING, 0), ComputeResult::Handover(255 * 62));
    assert_eq!(controller.compute(STILL, 1), ComputeResult::Output(41));
    let mut last = 41;
    loop {
        match controller.compute(STILL, 1) {
            ComputeResult::Output(out) => {
                assert!(out <= 500);
                if out < last {
                    // half of the level at which to start
                    assert_eq!(out, 20);
                    break;
                }
                assert_eq!(out, last + 2);
                last = out;
            }
            other => panic!("unexpected: {:?}", other),
        }
    }
    assert_eq!(last, 499);
}

#[test]
fn startup_remembers_sixteen_starts() {
    let config = StartupConfig { output_max: 65535, pid_ff: 1 };
    let mut controller = StartupController::new(config);
    controller.compute(STILL, 1);
    // the output is 262 now; each of the starts is found at two thirds of the mean
    assert_eq!(controller.compute(MOVING, 0), ComputeResult::Handover(262));
    assert_eq!(controller.compute(MOVING, 0), ComputeResult::Handover(174));
    assert_eq!(controller.compute(MOVING, 0), ComputeResult::Handover(145));
    for _ in 3..16 {
        controller.compute(MOVING, 0);
    }
    // the seventeenth still counts the first, and takes its place
    assert_eq!(controller.compute(MOVING, 0), ComputeResult::Handover(75));
    assert_eq!(controller.compute(MOVING, 0), ComputeResult::Handover(67));
}

#[test]
fn speed_controller_modes() {
    let config =
        Config { startup: StartupConfig { output_max: 5000, pid_ff: 255 }, adc_offset: 1 };
    let mut controller = Controller::new(config);
    assert_eq!(controller.compute(STILL, 100), Decision::Output(0));
    assert_eq!(controller.compute(STILL, 100), Decision::Output(20));
    assert_eq!(controller.compute(MOVING, 100), Decision::Keep);
    assert_eq!(controller.compute(STILL, 100), Decision::Pid(255 * 40));
    assert_eq!(controller.compute(MOVING, 100), Decision::Pid(255 * 40));
    assert_eq!(controller.compute(MOVING, 0), Decision::Off);
    assert_eq!(controller.compute(STILL, 100), Decision::Output(26));
    controller.compute(MOVING, 100);
    controller.reset();
    assert!(matches!(controller.compute(STILL, 100), Decision::Output(_)));
}

#[test]
fn drive_decisions() {
    let config =
        Config { startup: StartupConfig { output_max: 5000, pid_ff: 255 }, adc_offset: 0 };
    let mut controller = Controller::new(config);
    let level = OutputLevel { dir: Direction::Reverse, setpoint: 300 };
    let still = Measurement { sum: 7, count: 1 };
    assert_eq!(drive(&mut controller, still, level), Drive::Output(0, Direction::Reverse));
    assert_eq!(drive(&mut controller, MOVING, level), Drive::Keep);
    assert_eq!(
        drive(&mut controller, still, level),
        Drive::Pid(300, 255 * 20, Direction::Reverse)
    );
    let stop = OutputLevel { dir: Direction::Forward, setpoint: 0 };
    assert_eq!(drive(&mut controller, still, stop), Drive::Off(Direction::Forward));
}

#[test]
fn commands_are_routed() {
    let v = VelocitySetpoint::default();
    assert_eq!(
        recipients(Command::AcknowledgeCv),
        Recipients { accel_helper: false, motor_controller: true }
    );
    assert_eq!(
        recipients(Command::Reset),
        Recipients { accel_helper: true, motor_controller: true }
    );
    assert_eq!(
        recipients(Command::SetVelocity128(v)),
        Recipients { accel_helper: true, motor_controller: false }
    );
}

#[test]
fn speeds_are_looked_up() {
    let table = build(TableConfig { v_start: 10, v_mid: 50, v_high: 200 });
    let level = |n: u8| {
        to_output_level(VelocitySetpoint::new(SpeedStep::Num(n), Direction::Forward), &table)
            .setpoint
    };
    assert_eq!(level(0), 0);
    assert_eq!(level(1), 10);
    assert_eq!(level(126), 3200);
    assert_eq!(level(127), 3200);
    assert_eq!(level(255), 3200);
}

#[test]
fn acceleration_task() {
    let table = build(TableConfig { v_start: 10, v_mid: 50, v_high: 200 });
    let mut helper = Helper::new(AccelConfig { accel_rate: 2, decel_rate: 3, loop_delay: 7 });
    let v = VelocitySetpoint::new(SpeedStep::Num(2), Direction::Forward);
    let level = |n: usize| OutputLevel { dir: Direction::Forward, setpoint: table[n] };

    let ack = AccelEvent::Command(Command::AcknowledgeCv);
    assert_eq!(on_accel_event(&mut helper, &table, ack), AccelAction::Nothing);
    assert_eq!(
        on_accel_event(&mut helper, &table, AccelEvent::Command(Command::SetVelocity128(v))),
        AccelAction::Signal(level(1), Delay::Millis(14))
    );
    assert_eq!(
        on_accel_event(&mut helper, &table, AccelEvent::DelayOver),
        AccelAction::Signal(level(2), Delay::Never)
    );
    assert_eq!(
        on_accel_event(&mut helper, &table, AccelEvent::DelayOver),
        AccelAction::Signal(level(2), Delay::Never)
    );
    assert_eq!(
        on_accel_event(&mut helper, &table, AccelEvent::Command(Command::Reset)),
        AccelAction::Disarm
    );
    assert_eq!(helper.current, VelocitySetpoint::default());
}

#[test]
fn motor_task() {
    let mut task = MotorTask::new();
    let level = OutputLevel { dir: Direction::Reverse, setpoint: 300 };
    let standstill = OutputLevel { dir: Direction::Forward, setpoint: 0 };
    let velocity = Command::SetVelocity128(VelocitySetpoint::default());
    assert_eq!(task.on_event(MotorEvent::SampleTimeOver), MotorAction::Drive(standstill));
    assert_eq!(task.on_event(MotorEvent::Level(level)), MotorAction::Drive(level));
    assert_eq!(task.on_event(MotorEvent::SampleTimeOver), MotorAction::Drive(level));
    assert_eq!(task.on_event(MotorEvent::Command(velocity)), MotorAction::Nothing);
    assert_eq!(
        task.on_event(MotorEvent::Command(Command::AcknowledgeCv)),
        MotorAction::Acknowledge
    );
    assert_eq!(task.on_event(MotorEvent::Command(Command::Reset)), MotorAction::Stop);
    assert_eq!(task.last_output_level, level);

    assert_eq!(sample_timer_after(MotorAction::Nothing), SampleTimer::Keep);
    assert_eq!(sample_timer_after(MotorAction::Drive(level)), SampleTimer::Restart);
    assert_eq!(sample_timer_after(MotorAction::Acknowledge), SampleTimer::Disarm);
    assert_eq!(sample_timer_after(MotorAction::Stop), SampleTimer::Disarm);
}

#[test]
fn motor_turns_in_one_direction() {
    assert_eq!(
        motor_outputs(9, Direction::Forward),
        [
            OutputSetting { output: Direction::Reverse, level: 0 },
            OutputSetting { output: Direction::Forward, level: 9 },
        ]
    );
    assert_eq!(
        motor_outputs(9, Direction::Reverse),
        [
            OutputSetting { output: Direction::Forward, level: 0 },
            OutputSetting { output: Direction::Reverse, level: 9 },
        ]
    );
    assert_eq!(after_acknowledgement(Direction::Forward), Direction::Reverse);
    assert_eq!(after_acknowledgement(Direction::Reverse), Direction::Forward);
}
