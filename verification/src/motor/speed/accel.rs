//! Acceleration and deceleration: the way from the current speed to the requested one.
use vstd::prelude::*;
use crate::cv::store::{Error as StoreError, Store, StoreExt, StoreModel};
use crate::cv::Cv;
use crate::motor::{Direction, VelocitySetpoint};

pub use crate::motor::SpeedStep;

verus! {

/// A speed and direction to go to.
pub type SpeedTarget = VelocitySetpoint;

/// How long to wait before the next step.
#[derive(Copy, Clone, Debug, PartialEq, Eq, Structural)]
pub enum Delay {
    /// This many milliseconds.
    Millis(u64),
    /// Until there is a new target.
    Never,
}

/// How fast the speed changes.
#[derive(Copy, Clone, Debug, PartialEq, Eq, Structural)]
pub struct Config {
    /// Time per step up, in units of `loop_delay`; 0 jumps to the target. (CV3)
    pub accel_rate: u8,
    /// Time per step down, in units of `loop_delay`; 0 jumps to the target. (CV4)
    pub decel_rate: u8,
    /// The unit of the rates, in milliseconds. (CV175)
    pub loop_delay: u32,
}

impl Config {
    /// The configuration that a store holds.
    pub open spec fn stored(store: StoreModel) -> Result<Config, StoreError> {
        match (
            store.byte(Cv::AccelerationRate.number() as int),
            store.byte(Cv::DecelerationRate.number() as int),
            store.byte(Cv::SpeedStepPeriod.number() as int),
        ) {
            (Err(e), _, _) => Err(e),
            (_, Err(e), _) => Err(e),
            (_, _, Err(e)) => Err(e),
            (Ok(accel_rate), Ok(decel_rate), Ok(period)) => Ok(
                Config { accel_rate, decel_rate, loop_delay: period as u32 },
            ),
        }
    }

    /// Reads the configuration from the store.
    pub fn read<S: Store>(store: &S) -> (r: Result<Config, StoreError>)
        ensures
            r == Config::stored(store.view()),
    {
        let accel_rate: u8 = store.acceleration_rate()?;
        let decel_rate: u8 = store.deceleration_rate()?;
        let loop_delay: u32 = store.speed_step_period()? as u32;
        Ok(Config { accel_rate, decel_rate, loop_delay })
    }
}

/// The state from which the next step goes out. While the direction is the wrong one, the
/// speed has to come down first; at standstill, or if there is no deceleration rate, the
/// direction is switched.
pub open spec fn turned(config: Config, current: SpeedTarget, target: SpeedTarget) -> SpeedTarget {
    if current.direction != target.direction && (config.decel_rate == 0 || current.speed_step.idx()
        == 0) {
        SpeedTarget { speed_step: SpeedStep::Stop, direction: target.direction }
    } else {
        current
    }
}

/// Whether the next step goes up.
pub open spec fn accelerates(from: SpeedTarget, target: SpeedTarget) -> bool {
    from.speed_step.idx() < target.speed_step.idx() && from.direction == target.direction
}

/// The speed after one step from a state that is not the target yet.
pub open spec fn next_speed(config: Config, from: SpeedTarget, target: SpeedTarget) -> SpeedStep {
    let idx = from.speed_step.idx();
    if target.speed_step is EmergencyStop {
        SpeedStep::EmergencyStop
    } else if accelerates(from, target) {
        if config.accel_rate > 0 {
            SpeedStep::Num((idx + 1) as u8)
        } else {
            SpeedStep::Num(target.speed_step.idx())
        }
    } else if config.decel_rate > 0 {
        SpeedStep::Num(
            if idx > 0 {
                (idx - 1) as u8
            } else {
                0
            },
        )
    } else {
        SpeedStep::Num(target.speed_step.idx())
    }
}

/// The state after one step.
pub open spec fn next_state(
    config: Config,
    current: SpeedTarget,
    target: SpeedTarget,
) -> SpeedTarget {
    let from = turned(config, current, target);
    if current.equivalent(&target) {
        current
    } else {
        SpeedTarget { speed_step: next_speed(config, from, target), direction: from.direction }
    }
}

/// What a step gives: the speed to drive at, and the delay before the next step.
pub open spec fn step_result(config: Config, current: SpeedTarget, target: SpeedTarget) -> (
    SpeedTarget,
    Delay,
) {
    let next = next_state(config, current, target);
    if next.equivalent(&target) {
        (target, Delay::Never)
    } else if accelerates(turned(config, current, target), target) {
        (next, Delay::Millis((config.accel_rate * config.loop_delay) as u64))
    } else {
        (next, Delay::Millis((config.decel_rate * config.loop_delay) as u64))
    }
}

/// Moves the speed towards a target, step by step.
pub struct Helper {
    pub config: Config,
    pub target: SpeedTarget,
    pub current: SpeedTarget,
}

impl Helper {
    /// A helper at standstill.
    pub fn new(config: Config) -> (r: Helper)
        ensures
            r.config == config,
            r.target == (SpeedTarget {
                speed_step: SpeedStep::Stop,
                direction: Direction::Forward,
            }),
            r.current == r.target,
    {
        Helper { config, target: SpeedTarget::default(), current: SpeedTarget::default() }
    }

    /// Sets the new control target. Call [`Helper::step`] after calling this as the previously
    /// returned delay may no longer be valid.
    pub fn set_target(&mut self, target: SpeedTarget)
        ensures
            *final(self) == (Helper { target, ..*old(self) }),
    {
        self.target = target;
    }

    /// Returns to the startup state.
    pub fn reset(&mut self)
        ensures
            final(self).config == old(self).config,
            final(self).target == (SpeedTarget {
                speed_step: SpeedStep::Stop,
                direction: Direction::Forward,
            }),
            final(self).current == final(self).target,
    {
        self.target = SpeedTarget::default();
        self.current = SpeedTarget::default();
    }

    /// Calculates the new [`SpeedTarget`] after a single step.
    ///
    /// Returns the new target, and the delay before calling step again.
    pub fn step(&mut self) -> (r: (SpeedTarget, Delay))
        ensures
            *final(self) == (Helper {
                current: next_state(old(self).config, old(self).current, old(self).target),
                ..*old(self)
            }),
            r == step_result(old(self).config, old(self).current, old(self).target),
    {
        if self.current.equivalent(&self.target) {
            return (self.target, Delay::Never);
        }
        if self.current.direction != self.target.direction {
            // we are switching direction. We decelerate to zero, then switch
            // direction, and start accelerating normally.
            if self.config.decel_rate == 0 || self.current.speed_step.idx() == 0 {
                // there is either no deceleration rate, or we are already stopped - time to
                // switch direction
                self.current.speed_step = SpeedStep::Stop;
                self.current.direction = self.target.direction;
            }
        }
        let accelerating: bool = (self.current.speed_step.idx() < self.target.speed_step.idx())
            && self.current.direction == self.target.direction;
        self.current.speed_step =
        if let SpeedStep::EmergencyStop = self.target.speed_step {
            SpeedStep::EmergencyStop
        } else {
            let current_idx: u8 = self.current.speed_step.idx();
            if accelerating {
                SpeedStep::Num(
                    if self.config.accel_rate > 0 {
                        current_idx + 1
                    } else {
                        // there is no acceleration rate, so jump directly
                        // to the target
                        self.target.speed_step.idx()
                    },
                )
            } else {
                // we must be decelerating, or have just switched direction at standstill
                SpeedStep::Num(
                    if self.config.decel_rate > 0 {
                        current_idx.saturating_sub(1)
                    } else {
                        // There is no deceleration rate, jump directly
                        // to the target
                        self.target.speed_step.idx()
                    },
                )
            }
        };
        // if, after updating, we've reached the target, we're done!
        if self.current.equivalent(&self.target) {
            return (self.target, Delay::Never);
        }
        let rate: u8 = if accelerating {
            self.config.accel_rate
        } else {
            self.config.decel_rate
        };
        let ghost (rate_value, unit) = (rate as int, self.config.loop_delay as int);
        assert(0 <= rate_value * unit <= 255 * 0xffff_ffff) by (nonlinear_arith)
            requires
                0 <= rate_value <= 255,
                0 <= unit <= 0xffff_ffff,
        ;
        (self.current, Delay::Millis(rate as u64 * self.config.loop_delay as u64))
    }
}

/// How far the speed is from the target: the steps between them, by way of standstill if
/// the direction is the wrong one.
pub open spec fn distance(current: SpeedTarget, target: SpeedTarget) -> nat {
    let (c, t) = (current.speed_step.idx() as int, target.speed_step.idx() as int);
    if current.direction != target.direction {
        (c + t + 1) as nat
    } else if c < t {
        (t - c) as nat
    } else {
        (c - t) as nat
    }
}

/// Every step brings the speed closer to the target, so that the target is reached in at
/// most [`distance`] steps; there it stays.
pub proof fn step_comes_closer(config: Config, current: SpeedTarget, target: SpeedTarget)
    ensures
        current.equivalent(&target) <==> distance(current, target) == 0,
        current.equivalent(&target) ==> next_state(config, current, target) == current,
        !current.equivalent(&target) ==> distance(next_state(config, current, target), target)
            < distance(current, target),
{
}

/// The state after a number of steps.
pub open spec fn state_after(
    config: Config,
    current: SpeedTarget,
    target: SpeedTarget,
    steps: nat,
) -> SpeedTarget
    decreases steps,
{
    if steps == 0 {
        current
    } else {
        next_state(config, state_after(config, current, target, (steps - 1) as nat), target)
    }
}

/// The target is reached, and then kept, after as many steps as the distance to it.
pub proof fn target_is_reached(
    config: Config,
    current: SpeedTarget,
    target: SpeedTarget,
    steps: nat,
)
    ensures
        distance(state_after(config, current, target, steps), target) + steps <= distance(
            current,
            target,
        ) || state_after(config, current, target, steps).equivalent(&target),
        steps >= distance(current, target) ==> state_after(
            config,
            current,
            target,
            steps,
        ).equivalent(&target),
    decreases steps,
{
    step_comes_closer(config, state_after(config, current, target, steps), target);
    if steps > 0 {
        let before = (steps - 1) as nat;
        target_is_reached(config, current, target, before);
        step_comes_closer(config, state_after(config, current, target, before), target);
    }
}

/// With the direction unchanged, a step never goes past the target nor away from it.
pub proof fn step_never_overshoots(config: Config, current: SpeedTarget, target: SpeedTarget)
    requires
        current.direction == target.direction,
    ensures
        ({
            let next = next_state(config, current, target);
            let (c, n, t) = (
                current.speed_step.idx(),
                next.speed_step.idx(),
                target.speed_step.idx(),
            );
            &&& next.direction == current.direction
            &&& c <= t ==> c <= n <= t
            &&& c >= t ==> c >= n >= t
        }),
{
}

/// With a deceleration rate, the direction is only ever switched at standstill.
pub proof fn direction_switches_at_standstill(
    config: Config,
    current: SpeedTarget,
    target: SpeedTarget,
)
    requires
        config.decel_rate > 0,
        next_state(config, current, target).direction != current.direction,
    ensures
        current.speed_step.idx() == 0,
        next_state(config, current, target).direction == target.direction,
{
}

/// With both rates, the speed index changes by at most one per step, unless the target is an
/// emergency stop.
pub proof fn speed_changes_gradually(config: Config, current: SpeedTarget, target: SpeedTarget)
    requires
        config.accel_rate > 0,
        config.decel_rate > 0,
        !(target.speed_step is EmergencyStop),
    ensures
        -1 <= next_state(config, current, target).speed_step.idx() - current.speed_step.idx() <= 1,
{
}

/// An emergency stop takes effect in a single step, whatever the rates.
pub proof fn emergency_stop_is_immediate(
    config: Config,
    current: SpeedTarget,
    target: SpeedTarget,
)
    requires
        target.speed_step is EmergencyStop,
    ensures
        next_state(config, current, target).speed_step.idx() == 0,
        step_result(config, current, target).0.speed_step.idx() == 0,
{
}

/// There is nothing left to wait for exactly when the target has been reached, and then the
/// speed to drive at is the target.
pub proof fn no_delay_exactly_at_target(
    config: Config,
    current: SpeedTarget,
    target: SpeedTarget,
)
    ensures
        step_result(config, current, target).1 is Never <==> next_state(
            config,
            current,
            target,
        ).equivalent(&target),
        step_result(config, current, target).1 is Never ==> step_result(
            config,
            current,
            target,
        ).0 == target,
{
}

/// The time that passes with the delays of the first `steps` steps, in milliseconds.
pub open spec fn waited(
    config: Config,
    current: SpeedTarget,
    target: SpeedTarget,
    steps: nat,
) -> int
    decreases steps,
{
    if steps == 0 {
        0
    } else {
        let next = next_state(config, current, target);
        (match step_result(config, current, target).1 {
            Delay::Millis(ms) => ms as int,
            Delay::Never => 0,
        }) + waited(config, next, target, (steps - 1) as nat)
    }
}

/// How long it takes to reach a target in the same direction: as many times the rate as there
/// are steps between, less one as there is no delay after the last of them. Only the rate that is
/// used has to be there.
pub proof fn time_to_target(config: Config, current: SpeedTarget, target: SpeedTarget)
    requires
        current.speed_step.idx() < target.speed_step.idx() ==> config.accel_rate > 0,
        current.speed_step.idx() > target.speed_step.idx() ==> config.decel_rate > 0,
        current.direction == target.direction,
        current.speed_step.idx() != target.speed_step.idx(),
        !(target.speed_step is EmergencyStop),
    ensures
        waited(config, current, target, distance(current, target)) == (distance(current, target)
            - 1) * ((if current.speed_step.idx() < target.speed_step.idx() {
            config.accel_rate
        } else {
            config.decel_rate
        }) * config.loop_delay),
    decreases distance(current, target),
{
    let steps = distance(current, target);
    let next = next_state(config, current, target);
    let rate = if current.speed_step.idx() < target.speed_step.idx() {
        config.accel_rate
    } else {
        config.decel_rate
    };
    let delay = rate * config.loop_delay;
    assert(0 <= rate * config.loop_delay <= 255 * 0xffff_ffff) by (nonlinear_arith)
        requires
            0 <= rate <= 255,
            0 <= config.loop_delay <= 0xffff_ffff,
    ;
    assert(distance(next, target) == steps - 1);
    if steps == 1 {
        assert(waited(config, next, target, 0) == 0);
        assert(0 * delay == 0) by (nonlinear_arith);
    } else {
        time_to_target(config, next, target);
        assert((steps - 1) * delay == delay + (steps - 2) * delay) by (nonlinear_arith);
    }
}

/// Whether a speed step asks for the given speed: both stops ask for 0.
pub open spec fn asks_for(step: SpeedStep, speed: u8) -> bool {
    ||| step == SpeedStep::Num(speed)
    ||| step == SpeedStep::Stop && speed == 0
    ||| step == SpeedStep::EmergencyStop && speed == 0
}

/// With an acceleration rate, whatever the deceleration rate, the way up goes speed by speed: the
/// next speed is the one above, and it is kept for as many periods as the rate says, unless it is
/// the target.
pub proof fn goes_up_one_by_one(
    config: Config,
    current: SpeedTarget,
    target: SpeedTarget,
    speed: u8,
    asked: u8,
)
    requires
        config.accel_rate > 0,
        current.direction == target.direction,
        asks_for(current.speed_step, speed),
        target.speed_step == SpeedStep::Num(asked),
        speed < asked,
    ensures
        next_state(config, current, target) == (SpeedTarget {
            speed_step: SpeedStep::Num((speed + 1) as u8),
            direction: target.direction,
        }),
        asked == speed + 1 ==> step_result(config, current, target) == (target, Delay::Never),
        asked > speed + 1 ==> {
            &&& step_result(config, current, target).0 == next_state(config, current, target)
            &&& step_result(config, current, target).1 matches Delay::Millis(ms) && ms
                == config.accel_rate * config.loop_delay
        },
{
    lemma_delay_fits(config.accel_rate, config.loop_delay);
}

/// With a deceleration rate, whatever the acceleration rate, the way down goes speed by speed: the
/// next speed is the one below, and it is kept for as many periods as the rate says, unless it is
/// the target. As long as the direction is the wrong one the way goes down too, and the direction
/// stays as it is.
pub proof fn goes_down_one_by_one(
    config: Config,
    current: SpeedTarget,
    target: SpeedTarget,
    speed: u8,
    asked: u8,
)
    requires
        config.decel_rate > 0,
        asks_for(current.speed_step, speed),
        asks_for(target.speed_step, asked),
        target.speed_step != SpeedStep::EmergencyStop,
        speed > 0,
        current.direction == target.direction ==> speed > asked,
    ensures
        next_state(config, current, target) == (SpeedTarget {
            speed_step: SpeedStep::Num((speed - 1) as u8),
            direction: current.direction,
        }),
        asked == speed - 1 && current.direction == target.direction ==> step_result(
            config,
            current,
            target,
        ) == (target, Delay::Never),
        asked < speed - 1 || current.direction != target.direction ==> {
            &&& step_result(config, current, target).0 == next_state(config, current, target)
            &&& step_result(config, current, target).1 matches Delay::Millis(ms) && ms
                == config.decel_rate * config.loop_delay
        },
{
    lemma_delay_fits(config.decel_rate, config.loop_delay);
}

/// Without the rate that is needed, the target is reached at once: without an acceleration rate
/// on the way up, and without a deceleration rate on the way down.
pub proof fn jumps_without_rate(
    config: Config,
    current: SpeedTarget,
    target: SpeedTarget,
    speed: u8,
    asked: u8,
)
    requires
        current.direction == target.direction,
        asks_for(current.speed_step, speed),
        asks_for(target.speed_step, asked),
        speed < asked ==> config.accel_rate == 0,
        speed > asked ==> config.decel_rate == 0,
    ensures
        asks_for(next_state(config, current, target).speed_step, asked),
        next_state(config, current, target).direction == target.direction,
        step_result(config, current, target) == (target, Delay::Never),
{
}

/// A locomotive that stands, or that has no deceleration rate, turns round at once, and goes on
/// in the new direction as from standstill.
pub proof fn turns_round_as_from_standstill(
    config: Config,
    current: SpeedTarget,
    target: SpeedTarget,
)
    requires
        current.direction != target.direction,
        config.decel_rate == 0 || asks_for(current.speed_step, 0),
    ensures
        ({
            let standing = SpeedTarget {
                speed_step: SpeedStep::Stop,
                direction: target.direction,
            };
            &&& step_result(config, current, target) == step_result(config, standing, target)
            &&& next_state(config, current, target).direction == target.direction
            &&& next_state(config, current, target).speed_step.idx() == next_state(
                config,
                standing,
                target,
            ).speed_step.idx()
        }),
{
}

/// A target that has been reached is kept: nothing changes, and there is nothing to wait for.
pub proof fn reached_target_is_kept(
    config: Config,
    current: SpeedTarget,
    target: SpeedTarget,
    speed: u8,
)
    requires
        current.direction == target.direction,
        asks_for(current.speed_step, speed),
        asks_for(target.speed_step, speed),
    ensures
        next_state(config, current, target) == current,
        step_result(config, current, target) == (target, Delay::Never),
{
}

/// An emergency stop is handed on as an emergency stop in the very next step, from every state;
/// if the direction is the right one there is nothing to wait for then. A locomotive that moves in
/// the other direction, with a deceleration rate, keeps its direction for that step, and turns round
/// after the delay of a step down.
pub proof fn emergency_stop_is_handed_on(
    config: Config,
    current: SpeedTarget,
    target: SpeedTarget,
)
    requires
        target.speed_step == SpeedStep::EmergencyStop,
    ensures
        step_result(config, current, target).0.speed_step == SpeedStep::EmergencyStop,
        asks_for(next_state(config, current, target).speed_step, 0) || asks_for(
            current.speed_step,
            0,
        ),
        current.direction == target.direction ==> step_result(config, current, target) == (
            target,
            Delay::Never,
        ),
        current.direction != target.direction && config.decel_rate > 0 && !asks_for(
            current.speed_step,
            0,
        ) ==> {
            &&& step_result(config, current, target).0.direction == current.direction
            &&& next_state(config, current, target) == step_result(config, current, target).0
            &&& step_result(config, current, target).1 matches Delay::Millis(ms) && ms
                == config.decel_rate * config.loop_delay
        },
{
    lemma_delay_fits(config.decel_rate, config.loop_delay);
}

/// The rates and their unit are the variables 3, 4 and 175, and each of them counts on its own: if
/// they can be read they are what is configured, and an error is handed on.
pub proof fn rates_are_stored(store: StoreModel)
    ensures
        Config::stored(store) matches Ok(config) ==> {
            &&& store.byte(3) == Ok::<u8, StoreError>(config.accel_rate)
            &&& store.byte(4) == Ok::<u8, StoreError>(config.decel_rate)
            &&& config.loop_delay < 256
            &&& store.byte(175) == Ok::<u8, StoreError>(config.loop_delay as u8)
        },
        Config::stored(store) is Err <==> {
            ||| store.byte(3) is Err
            ||| store.byte(4) is Err
            ||| store.byte(175) is Err
        },
{
}

/// A delay fits 64 bits.
proof fn lemma_delay_fits(rate: u8, unit: u32)
    ensures
        0 <= rate * unit <= u64::MAX,
{
    assert(0 <= rate * unit <= 255 * 0xffff_ffff) by (nonlinear_arith)
        requires
            0 <= rate <= 255,
            0 <= unit <= 0xffff_ffff,
    ;
}

} // verus!
