//! The startup controller, which gets the motor moving.
use vstd::prelude::*;
use crate::math;
use crate::motor::emf::Measurement;

verus! {

/// How many outputs at which the motor started moving are remembered.
pub const BASE_PWM_ARR_LEN: usize = 16;

/// Twice the corrected measured level from which on the motor counts as moving, which is
/// seven and a half.
pub const CONTROLLER_HANDOVER_TWICE: u32 = 15;

/// Configuration of the startup controller.
#[derive(Copy, Clone, Debug, PartialEq, Eq, Structural)]
pub struct Config {
    /// Maximum controller output (PWM top).
    pub output_max: u16,
    /// The PID feed forward factor, in units of 1/255.
    ///
    /// Used to scale the output when the motor started moving.
    pub pid_ff: u8,
}

/// Result of a computation
#[derive(Copy, Clone, Debug, PartialEq, Eq, Structural)]
pub enum ComputeResult {
    /// Set the output to the given value.
    Output(u16),
    /// Handover control to the PID controller, using the specified value as the feed forward
    /// value, in units of 1/255.
    Handover(u32),
}

/// The level at which to start, from the outputs at which the motor started moving before:
/// two thirds of the mean of those that are known, the others being 0.
pub open spec fn initial_level(starts: Seq<u16>) -> int {
    let known = starts.filter(|v: u16| v > 0);
    if known.len() == 0 {
        0
    } else {
        math::sum(known) as int / known.len() as int * 2 / 3
    }
}

/// Whether the motor moves: the mean level, less the offset of the measurement, has reached
/// the handover level.
pub open spec fn moving(measurement: Measurement, adc_offset: u8) -> bool {
    2 * measurement.sum >= (2 * adc_offset + CONTROLLER_HANDOVER_TWICE) * measurement.count
}

/// The state of a startup controller.
pub struct Startup {
    pub config: Config,
    /// The outputs at which the motor started moving, with 0 for those not known yet.
    pub starts: Seq<u16>,
    /// Where the next such output goes.
    pub next: int,
    /// The output to set next; 0 to start over.
    pub output: u16,
}

impl Startup {
    /// The state at power-up.
    pub open spec fn fresh(config: Config) -> Startup {
        Startup {
            config,
            starts: Seq::new(BASE_PWM_ARR_LEN as nat, |i: int| 0u16),
            next: 0,
            output: 0,
        }
    }

    /// The output of the next computation, or the one at which the motor started moving.
    pub open spec fn level(self) -> u16 {
        if self.output == 0 {
            initial_level(self.starts) as u16
        } else {
            self.output
        }
    }

    /// The output after the next one: a little more, or once the maximum is passed half of
    /// the level at which to start.
    pub open spec fn raised(self) -> u16 {
        let more = self.level() + self.config.output_max / 250;
        if more > self.config.output_max {
            (initial_level(self.starts) / 2) as u16
        } else {
            more as u16
        }
    }

    /// The state after a computation.
    pub open spec fn after(self, measurement: Measurement, adc_offset: u8) -> Startup {
        if moving(measurement, adc_offset) {
            Startup {
                starts: self.starts.update(self.next, self.level()),
                next: (self.next + 1) % (BASE_PWM_ARR_LEN as int),
                output: 0,
                ..self
            }
        } else {
            Startup { output: self.raised(), ..self }
        }
    }

    /// The result of a computation.
    pub open spec fn result(self, measurement: Measurement, adc_offset: u8) -> ComputeResult {
        if moving(measurement, adc_offset) {
            ComputeResult::Handover((self.config.pid_ff * self.level()) as u32)
        } else {
            ComputeResult::Output(self.level())
        }
    }

    /// There is a place for the next output to remember, and no output, nor any that is
    /// remembered, is above the maximum.
    pub open spec fn wf(self) -> bool {
        &&& self.starts.len() == BASE_PWM_ARR_LEN
        &&& 0 <= self.next < BASE_PWM_ARR_LEN
        &&& self.output <= self.config.output_max
        &&& forall|i: int|
            0 <= i < self.starts.len() ==> #[trigger] self.starts[i] <= self.config.output_max
    }
}

/// A controller that quickly ramps up the output to overcome the friction of the motor.
///
/// This controller doesn't consider the target setpoint; its only goal is to get the motor
/// moving.
pub struct Controller {
    config: Config,
    /// A buffer that stores the output value at which the handover target was reached.
    prev_start_output: [u16; 16],
    buf_write_idx: usize,
    /// current output
    output: u16,
}

impl View for Controller {
    type V = Startup;

    closed spec fn view(&self) -> Startup {
        Startup {
            config: self.config,
            starts: self.prev_start_output@,
            next: self.buf_write_idx as int,
            output: self.output,
        }
    }
}

/// What is known of the outputs at which the motor started moving is bounded, and so is their
/// mean.
proof fn lemma_initial_level(starts: Seq<u16>, high: u16)
    requires
        forall|i: int| 0 <= i < starts.len() ==> #[trigger] starts[i] <= high,
    ensures
        0 <= initial_level(starts) <= high,
{
    let pred = |v: u16| v > 0;
    let known = starts.filter(pred);
    if known.len() > 0 {
        assert forall|i: int| 0 <= i < starts.len() implies 0 <= #[trigger] starts[i] <= high by {}
        math::lemma_filter(starts, pred, 0, high as int);
        math::lemma_mean_bounds(known, 0, high as int);
        assert(math::mean(known) == math::sum(known) as int / known.len() as int);
    }
}

impl Controller {
    #[verifier::type_invariant]
    spec fn inside_buffer(self) -> bool {
        self.buf_write_idx < BASE_PWM_ARR_LEN
    }

    /// A controller that knows nothing of the motor yet.
    pub fn new(config: Config) -> (r: Controller)
        ensures
            r@ == Startup::fresh(config),
    {
        let r = Controller {
            config,
            prev_start_output: [0u16;16],
            buf_write_idx: 0,
            output: 0,
        };
        assert(r.prev_start_output@ =~= Startup::fresh(config).starts);
        r
    }

    /// Calculates the initial startup level by averaging the set base pwm values.
    fn get_initial_level(&self) -> (r: u16)
        ensures
            r == initial_level(self@.starts),
    {
        let ghost starts = self.prev_start_output@;
        let ghost pred = |v: u16| v > 0;
        let mut sum: u32 = 0;
        let mut cnt: u32 = 0;
        let mut i: usize = 0;
        while i < BASE_PWM_ARR_LEN
            invariant
                i <= BASE_PWM_ARR_LEN,
                starts == self.prev_start_output@,
                pred == (|v: u16| v > 0),
                sum == math::sum(starts.take(i as int).filter(pred)),
                cnt == starts.take(i as int).filter(pred).len(),
                sum <= 65535 * i,
                cnt <= i,
            decreases BASE_PWM_ARR_LEN - i,
        {
            let v: u16 = self.prev_start_output[i];
            proof {
                let shorter = starts.take(i as int);
                let longer = starts.take(i + 1);
                assert(longer.drop_last() =~= shorter);
                assert(longer.last() == v);
                reveal(Seq::filter);
                assert(shorter.filter(pred).push(v).drop_last() =~= shorter.filter(pred));
            }
            if v > 0 {
                sum = sum + v as u32;
                cnt = cnt + 1;
            }
            i = i + 1;
        }
        proof {
            assert(starts.take(i as int) =~= starts);
            assert(starts.filter(pred) == starts.filter(|v: u16| v > 0));
            lemma_initial_level(starts, 65535);
            let known = starts.filter(pred);
            if known.len() > 0 {
                assert forall|k: int| 0 <= k < known.len() implies 0 <= #[trigger] known[k]
                    <= 65535 by {}
                math::lemma_mean_bounds(known, 0, 65535);
            }
        }
        if cnt != 0 {
            (sum / cnt * 2 / 3) as u16
        } else {
            0
        }
    }

    /// Reset the controller.
    ///
    /// Useful on direction changes or when stopping.
    pub fn reset(&mut self)
        ensures
            final(self)@ == (Startup { output: 0, ..old(self)@ }),
    {
        proof {
            use_type_invariant(&*self);
        }
        self.output = 0;
    }

    /// Computes the next output from the latest measured back emf value, which is to be
    /// corrected for the ADC offset.
    pub fn compute(&mut self, measurement: Measurement, adc_offset: u8) -> (r: ComputeResult)
        ensures
            final(self)@ == old(self)@.after(measurement, adc_offset),
            r == old(self)@.result(measurement, adc_offset),
    {
        proof {
            use_type_invariant(&*self);
        }
        let ghost before = self@;
        let initial: u16 = self.get_initial_level();
        let output: u16 = if self.output == 0 {
            initial
        } else {
            self.output
        };
        let ghost (offset, count) = (adc_offset as int, measurement.count as int);
        assert(0 <= (2 * offset + 15) * count <= 525 * 0xffff_ffff) by (nonlinear_arith)
            requires
                0 <= offset <= 255,
                0 <= count <= 0xffff_ffff,
        ;
        let threshold: u64 = (2 * (adc_offset as u64) + CONTROLLER_HANDOVER_TWICE as u64)
            * measurement.count as u64;
        if 2 * (measurement.sum as u64) < threshold {
            // calculate the new output level for the next iteration
            let more: u32 = output as u32 + (self.config.output_max / 250) as u32;
            self.output =
            if more > self.config.output_max as u32 {
                // Try again with half value...
                initial / 2
            } else {
                more as u16
            };
            ComputeResult::Output(output)
        } else {
            // we've reached the handover target, save the current output in the buffer for
            // next time
            let idx: usize = self.buf_write_idx;
            let mut outputs: [u16; 16] = self.prev_start_output;
            outputs[idx] = output;
            self.prev_start_output = outputs;
            self.buf_write_idx = (idx + 1) % BASE_PWM_ARR_LEN;
            self.output = 0;
            let ghost (ff, out) = (self.config.pid_ff as int, output as int);
            assert(0 <= ff * out <= 255 * 65535) by (nonlinear_arith)
                requires
                    0 <= ff <= 255,
                    0 <= out <= 65535,
            ;
            ComputeResult::Handover(self.config.pid_ff as u32 * output as u32)
        }
    }
}

/// The output never exceeds the configured maximum: it does not at power-up, no computation
/// changes that, and no result holds more.
pub proof fn output_stays_limited(
    config: Config,
    state: Startup,
    measurement: Measurement,
    adc_offset: u8,
)
    requires
        state.wf(),
    ensures
        Startup::fresh(config).wf(),
        state.after(measurement, adc_offset).wf(),
        state.result(measurement, adc_offset) matches ComputeResult::Output(out) ==> out
            <= state.config.output_max,
        state.result(measurement, adc_offset) matches ComputeResult::Handover(ff) ==> ff <= 255
            * state.config.output_max,
{
    lemma_initial_level(state.starts, state.config.output_max);
    let after = state.after(measurement, adc_offset);
    assert forall|i: int| 0 <= i < after.starts.len() implies #[trigger] after.starts[i]
        <= state.config.output_max by {
        assert(i != state.next ==> after.starts[i] == state.starts[i]);
    }
    let (ff, out, max) = (
        state.config.pid_ff as int,
        state.level() as int,
        state.config.output_max as int,
    );
    assert(0 <= ff * out <= 255 * max) by (nonlinear_arith)
        requires
            0 <= ff <= 255,
            0 <= out <= max,
    ;
}

/// While the motor does not move, the output rises by a fixed amount until it has passed the
/// maximum; nothing is handed over and nothing is remembered.
pub proof fn ramps_until_moving(state: Startup, measurement: Measurement, adc_offset: u8)
    requires
        !moving(measurement, adc_offset),
    ensures
        state.result(measurement, adc_offset) is Output,
        state.after(measurement, adc_offset).starts == state.starts,
        state.level() + state.config.output_max / 250 <= state.config.output_max ==> state.after(
            measurement,
            adc_offset,
        ).output == state.level() + state.config.output_max / 250,
{
}

/// What was handed over is remembered, and the controller starts over.
pub proof fn handover_is_remembered(state: Startup, measurement: Measurement, adc_offset: u8)
    requires
        moving(measurement, adc_offset),
        state.wf(),
    ensures
        state.result(measurement, adc_offset) is Handover,
        state.after(measurement, adc_offset).starts[state.next] == state.level(),
        state.after(measurement, adc_offset).output == 0,
        0 <= state.after(measurement, adc_offset).next < BASE_PWM_ARR_LEN,
{
}

/// The level at which to start is two thirds of the mean of the known starts, both rounded down:
/// the starts that are not known yet add nothing to the sum, and do not count.
pub proof fn initial_level_is_two_thirds_of_the_mean(starts: Seq<u16>)
    ensures
        ({
            let known = starts.filter(|v: u16| v > 0).len() as int;
            if known == 0 {
                initial_level(starts) == 0
            } else {
                initial_level(starts) == math::sum(starts) as int / known * 2 / 3
            }
        }),
{
    math::zeros_add_nothing(starts);
}

/// The motor counts as moving exactly from seven and a half above the offset on: the mean of the
/// samples, less the offset, is at least that.
pub proof fn hands_over_from_seven_and_a_half(
    state: Startup,
    measurement: Measurement,
    adc_offset: u8,
)
    ensures
        state.result(measurement, adc_offset) is Handover <==> 2 * (measurement.sum - adc_offset
            * measurement.count) >= 15 * measurement.count,
        state.result(measurement, 0) is Handover <==> 2 * measurement.sum >= 15
            * measurement.count,
{
    let (offset, count) = (adc_offset as int, measurement.count as int);
    assert((2 * offset + 15) * count == 2 * (offset * count) + 15 * count) by (nonlinear_arith);
    assert((2 * 0 + 15) * count == 15 * count) by (nonlinear_arith);
}

/// Only the distance of the samples from the offset matters: adding the same amount to every sample
/// and to the offset changes neither the result nor the state after it.
pub proof fn offset_is_taken_off(
    state: Startup,
    measurement: Measurement,
    raised: Measurement,
    adc_offset: u8,
    d: u8,
)
    requires
        adc_offset + d <= u8::MAX,
        raised.count == measurement.count,
        raised.sum == measurement.sum + d * measurement.count,
    ensures
        state.result(raised, (adc_offset + d) as u8) == state.result(measurement, adc_offset),
        state.after(raised, (adc_offset + d) as u8) == state.after(measurement, adc_offset),
{
    let (offset, count, more) = (adc_offset as int, measurement.count as int, d as int);
    assert((2 * (offset + more) + 15) * count == (2 * offset + 15) * count + 2 * (more * count))
        by (nonlinear_arith);
}

/// What a controller hands over is the output that it would have set if the motor did not move yet,
/// times the feed forward factor; and that output is what it remembers, in the place of the oldest
/// one of sixteen, while the others stay.
pub proof fn handover_takes_the_next_output(
    state: Startup,
    still: Measurement,
    moves: Measurement,
    adc_offset: u8,
)
    requires
        state.wf(),
        2 * (still.sum - adc_offset * still.count) < 15 * still.count,
        2 * (moves.sum - adc_offset * moves.count) >= 15 * moves.count,
    ensures
        state.result(still, adc_offset) matches ComputeResult::Output(output) && {
            &&& state.result(moves, adc_offset) matches ComputeResult::Handover(ff) && ff
                == state.config.pid_ff * output
            &&& state.after(moves, adc_offset).starts == state.starts.update(state.next, output)
        },
        state.after(moves, adc_offset).next == (if state.next == 15 {
            0
        } else {
            state.next + 1
        }),
        state.after(moves, adc_offset).output == 0,
        state.after(moves, adc_offset).config == state.config,
        state.after(still, adc_offset).starts == state.starts,
        state.after(still, adc_offset).next == state.next,
        state.after(still, adc_offset).config == state.config,
{
    hands_over_from_seven_and_a_half(state, still, adc_offset);
    hands_over_from_seven_and_a_half(state, moves, adc_offset);
    let (ff, output) = (state.config.pid_ff as int, state.level() as int);
    assert(0 <= ff * output <= 255 * 65535) by (nonlinear_arith)
        requires
            0 <= ff <= 255,
            0 <= output <= 65535,
    ;
}

/// As long as the motor stands still, the output rises from one computation to the next by a fixed
/// 250th of the maximum (rounded down); from the computation on that would pass the maximum it
/// starts again from half of the level at which to start, or from that level if the half is 0.
pub proof fn output_rises_step_by_step(
    state: Startup,
    first: Measurement,
    second: Measurement,
    adc_offset: u8,
)
    requires
        state.wf(),
        2 * (first.sum - adc_offset * first.count) < 15 * first.count,
        2 * (second.sum - adc_offset * second.count) < 15 * second.count,
    ensures
        ({
            let before = state.result(first, adc_offset);
            let after = state.after(first, adc_offset).result(second, adc_offset);
            let step = state.config.output_max as int / 250;
            let start = initial_level(state.starts);
            &&& before is Output
            &&& after is Output
            &&& before->Output_0 + step > state.config.output_max ==> after->Output_0 == (if start
                / 2 == 0 {
                start
            } else {
                start / 2
            })
            &&& before->Output_0 + step == 0 ==> after->Output_0 == start
            &&& 0 < before->Output_0 + step <= state.config.output_max ==> after->Output_0
                == before->Output_0 + step
        }),
{
    lemma_initial_level(state.starts, state.config.output_max);
    hands_over_from_seven_and_a_half(state, first, adc_offset);
    hands_over_from_seven_and_a_half(state.after(first, adc_offset), second, adc_offset);
}

/// A controller that starts over sets the level at which to start; it starts over at power-up,
/// after a handover and after a reset. At power-up it knows of no start, so that it begins at 0.
pub proof fn starts_over_at_the_initial_level(
    config: Config,
    state: Startup,
    measurement: Measurement,
    still: Measurement,
    adc_offset: u8,
)
    requires
        state.wf(),
        2 * (measurement.sum - adc_offset * measurement.count) >= 15 * measurement.count,
        2 * (still.sum - adc_offset * still.count) < 15 * still.count,
    ensures
        ({
            let restarted = state.after(measurement, adc_offset);
            restarted.result(still, adc_offset) matches ComputeResult::Output(output) && output
                == initial_level(restarted.starts)
        }),
        ({
            let restarted = (Startup { output: 0, ..state });
            restarted.result(still, adc_offset) matches ComputeResult::Output(output) && output
                == initial_level(state.starts)
        }),
        Startup::fresh(config).result(still, adc_offset) == ComputeResult::Output(0),
        Startup::fresh(config).config == config,
        Startup::fresh(config).starts.len() == 16,
{
    hands_over_from_seven_and_a_half(state, measurement, adc_offset);
    let restarted = state.after(measurement, adc_offset);
    hands_over_from_seven_and_a_half(restarted, still, adc_offset);
    hands_over_from_seven_and_a_half(Startup { output: 0, ..state }, still, adc_offset);
    hands_over_from_seven_and_a_half(Startup::fresh(config), still, adc_offset);
    lemma_initial_level(state.starts, 65535);
    lemma_initial_level(restarted.starts, 65535);
    let none = Startup::fresh(config).starts;
    assert forall|i: int| 0 <= i < none.len() implies 0 <= #[trigger] none[i] <= 0 by {}
    lemma_initial_level(none, 0);
}

} // verus!
