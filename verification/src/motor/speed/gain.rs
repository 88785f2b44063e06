//! Gain scheduling: the proportional gain of the speed controller, by setpoint.
//!
//! Often it is favorable to have a higher proportional gain for slow speeds, achieving better
//! control results. The gain is piecewise linear over the setpoint.
use vstd::prelude::*;
use crate::cv::store::{self, Error as StoreError, Store, StoreExt, StoreModel};
use crate::cv::Cv;

verus! {

/// Setpoints are given in units of 1/255 here, in which the end of the first range is an
/// integer.
pub const SETPOINT_UNIT: i32 = 255;

/// A gain as a fraction, in the unit of the gains from which it was computed.
#[derive(Copy, Clone, Debug, PartialEq, Eq, Structural)]
pub struct Gain {
    pub num: i128,
    pub den: i128,
}

impl Gain {
    /// Whether the gain equals an integer.
    pub open spec fn equals(self, value: int) -> bool {
        self.den > 0 && self.num == value * self.den
    }

    /// Whether the gain lies between two integers.
    pub open spec fn between(self, low: int, high: int) -> bool {
        self.den > 0 && low * self.den <= self.num <= high * self.den
    }
}

/// Helper struct to compute the gain based on the setpoint range.
#[derive(Copy, Clone, Debug, PartialEq, Eq, Structural)]
pub struct GainRange {
    /// The first setpoint of the range.
    pub start: i32,
    /// The first setpoint after the range.
    pub end: i32,
    /// The gain at the start of the range.
    pub kp_start: i32,
    /// The gain at the end of the range.
    pub kp_end: i32,
}

impl GainRange {
    /// By how much the gain rises over the run of the slope. The slope of an empty range is
    /// one.
    pub open spec fn rise(self) -> int {
        if self.end <= self.start {
            1
        } else {
            self.kp_end - self.kp_start
        }
    }

    /// Over how many setpoints the gain rises.
    pub open spec fn run(self) -> int {
        if self.end <= self.start {
            1
        } else {
            self.end - self.start
        }
    }

    /// The gain at a setpoint, on the line through the range.
    pub open spec fn gain_at(self, setpoint: i32) -> Gain {
        Gain {
            num: (self.rise() * (setpoint - self.start) + self.kp_start * self.run()) as i128,
            den: self.run() as i128,
        }
    }

    /// Creates a new GainRange, over which the gain goes from one value to the other.
    pub fn new(start: i32, end: i32, kp_start: i32, kp_end: i32) -> (r: GainRange)
        ensures
            r == (GainRange { start, end, kp_start, kp_end }),
    {
        GainRange { start, end, kp_start, kp_end }
    }

    /// The slope of the gain, as a fraction.
    pub fn slope(&self) -> (r: Gain)
        ensures
            r.num == self.rise(),
            r.den == self.run(),
    {
        if self.end <= self.start {
            Gain { num: 1, den: 1 }
        } else {
            Gain {
                num: self.kp_end as i128 - self.kp_start as i128,
                den: self.end as i128 - self.start as i128,
            }
        }
    }

    /// The gain at the setpoint; outside of the range the line is continued.
    pub fn get_kp(&self, setpoint: i32) -> (r: Gain)
        ensures
            r == self.gain_at(setpoint),
            r.num == self.rise() * (setpoint - self.start) + self.kp_start * self.run(),
            r.den == self.run(),
    {
        let ghost (rise, run, way, kp) = (
            self.rise(),
            self.run(),
            setpoint - self.start,
            self.kp_start as int,
        );
        assert(-0x1_0000_0000_0000_0000 <= rise * way <= 0x1_0000_0000_0000_0000)
            by (nonlinear_arith)
            requires
                -0xffff_ffff <= rise <= 0xffff_ffff,
                -0xffff_ffff <= way <= 0xffff_ffff,
        ;
        assert(-0x1_0000_0000_0000_0000 <= kp * run <= 0x1_0000_0000_0000_0000) by (nonlinear_arith)
            requires
                -0x8000_0000 <= kp <= 0x8000_0000,
                0 <= run <= 0xffff_ffff,
        ;
        let slope = self.slope();
        let way: i128 = setpoint as i128 - self.start as i128;
        let risen: i128 = slope.num * way;
        let base: i128 = self.kp_start as i128 * slope.den;
        Gain { num: risen + base, den: slope.den }
    }

    /// Whether the setpoint lies in the range, which does not hold its end.
    pub open spec fn spec_contains(&self, setpoint: i32) -> bool {
        self.start <= setpoint < self.end
    }

    /// Whether the setpoint lies in the range, which does not hold its end.
    #[verifier::when_used_as_spec(spec_contains)]
    pub fn contains(&self, setpoint: i32) -> (r: bool)
        ensures
            r == self.spec_contains(setpoint),
    {
        self.start <= setpoint && setpoint < self.end
    }
}

/// The gain over all setpoints: a first range from 0 on, and a second one up to the maximum.
#[derive(Copy, Clone, Debug, PartialEq, Eq, Structural)]
pub struct Schedule {
    pub low: GainRange,
    pub high: GainRange,
}

/// Where the gain bends, and its values there.
#[derive(Copy, Clone, Debug, PartialEq, Eq, Structural)]
pub struct Config {
    /// Maximal value of the setpoint range (e.g., last speed table entry).
    pub max_setpoint: u16,
    /// The end of the first gain range, as a fraction of the maximal setpoint in units of
    /// 1/255.
    pub kp_gain_range1_end: u8,
    /// Kp level at start of low range
    pub kp_y0: u16,
    /// Kp level at end of low range / start of high range
    pub kp_y1: u16,
    /// Kp level at end of high range
    pub kp_y2: u16,
}

impl Config {
    /// The setpoint at which the gain bends, in units of 1/255.
    pub open spec fn bend(self) -> int {
        self.max_setpoint * self.kp_gain_range1_end
    }

    /// The maximal setpoint, in units of 1/255.
    pub open spec fn top(self) -> int {
        self.max_setpoint * SETPOINT_UNIT
    }

    /// The configuration for a maximal setpoint, as the store has it. The gains are
    /// hundredths.
    pub open spec fn stored(store: StoreModel, max_setpoint: u16) -> Result<Config, StoreError> {
        match (
            store.byte(Cv::PidKpGainRange1End.number() as int),
            store::cv_value::<u16>(store, Cv::PidKpY0.number() as int),
            store::cv_value::<u16>(store, Cv::PidKpY1.number() as int),
            store::cv_value::<u16>(store, Cv::PidKpY2.number() as int),
        ) {
            (Err(e), _, _, _) => Err(e),
            (_, Err(e), _, _) => Err(e),
            (_, _, Err(e), _) => Err(e),
            (_, _, _, Err(e)) => Err(e),
            (Ok(kp_gain_range1_end), Ok(kp_y0), Ok(kp_y1), Ok(kp_y2)) => Ok(
                Config { max_setpoint, kp_gain_range1_end, kp_y0, kp_y1, kp_y2 },
            ),
        }
    }

    /// Reads the configuration for a maximal setpoint from the store.
    pub fn read<S: Store>(store: &S, max_setpoint: u16) -> (r: Result<Config, StoreError>)
        ensures
            r == Config::stored(store.view(), max_setpoint),
    {
        let kp_gain_range1_end: u8 = store.pid_kp_gain_range1_end()?;
        let kp_y0: u16 = store.pid_kp_y0()?;
        let kp_y1: u16 = store.pid_kp_y1()?;
        let kp_y2: u16 = store.pid_kp_y2()?;
        Ok(Config { max_setpoint, kp_gain_range1_end, kp_y0, kp_y1, kp_y2 })
    }
}

impl Schedule {
    /// The schedule of a configuration.
    pub open spec fn of(config: Config) -> Schedule {
        Schedule {
            low: GainRange {
                start: 0,
                end: config.bend() as i32,
                kp_start: config.kp_y0 as i32,
                kp_end: config.kp_y1 as i32,
            },
            high: GainRange {
                start: config.bend() as i32,
                end: config.top() as i32,
                kp_start: config.kp_y1 as i32,
                kp_end: config.kp_y2 as i32,
            },
        }
    }

    /// The setpoint, or the nearest one that the schedule knows.
    pub open spec fn clamped(self, setpoint: i32) -> i32 {
        if setpoint < self.low.start {
            self.low.start
        } else if setpoint > self.high.end {
            self.high.end
        } else {
            setpoint
        }
    }

    /// The gain at a setpoint.
    pub open spec fn kp(self, setpoint: i32) -> Gain {
        let sp = self.clamped(setpoint);
        if self.low.start <= sp < self.low.end {
            self.low.gain_at(sp)
        } else {
            self.high.gain_at(sp)
        }
    }

    /// Precomputes the ranges.
    pub fn new(config: Config) -> (r: Schedule)
        ensures
            r == Schedule::of(config),
    {
        let ghost (max, end) = (config.max_setpoint as int, config.kp_gain_range1_end as int);
        assert(0 <= max * end <= max * 255 <= 65535 * 255) by (nonlinear_arith)
            requires
                0 <= max <= 65535,
                0 <= end <= 255,
        ;
        let bend: i32 = config.max_setpoint as i32 * config.kp_gain_range1_end as i32;
        let top: i32 = config.max_setpoint as i32 * SETPOINT_UNIT;
        Schedule {
            low: GainRange::new(0, bend, config.kp_y0 as i32, config.kp_y1 as i32),
            high: GainRange::new(bend, top, config.kp_y1 as i32, config.kp_y2 as i32),
        }
    }

    /// Computes the scheduled Kp based on the provided setpoint.
    pub fn kp_for_setpoint(&self, setpoint: i32) -> (r: Gain)
        ensures
            r == self.kp(setpoint),
    {
        let sp: i32 = if setpoint < self.low.start {
            self.low.start
        } else if setpoint > self.high.end {
            self.high.end
        } else {
            setpoint
        };
        if self.low.contains(sp) {
            self.low.get_kp(sp)
        } else {
            self.high.get_kp(sp)
        }
    }
}

/// The bend lies between 0 and the maximal setpoint.
proof fn lemma_bend(config: Config)
    ensures
        0 <= config.bend() <= config.top() <= 65535 * 255,
        config.kp_gain_range1_end < 255 && config.max_setpoint > 0 ==> config.bend() < config.top(),
        config.kp_gain_range1_end > 0 && config.max_setpoint > 0 ==> config.bend() > 0,
{
    let (max, end) = (config.max_setpoint as int, config.kp_gain_range1_end as int);
    assert(0 <= max * end <= max * 255 <= 65535 * 255) by (nonlinear_arith)
        requires
            0 <= max <= 65535,
            0 <= end <= 255,
    ;
    if end < 255 && max > 0 {
        assert(max * end < max * 255) by (nonlinear_arith)
            requires
                0 < max,
                end < 255,
        ;
    }
    if end > 0 && max > 0 {
        assert(max * end > 0) by (nonlinear_arith)
            requires
                0 < max,
                0 < end,
        ;
    }
}

/// On a range that is not empty, the gain goes from its first to its last value, and lies
/// between them inside the range.
proof fn lemma_range(start: i32, end: i32, a: i32, b: i32, setpoint: i32)
    requires
        0 <= start < end,
        start <= setpoint <= end,
    ensures
        ({
            let gain = (GainRange { start, end, kp_start: a, kp_end: b }).gain_at(setpoint);
            &&& setpoint == start ==> gain.equals(a as int)
            &&& setpoint == end ==> gain.equals(b as int)
            &&& a <= b ==> gain.between(a as int, b as int)
            &&& a >= b ==> gain.between(b as int, a as int)
        }),
{
    let (rise, run, way, kp) = (b - a, end - start, setpoint - start, a as int);
    assert(-0x1_0000_0000_0000_0000 <= rise * way <= 0x1_0000_0000_0000_0000) by (nonlinear_arith)
        requires
            -0xffff_ffff <= rise <= 0xffff_ffff,
            0 <= way <= 0xffff_ffff,
    ;
    assert(-0x1_0000_0000_0000_0000 <= kp * run <= 0x1_0000_0000_0000_0000) by (nonlinear_arith)
        requires
            -0x8000_0000 <= kp <= 0x8000_0000,
            0 <= run <= 0xffff_ffff,
    ;
    let num = rise * way + kp * run;
    if way == 0 {
        assert(num == kp * run) by (nonlinear_arith)
            requires
                num == rise * way + kp * run,
                way == 0,
        ;
    }
    if way == run {
        assert(num == (kp + rise) * run) by (nonlinear_arith)
            requires
                num == rise * way + kp * run,
                way == run,
        ;
    }
    if rise >= 0 {
        assert(kp * run <= num <= (kp + rise) * run) by (nonlinear_arith)
            requires
                num == rise * way + kp * run,
                0 <= way <= run,
                rise >= 0,
        ;
    }
    if rise <= 0 {
        assert((kp + rise) * run <= num <= kp * run) by (nonlinear_arith)
            requires
                num == rise * way + kp * run,
                0 <= way <= run,
                rise <= 0,
        ;
    }
}

/// The gain has the configured values where it bends and at its ends, and keeps the ones at
/// the ends beyond them. (If the ranges are not both there, one of the values is not
/// reached.)
pub proof fn gain_at_nodes(config: Config, setpoint: i32)
    requires
        config.max_setpoint > 0,
        0 < config.kp_gain_range1_end < 255,
    ensures
        setpoint <= 0 ==> Schedule::of(config).kp(setpoint).equals(config.kp_y0 as int),
        setpoint == config.bend() ==> Schedule::of(config).kp(setpoint).equals(
            config.kp_y1 as int,
        ),
        setpoint >= config.top() ==> Schedule::of(config).kp(setpoint).equals(config.kp_y2 as int),
{
    lemma_bend(config);
    let (y0, y1, y2) = (config.kp_y0 as i32, config.kp_y1 as i32, config.kp_y2 as i32);
    let (bend, top) = (config.bend() as i32, config.top() as i32);
    lemma_range(0, bend, y0, y1, 0);
    lemma_range(bend, top, y1, y2, bend);
    lemma_range(bend, top, y1, y2, top);
}

/// Whatever the setpoint, the gain lies between the smallest and the largest configured
/// value.
pub proof fn gain_between_nodes(config: Config, setpoint: i32, low: u16, high: u16)
    requires
        low <= config.kp_y0 <= high,
        low <= config.kp_y1 <= high,
        low <= config.kp_y2 <= high,
    ensures
        Schedule::of(config).kp(setpoint).between(low as int, high as int),
{
    lemma_bend(config);
    let (y0, y1, y2) = (config.kp_y0 as i32, config.kp_y1 as i32, config.kp_y2 as i32);
    let (bend, top) = (config.bend() as i32, config.top() as i32);
    let schedule = Schedule::of(config);
    let sp = schedule.clamped(setpoint);
    let gain = schedule.kp(setpoint);
    if sp < bend {
        lemma_range(0, bend, y0, y1, sp);
    } else if bend < top {
        lemma_range(bend, top, y1, y2, sp);
    } else {
        // the second range is empty, and the setpoint is where it starts
        assert(gain.num == y1 && gain.den == 1) by (nonlinear_arith)
            requires
                gain.num == 1 * (sp - bend) + y1 * 1,
                gain.den == 1,
                sp == bend,
        ;
    }
    let (l, h, den, num) = (low as int, high as int, gain.den as int, gain.num as int);
    let (a, b) = if sp < bend {
        (y0 as int, y1 as int)
    } else if bend < top {
        (y1 as int, y2 as int)
    } else {
        (y1 as int, y1 as int)
    };
    assert(l * den <= num <= h * den) by (nonlinear_arith)
        requires
            den > 0,
            l <= a <= h,
            l <= b <= h,
            (a * den <= num <= b * den) || (b * den <= num <= a * den),
    ;
}

/// On a range that is not empty, the gain at every setpoint lies on the straight line through the
/// gains at both ends, also beyond the ends.
pub proof fn range_is_a_line(range: GainRange, setpoint: i32)
    requires
        range.start < range.end,
    ensures
        range.gain_at(setpoint).den > 0,
        range.gain_at(setpoint).num * (range.end - range.start) == (range.kp_start * (range.end
            - setpoint) + range.kp_end * (setpoint - range.start)) * range.gain_at(setpoint).den,
{
    let (a, b) = (range.kp_start as int, range.kp_end as int);
    let (run, way) = (range.end - range.start, setpoint - range.start);
    lemma_line_fits(b - a, way, a, run);
    let num = (b - a) * way + a * run;
    assert(num == a * (run - way) + b * way) by (nonlinear_arith)
        requires
            num == (b - a) * way + a * run,
    ;
    assert(num * run == (a * (run - way) + b * way) * run);
}

/// Over an empty range, the gain rises by one per setpoint from the gain at its start on.
pub proof fn empty_range_rises_by_one(range: GainRange, setpoint: i32)
    requires
        range.end <= range.start,
    ensures
        range.gain_at(setpoint).den == 1,
        range.gain_at(setpoint).num == range.kp_start + (setpoint - range.start),
{
    let (way, kp) = (setpoint - range.start, range.kp_start as int);
    assert(1 * way + kp * 1 == kp + way) by (nonlinear_arith);
}

/// The numerator of a gain fits its type.
proof fn lemma_line_fits(rise: int, way: int, kp: int, run: int)
    requires
        -0xffff_ffff <= rise <= 0xffff_ffff,
        -0xffff_ffff <= way <= 0xffff_ffff,
        -0x8000_0000 <= kp <= 0x8000_0000,
        0 <= run <= 0xffff_ffff,
    ensures
        i128::MIN <= rise * way + kp * run <= i128::MAX,
{
    assert(-0x1_0000_0000_0000_0000 <= rise * way <= 0x1_0000_0000_0000_0000) by (nonlinear_arith)
        requires
            -0xffff_ffff <= rise <= 0xffff_ffff,
            -0xffff_ffff <= way <= 0xffff_ffff,
    ;
    assert(-0x1_0000_0000_0000_0000 <= kp * run <= 0x1_0000_0000_0000_0000) by (nonlinear_arith)
        requires
            -0x8000_0000 <= kp <= 0x8000_0000,
            0 <= run <= 0xffff_ffff,
    ;
}

/// Of two ranges of which one begins where the other one ends, a setpoint lies in at most one;
/// and it lies in one of them exactly if it lies between their outer ends.
pub proof fn adjacent_ranges_share_nothing(low: GainRange, high: GainRange, setpoint: i32)
    requires
        low.start <= low.end == high.start <= high.end,
    ensures
        !(low.contains(setpoint) && high.contains(setpoint)),
        low.contains(setpoint) || high.contains(setpoint) <==> low.start <= setpoint < high.end,
{
}

/// The gain is linear between two neighbours among the setpoints 0, the bend and the maximum, with
/// the configured values there; and it stays as it is beyond 0 and beyond the maximum. The bend is
/// the configured fraction of the maximum. (This holds without conditions on the configuration: a
/// part between two equal setpoints is a single setpoint.)
pub proof fn gain_is_piecewise_linear(config: Config, setpoint: i32)
    ensures
        ({
            let bend = config.max_setpoint * config.kp_gain_range1_end;
            let top = config.max_setpoint * 255;
            let kp = Schedule::of(config).kp(setpoint);
            &&& kp.den > 0
            &&& 0 <= setpoint <= bend ==> kp.num * bend == (config.kp_y0 * (bend - setpoint)
                + config.kp_y1 * setpoint) * kp.den
            &&& bend <= setpoint <= top ==> kp.num * (top - bend) == (config.kp_y1 * (top
                - setpoint) + config.kp_y2 * (setpoint - bend)) * kp.den
            &&& setpoint < 0 ==> kp == Schedule::of(config).kp(0)
            &&& setpoint > top ==> kp == Schedule::of(config).kp(top as i32)
            &&& setpoint >= top && bend == top ==> kp.num == config.kp_y1 * kp.den
        }),
{
    lemma_bend(config);
    let (bend, top) = (config.bend(), config.top());
    let schedule = Schedule::of(config);
    let sp = schedule.clamped(setpoint);
    let kp = schedule.kp(setpoint);
    let (y0, y1, y2) = (config.kp_y0 as int, config.kp_y1 as int, config.kp_y2 as int);
    if sp < bend {
        range_is_a_line(schedule.low, sp);
    } else if bend < top {
        range_is_a_line(schedule.high, sp);
        if sp == bend {
            let (num, den) = (kp.num as int, kp.den as int);
            assert(num == y1 * den) by (nonlinear_arith)
                requires
                    num * (top - bend) == (y1 * (top - sp) + y2 * (sp - bend)) * den,
                    sp == bend,
                    den == top - bend,
                    den > 0,
            ;
            assert(num * bend == (y0 * (bend - sp) + y1 * sp) * den) by (nonlinear_arith)
                requires
                    num == y1 * den,
                    sp == bend,
            ;
        }
    } else {
        empty_range_rises_by_one(schedule.high, sp);
        let (num, den) = (kp.num as int, kp.den as int);
        assert(num * bend == (y0 * (bend - sp) + y1 * sp) * den && num * (top - bend) == (y1 * (top
            - sp) + y2 * (sp - bend)) * den) by (nonlinear_arith)
            requires
                num == y1 * den,
                den == 1,
                sp == bend,
                bend == top,
        ;
    }
}

/// Where the gain bends, and its values there, are the variable 60 and the pairs of variables from
/// 52, 54 and 56 on, most significant byte first.
pub proof fn gains_are_stored(store: StoreModel, max_setpoint: u16)
    ensures
        Config::stored(store, max_setpoint) matches Ok(config) ==> {
            &&& config.max_setpoint == max_setpoint
            &&& store.byte(60) == Ok::<u8, StoreError>(config.kp_gain_range1_end)
            &&& store.byte(52) == Ok::<u8, StoreError>((config.kp_y0 / 256) as u8)
            &&& store.byte(53) == Ok::<u8, StoreError>((config.kp_y0 % 256) as u8)
            &&& store.byte(54) == Ok::<u8, StoreError>((config.kp_y1 / 256) as u8)
            &&& store.byte(55) == Ok::<u8, StoreError>((config.kp_y1 % 256) as u8)
            &&& store.byte(56) == Ok::<u8, StoreError>((config.kp_y2 / 256) as u8)
            &&& store.byte(57) == Ok::<u8, StoreError>((config.kp_y2 % 256) as u8)
        },
        Config::stored(store, max_setpoint) is Err <==> {
            ||| store.byte(60) is Err
            ||| exists|a: int| 52 <= a <= 57 && #[trigger] store.byte(a) is Err
        },
{
    reveal_with_fuel(StoreModel::range, 3);
    if Config::stored(store, max_setpoint) is Err && store.byte(60) is Ok {
        assert(store.byte(52) is Err || store.byte(53) is Err || store.byte(54) is Err
            || store.byte(55) is Err || store.byte(56) is Err || store.byte(57) is Err);
    }
}

} // verus!
