//! The speed table: which back-EMF level belongs to which speed step.
use vstd::prelude::*;
use crate::cv::store::{Error as StoreError, Store, StoreExt, StoreModel};
use crate::cv::Cv;

verus! {

/// Number of entries in a speed table.
pub const SPEED_TABLE_LEN: usize = 127;

/// The last entry of the first half of the table.
pub const MIDPOINT: usize = 63;

/// The back-EMF level for each speed step.
pub type SpeedTable = [u16; 127];

/// The voltages from which the table is built.
#[derive(Copy, Clone, Debug, PartialEq, Eq, Structural)]
pub struct Config {
    /// Used to define the bemf level used as the start voltage on the motor.
    pub v_start: u8,
    /// Vmid specifies the bemf drive level at the middle speed step.
    pub v_mid: u8,
    /// Vhigh is used to specify the motor bemf drive levels at the maximum speed step.
    pub v_high: u8,
}

impl Config {
    /// The configuration that a store holds.
    pub open spec fn stored(store: StoreModel) -> Result<Config, StoreError> {
        match (
            store.byte(Cv::VStart.number() as int),
            store.byte(Cv::VMid.number() as int),
            store.byte(Cv::VHigh.number() as int),
        ) {
            (Err(e), _, _) => Err(e),
            (_, Err(e), _) => Err(e),
            (_, _, Err(e)) => Err(e),
            (Ok(v_start), Ok(v_mid), Ok(v_high)) => Ok(Config { v_start, v_mid, v_high }),
        }
    }

    /// Reads the configuration from the store.
    pub fn read<S: Store>(store: &S) -> (r: Result<Config, StoreError>)
        ensures
            r == Config::stored(store.view()),
    {
        let v_start: u8 = store.v_start()?;
        let v_mid: u8 = store.v_mid()?;
        let v_high: u8 = store.v_high()?;
        Ok(Config { v_start, v_mid, v_high })
    }
}

/// The level `idx` sixty-thirds of the way from `start` to `end`, rounded to the nearest
/// integer. (No level lies halfway between two integers, as 63 is odd.)
pub open spec fn level(start: int, end: int, idx: int) -> int {
    (2 * (63 * start + (end - start) * idx) + 63) / 126
}

/// The entry of the table for speed step `i`: nothing at standstill, then one line from the
/// start level to the middle level, and another one from there to the highest level. The
/// middle and the highest level are scaled to the 12 bits of the ADC; the start level is not,
/// for a higher resolution at low speed.
pub open spec fn entry(config: Config, i: int) -> int {
    if i == 0 {
        0
    } else if i <= MIDPOINT {
        level(config.v_start as int, config.v_mid * 16, i - 1)
    } else {
        level(config.v_mid * 16, config.v_high * 16, i - MIDPOINT)
    }
}

/// A level on a line lies between the ends of the line.
proof fn lemma_level_bounds(start: int, end: int, idx: int)
    requires
        0 <= idx <= 63,
    ensures
        start <= end ==> start <= level(start, end, idx) <= end,
        start >= end ==> start >= level(start, end, idx) >= end,
{
    if start <= end {
        assert(0 <= (end - start) * idx <= (end - start) * 63) by (nonlinear_arith)
            requires
                start <= end,
                0 <= idx <= 63,
        ;
    }
    if start >= end {
        assert(0 >= (end - start) * idx >= (end - start) * 63) by (nonlinear_arith)
            requires
                start >= end,
                0 <= idx <= 63,
        ;
    }
}

/// Calculates one level, see [`level`].
fn calc_step(start: u16, end: u16, idx: usize) -> (r: u16)
    requires
        idx <= 63,
        start <= 4080,
        end <= 4080,
    ensures
        r == level(start as int, end as int, idx as int),
{
    proof {
        lemma_level_bounds(start as int, end as int, idx as int);
        let (s, e, i) = (start as int, end as int, idx as int);
        assert(-4080 * 63 <= (e - s) * i <= 4080 * 63) by (nonlinear_arith)
            requires
                0 <= s <= 4080,
                0 <= e <= 4080,
                0 <= i <= 63,
        ;
        assert(63 * s + (e - s) * i >= 0) by (nonlinear_arith)
            requires
                0 <= s <= 4080,
                0 <= e <= 4080,
                0 <= i <= 63,
        ;
    }
    let rise: i32 = (end as i32 - start as i32) * (idx as i32);
    let doubled: i32 = 2 * (63 * (start as i32) + rise) + 63;
    (doubled as u32 / 126) as u16
}

/// Builds a speed table from the specified configuration.
///
/// The speed table contains back-emf levels for a given throttle level (the index).
pub fn build(config: Config) -> (r: SpeedTable)
    ensures
        forall|i: int| 0 <= i < SPEED_TABLE_LEN ==> #[trigger] r@[i] == entry(config, i),
{
    // don't multiply by 16 here as we want higher resolution at low speeds.
    let v_min: u16 = config.v_start as u16;
    // multiply by 16 to scale the values to the 12-bit adc range.
    let v_mid: u16 = config.v_mid as u16 * 16;
    let v_max: u16 = config.v_high as u16 * 16;
    // first entry is always 0, as it is no power
    let mut table: SpeedTable = [0u16;127];
    let mut i: usize = 1;
    while i < SPEED_TABLE_LEN
        invariant
            1 <= i <= SPEED_TABLE_LEN,
            v_min == config.v_start,
            v_mid == config.v_mid * 16,
            v_max == config.v_high * 16,
            forall|k: int| 0 <= k < i ==> #[trigger] table@[k] == entry(config, k),
        decreases SPEED_TABLE_LEN - i,
    {
        table[i] =
        if i <= MIDPOINT {
            // first segment: linear from v_min to v_mid
            calc_step(v_min, v_mid, i - 1)
        } else {
            // second segment: linear from v_mid to v_max
            calc_step(v_mid, v_max, i - MIDPOINT)
        };
        i = i + 1;
    }
    table
}

/// The ends of the table are the configured levels, and every entry fits the 12 bits of the
/// ADC.
pub proof fn table_ends(config: Config, i: int)
    requires
        0 <= i < SPEED_TABLE_LEN,
    ensures
        entry(config, 0) == 0,
        entry(config, 1) == config.v_start,
        entry(config, SPEED_TABLE_LEN - 1) == config.v_high * 16,
        0 <= entry(config, i) <= 4080,
{
    if 1 <= i <= MIDPOINT {
        lemma_level_bounds(config.v_start as int, config.v_mid * 16, i - 1);
    } else if i > MIDPOINT {
        lemma_level_bounds(config.v_mid * 16, config.v_high * 16, i - MIDPOINT);
    }
}

/// If the configured levels ascend, so does the table: a higher speed step never has a lower
/// level.
pub proof fn table_ascends(config: Config, i: int, j: int)
    requires
        config.v_start <= config.v_mid * 16,
        config.v_mid <= config.v_high,
        0 <= i <= j < SPEED_TABLE_LEN,
    ensures
        entry(config, i) <= entry(config, j),
{
    let (low, mid, high) = (config.v_start as int, config.v_mid * 16, config.v_high * 16);
    if i >= 1 && j <= MIDPOINT {
        assert((mid - low) * (i - 1) <= (mid - low) * (j - 1)) by (nonlinear_arith)
            requires
                low <= mid,
                i <= j,
        ;
    } else if i > MIDPOINT {
        assert((high - mid) * (i - MIDPOINT) <= (high - mid) * (j - MIDPOINT)) by (nonlinear_arith)
            requires
                mid <= high,
                i <= j,
        ;
    } else if i >= 1 {
        lemma_level_bounds(low, mid, i - 1);
        lemma_level_bounds(mid, high, j - MIDPOINT);
    } else {
        table_ends(config, j);
    }
}

/// Every entry is the integer that is nearest to its place on one of two straight lines. The first
/// line is at the start level at speed step 1, and would be at the middle level at speed step 64;
/// the second one is at the middle level at speed step 63, and at the highest one at speed step 126.
pub proof fn table_follows_two_lines(config: Config, i: int)
    requires
        0 <= i < 127,
    ensures
        i == 0 ==> entry(config, i) == 0,
        1 <= i <= 63 ==> {
            let place = config.v_start * (64 - i) + 16 * config.v_mid * (i - 1);
            -63 < 2 * (63 * entry(config, i) - place) < 63
        },
        i >= 63 + 1 ==> {
            let place = 16 * config.v_mid * (126 - i) + 16 * config.v_high * (i - 63);
            -63 < 2 * (63 * entry(config, i) - place) < 63
        },
{
    let (low, mid, high) = (config.v_start as int, 16 * config.v_mid, 16 * config.v_high);
    if 1 <= i <= 63 {
        assert(63 * low + (mid - low) * (i - 1) == low * (64 - i) + mid * (i - 1))
            by (nonlinear_arith);
    } else if i > 63 {
        assert(63 * mid + (high - mid) * (i - 63) == mid * (126 - i) + high * (i - 63))
            by (nonlinear_arith);
    }
}

/// The levels are the variables 2, 6 and 5.
pub proof fn levels_are_stored(store: StoreModel)
    ensures
        Config::stored(store) matches Ok(config) ==> {
            &&& store.byte(2) == Ok::<u8, StoreError>(config.v_start)
            &&& store.byte(6) == Ok::<u8, StoreError>(config.v_mid)
            &&& store.byte(5) == Ok::<u8, StoreError>(config.v_high)
        },
        Config::stored(store) is Err <==> {
            ||| store.byte(2) is Err
            ||| store.byte(6) is Err
            ||| store.byte(5) is Err
        },
{
}

} // verus!
