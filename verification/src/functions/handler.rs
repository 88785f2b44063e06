//! Which outputs are on, by the functions that are on and the direction of travel.
use vstd::prelude::*;
use crate::cv::store::{self, Error, PwmConfig, Store, StoreExt, StoreModel};
use crate::function_group::{FunctionGroup, FunctionGroupFlags};
use crate::motor::Direction;

verus! {

/// Number of functions that have entries in the function map.
pub const FUNCTION_COUNT: usize = 32;

/// Number of functions whose state is known, which is the number of bits in the flags.
pub const FLAG_COUNT: usize = 16;

/// The output masks of the first `n` functions in a direction, as the store holds them, or
/// the error of the first one that cannot be read.
pub open spec fn stored_masks(store: StoreModel, direction: Direction, n: nat) -> Result<
    Seq<u32>,
    Error,
>
    decreases n,
{
    if n == 0 {
        Ok(Seq::empty())
    } else {
        match stored_masks(store, direction, (n - 1) as nat) {
            Err(e) => Err(e),
            Ok(masks) => match store::cv_value::<u32>(
                store,
                store::function_map_address((n - 1) as u8, direction),
            ) {
                Err(e) => Err(e),
                Ok(mask) => Ok(masks.push(mask)),
            },
        }
    }
}

/// The output masks of all functions in both directions, forward first, as the store holds them.
pub open spec fn stored_maps(store: StoreModel) -> Result<(Seq<u32>, Seq<u32>), Error> {
    match (
        stored_masks(store, Direction::Forward, FUNCTION_COUNT as nat),
        stored_masks(store, Direction::Reverse, FUNCTION_COUNT as nat),
    ) {
        (Err(e), _) => Err(e),
        (_, Err(e)) => Err(e),
        (Ok(forward), Ok(reverse)) => Ok((forward, reverse)),
    }
}

/// The mapping from functions to outputs.
#[derive(Copy, Clone, Debug)]
pub struct Config {
    /// Mapping from function group index to pin outputs in forward direction
    pub function_map_forward: [u32; 32],
    /// Mapping from function group index to pin outputs in reverse direction
    pub function_map_reverse: [u32; 32],
}

impl Config {
    /// The mapping in a direction.
    pub open spec fn map(self, direction: Direction) -> Seq<u32> {
        match direction {
            Direction::Forward => self.function_map_forward@,
            Direction::Reverse => self.function_map_reverse@,
        }
    }

    pub fn new(function_map_forward: [u32; 32], function_map_reverse: [u32; 32]) -> (r: Config)
        ensures
            r.function_map_forward == function_map_forward,
            r.function_map_reverse == function_map_reverse,
    {
        Config { function_map_forward, function_map_reverse }
    }

    /// Reads the mapping from the store, first for the forward direction.
    pub fn read<S: Store>(store: &S) -> (r: Result<Config, Error>)
        ensures
            match stored_maps(store.view()) {
                Err(e) => r == Err::<Config, Error>(e),
                Ok((forward, reverse)) => {
                    &&& r is Ok
                    &&& r->Ok_0.function_map_forward@ == forward
                    &&& r->Ok_0.function_map_reverse@ == reverse
                },
            },
    {
        let forward = read_map(store, Direction::Forward)?;
        let reverse = read_map(store, Direction::Reverse)?;
        Ok(Config::new(forward, reverse))
    }
}

/// An error among the first masks is the error of all of them.
proof fn lemma_masks_stopped(store: StoreModel, direction: Direction, n: nat, m: nat)
    requires
        stored_masks(store, direction, n) is Err,
        n <= m,
    ensures
        stored_masks(store, direction, m) == stored_masks(store, direction, n),
    decreases m,
{
    if n < m {
        lemma_masks_stopped(store, direction, n, (m - 1) as nat);
    }
}

/// Reads the mapping for one direction from the store.
fn read_map<S: Store>(store: &S, direction: Direction) -> (r: Result<[u32; 32], Error>)
    ensures
        match stored_masks(store.view(), direction, FUNCTION_COUNT as nat) {
            Err(e) => r == Err::<[u32; 32], Error>(e),
            Ok(masks) => r is Ok && r->Ok_0@ == masks,
        },
{
    let mut map: [u32; 32] = [0u32;32];
    let mut i: usize = 0;
    while i < FUNCTION_COUNT
        invariant
            i <= FUNCTION_COUNT,
            stored_masks(store.view(), direction, i as nat) is Ok,
            stored_masks(store.view(), direction, i as nat)->Ok_0 =~= map@.take(i as int),
        decreases FUNCTION_COUNT - i,
    {
        match store.function_output_mask(i as u8, direction) {
            Ok(Some(mask)) => {
                map[i] = mask;
            },
            Ok(None) => {},
            Err(e) => {
                proof {
                    lemma_masks_stopped(
                        store.view(),
                        direction,
                        (i + 1) as nat,
                        FUNCTION_COUNT as nat,
                    );
                }
                return Err(e);
            },
        }
        i = i + 1;
    }
    proof {
        assert(map@.take(32) =~= map@);
    }
    Ok(map)
}

/// The outputs of the first `n` functions that are on.
pub open spec fn outputs_of(flags: FunctionGroupFlags, map: Seq<u32>, n: nat) -> u32
    decreases n,
{
    if n == 0 {
        0
    } else if flags.has(n - 1) {
        outputs_of(flags, map, (n - 1) as nat) | map[n - 1]
    } else {
        outputs_of(flags, map, (n - 1) as nat)
    }
}

/// The outputs of all functions that are on.
pub open spec fn active_outputs(flags: FunctionGroupFlags, map: Seq<u32>) -> u32 {
    outputs_of(flags, map, FLAG_COUNT as nat)
}

/// Whether the output at a pin is on.
pub open spec fn pin_on(output_mask: u32, pin: int) -> bool {
    (output_mask >> (pin as u32)) & 1 == 1
}

/// The state of the functions.
pub struct Handler {
    pub config: Config,
    pub direction: Direction,
    pub flags: FunctionGroupFlags,
}

/// The state after the functions of a group have been switched, and the outputs that are to be on
/// then if that changes any function.
pub open spec fn switched(handler: Handler, function_group: FunctionGroup) -> (
    Handler,
    Option<u32>,
) {
    let after = Handler { flags: function_group.applied(handler.flags), ..handler };
    (
        after,
        if after.flags != handler.flags {
            Some(after.outputs())
        } else {
            None
        },
    )
}

/// The state after a direction has been taken on, and the outputs that are to be on then if it is
/// another one.
pub open spec fn turned(handler: Handler, direction: Direction) -> (Handler, Option<u32>) {
    let after = Handler { direction, ..handler };
    (
        after,
        if direction != handler.direction {
            Some(after.outputs())
        } else {
            None
        },
    )
}

impl Handler {
    /// The outputs that are on.
    pub open spec fn outputs(self) -> u32 {
        active_outputs(self.flags, self.config.map(self.direction))
    }

    /// All functions are off, and the locomotive goes forward.
    pub fn new(config: Config) -> (r: Handler)
        ensures
            r.config == config,
            r.direction == Direction::Forward,
            r.flags.bits == 0,
    {
        Handler { config, direction: Direction::Forward, flags: FunctionGroupFlags::empty() }
    }

    /// Switches the functions of a group. If that changes any of them, returns the outputs
    /// that are to be on now.
    pub fn handle(&mut self, function_group: FunctionGroup) -> (r: Option<u32>)
        ensures
            (*final(self), r) == switched(*old(self), function_group),
    {
        let before = self.flags;
        self.flags = function_group.union_with_mask(self.flags);
        if self.flags != before {
            Some(self.output_mask())
        } else {
            None
        }
    }

    /// Takes on a direction. If it is another one, returns the outputs that are to be on now.
    pub fn set_direction(&mut self, direction: Direction) -> (r: Option<u32>)
        ensures
            (*final(self), r) == turned(*old(self), direction),
    {
        if self.direction != direction {
            self.direction = direction;
            Some(self.output_mask())
        } else {
            None
        }
    }

    /// The outputs that are to be on.
    pub fn output_mask(&self) -> (r: u32)
        ensures
            r == self.outputs(),
    {
        // map from function group index to pin outputs in the current direction
        let map: &[u32; 32] = match self.direction {
            Direction::Forward => &self.config.function_map_forward,
            Direction::Reverse => &self.config.function_map_reverse,
        };
        // Accumulate which outputs should be on by OR-ing together all active function maps
        let mut output_mask: u32 = 0;
        let mut func_idx: usize = 0;
        while func_idx < FLAG_COUNT
            invariant
                func_idx <= FLAG_COUNT,
                map@ == self.config.map(self.direction),
                output_mask == outputs_of(self.flags, map@, func_idx as nat),
            decreases FLAG_COUNT - func_idx,
        {
            let shift: u16 = func_idx as u16;
            if (self.flags.bits() >> shift) & 1 == 1 {
                output_mask = output_mask | map[func_idx];
            }
            func_idx = func_idx + 1;
        }
        output_mask
    }
}

/// How an output is driven.
#[derive(Copy, Clone, Debug, PartialEq, Eq, Structural)]
pub enum Driver {
    /// As a digital output.
    Gpio,
    /// By pulse width modulation, at this level when it is on.
    Pwm(u16),
}

/// An output.
#[derive(Copy, Clone, Debug, PartialEq, Eq, Structural)]
pub struct OutputDriver {
    pub pin: u8,
    pub driver: Driver,
}

/// What an output is set to.
#[derive(Copy, Clone, Debug, PartialEq, Eq, Structural)]
pub enum Setting {
    High,
    Low,
    /// A duty cycle of the pulse width modulation.
    Duty(u16),
}

impl OutputDriver {
    /// What the output is set to.
    pub open spec fn setting_for(self, on: bool) -> Setting {
        match self.driver {
            Driver::Gpio => if on {
                Setting::High
            } else {
                Setting::Low
            },
            Driver::Pwm(level) => Setting::Duty(
                if on {
                    level
                } else {
                    0
                },
            ),
        }
    }

    /// What the output is set to, by the mask of the outputs that are on.
    pub open spec fn set_by(self, output_mask: u32) -> Setting {
        self.setting_for(pin_on(output_mask, self.pin as int))
    }

    /// What the output is set to when it is on.
    pub fn set_on(&self) -> (r: Setting)
        ensures
            r == self.setting_for(true),
    {
        match self.driver {
            Driver::Gpio => Setting::High,
            Driver::Pwm(level) => Setting::Duty(level),
        }
    }

    /// What the output is set to when it is off.
    pub fn set_off(&self) -> (r: Setting)
        ensures
            r == self.setting_for(false),
    {
        match self.driver {
            Driver::Gpio => Setting::Low,
            Driver::Pwm(_) => Setting::Duty(0),
        }
    }

    /// What the output is set to, by the mask of the outputs that are on.
    pub fn setting(&self, output_mask: u32) -> (r: Setting)
        requires
            self.pin < 32,
        ensures
            r == self.set_by(output_mask),
    {
        if (output_mask >> (self.pin as u32)) & 1 == 1 {
            self.set_on()
        } else {
            self.set_off()
        }
    }
}

/// How an output at a pin is driven: by pulse width modulation if the mask says so.
pub open spec fn driver_at(pwm_enabled_mask: u32, pin: u8, level: u16) -> Driver {
    if pin_on(pwm_enabled_mask, pin as int) {
        Driver::Pwm(level)
    } else {
        Driver::Gpio
    }
}

/// The pins of the two outputs that share a PWM slice.
#[derive(Copy, Clone, Debug, PartialEq, Eq, Structural)]
pub struct SlicePins {
    pub slice: u8,
    pub pin_a: u8,
    pub pin_b: u8,
}

impl SlicePins {
    /// There are eight slices and 32 places in a mask of pins.
    pub open spec fn wf(self) -> bool {
        self.slice < 8 && self.pin_a < 32 && self.pin_b < 32
    }
}

/// How the two outputs of a PWM slice are driven, and the configuration of the slice, which is
/// used if at least one of them is driven by pulse width modulation.
#[derive(Copy, Clone, Debug, PartialEq, Eq, Structural)]
pub struct SlicePlan {
    pub a: OutputDriver,
    pub b: OutputDriver,
    pub pwm: PwmConfig,
}

/// How the outputs of a slice with the given configuration are driven.
pub open spec fn slice_plan(
    pwm_enabled_mask: u32,
    pins: SlicePins,
    config: PwmConfig,
) -> SlicePlan {
    SlicePlan {
        a: OutputDriver {
            pin: pins.pin_a,
            driver: driver_at(pwm_enabled_mask, pins.pin_a, config.a_level),
        },
        b: OutputDriver {
            pin: pins.pin_b,
            driver: driver_at(pwm_enabled_mask, pins.pin_b, config.b_level),
        },
        pwm: config,
    }
}

/// Decides how the two outputs of a PWM slice are driven.
pub fn build_slice_outputs(pwm_enabled_mask: u32, pins: SlicePins, config: PwmConfig) -> (r:
    SlicePlan)
    requires
        pins.wf(),
    ensures
        r == slice_plan(pwm_enabled_mask, pins, config),
{
    let pwm_a: bool = (pwm_enabled_mask >> (pins.pin_a as u32)) & 1 == 1;
    let pwm_b: bool = (pwm_enabled_mask >> (pins.pin_b as u32)) & 1 == 1;
    let a = if pwm_a {
        Driver::Pwm(config.a_level)
    } else {
        Driver::Gpio
    };
    let b = if pwm_b {
        Driver::Pwm(config.b_level)
    } else {
        Driver::Gpio
    };
    SlicePlan {
        a: OutputDriver { pin: pins.pin_a, driver: a },
        b: OutputDriver { pin: pins.pin_b, driver: b },
        pwm: config,
    }
}

/// How the outputs of the first `n` slices are driven, as the store has it, or the error of the
/// first slice whose configuration cannot be read.
pub open spec fn stored_plans(
    store: StoreModel,
    pwm_enabled_mask: u32,
    slices: Seq<SlicePins>,
    n: nat,
) -> Result<Seq<SlicePlan>, Error>
    decreases n,
{
    if n == 0 {
        Ok(Seq::empty())
    } else {
        match stored_plans(store, pwm_enabled_mask, slices, (n - 1) as nat) {
            Err(e) => Err(e),
            Ok(plans) => match store::pwm_config_at(
                store,
                store::pwm_slice_address(slices[n - 1].slice),
            ) {
                Err(e) => Err(e),
                Ok(config) => Ok(plans.push(slice_plan(pwm_enabled_mask, slices[n - 1], config))),
            },
        }
    }
}

/// An error among the first plans is the error of all of them.
proof fn lemma_plans_stopped(
    store: StoreModel,
    pwm_enabled_mask: u32,
    slices: Seq<SlicePins>,
    n: nat,
    m: nat,
)
    requires
        stored_plans(store, pwm_enabled_mask, slices, n) is Err,
        n <= m,
    ensures
        stored_plans(store, pwm_enabled_mask, slices, m) == stored_plans(
            store,
            pwm_enabled_mask,
            slices,
            n,
        ),
    decreases m,
{
    if n < m {
        lemma_plans_stopped(store, pwm_enabled_mask, slices, n, (m - 1) as nat);
    }
}

/// Everything that the store says about the outputs.
#[derive(Debug)]
pub struct Outputs {
    pub config: Config,
    /// How the outputs are driven, slice by slice.
    pub slices: Vec<SlicePlan>,
}

/// Which functions switch which outputs, forward and in reverse, and how the outputs of the given
/// slices are driven, as the store has it.
pub open spec fn stored_outputs(store: StoreModel, slices: Seq<SlicePins>) -> Result<
    (Seq<u32>, Seq<u32>, Seq<SlicePlan>),
    Error,
> {
    match store::pwm_mask_of(store) {
        Err(e) => Err(e),
        Ok(mask) => match (stored_maps(store), stored_plans(store, mask, slices, slices.len())) {
            (Err(e), _) => Err(e),
            (_, Err(e)) => Err(e),
            (Ok((forward, reverse)), Ok(plans)) => Ok((forward, reverse, plans)),
        },
    }
}

/// Reads from the store which functions switch which outputs, and how the outputs of the given
/// slices are driven.
pub fn new_handler<S: Store>(store: &S, slices: &[SlicePins]) -> (r: Result<Outputs, Error>)
    requires
        forall|i: int| 0 <= i < slices@.len() ==> (#[trigger] slices@[i]).wf(),
    ensures
        match stored_outputs(store.view(), slices@) {
            Err(e) => r == Err::<Outputs, Error>(e),
            Ok((forward, reverse, plans)) => {
                &&& r is Ok
                &&& r->Ok_0.config.function_map_forward@ == forward
                &&& r->Ok_0.config.function_map_reverse@ == reverse
                &&& r->Ok_0.slices@ == plans
            },
        },
{
    let pwm_enabled_mask: u32 = store.pwm_enabled_mask()?;
    let config = Config::read(store)?;
    let mut plans: Vec<SlicePlan> = Vec::new();
    let mut i: usize = 0;
    while i < slices.len()
        invariant
            i <= slices@.len(),
            forall|k: int| 0 <= k < slices@.len() ==> (#[trigger] slices@[k]).wf(),
            stored_plans(store.view(), pwm_enabled_mask, slices@, i as nat) is Ok,
            stored_plans(store.view(), pwm_enabled_mask, slices@, i as nat)->Ok_0 == plans@,
            store::pwm_mask_of(store.view()) == Ok::<u32, Error>(pwm_enabled_mask),
            stored_maps(store.view()) is Ok,
        decreases slices@.len() - i,
    {
        let pins: SlicePins = slices[i];
        match store.pwm_configuration(pins.slice) {
            Ok(Some(pwm)) => {
                plans.push(build_slice_outputs(pwm_enabled_mask, pins, pwm));
            },
            Ok(None) => {},
            Err(e) => {
                proof {
                    lemma_plans_stopped(
                        store.view(),
                        pwm_enabled_mask,
                        slices@,
                        (i + 1) as nat,
                        slices@.len(),
                    );
                }
                return Err(e);
            },
        }
        i = i + 1;
    }
    Ok(Outputs { config, slices: plans })
}

/// What each of the outputs is set to, by the mask of the outputs that are on.
pub fn settings(outputs: &[OutputDriver], output_mask: u32) -> (r: Vec<Setting>)
    requires
        forall|i: int| 0 <= i < outputs@.len() ==> (#[trigger] outputs@[i]).pin < 32,
    ensures
        r@.len() == outputs@.len(),
        forall|i: int|
            0 <= i < outputs@.len() ==> #[trigger] r@[i] == outputs@[i].set_by(output_mask),
{
    let mut r: Vec<Setting> = Vec::new();
    let mut i: usize = 0;
    while i < outputs.len()
        invariant
            i <= outputs@.len(),
            r@.len() == i,
            forall|k: int| 0 <= k < outputs@.len() ==> (#[trigger] outputs@[k]).pin < 32,
            forall|k: int|
                0 <= k < i ==> #[trigger] r@[k] == outputs@[k].set_by(output_mask),
        decreases outputs@.len() - i,
    {
        r.push(outputs[i].setting(output_mask));
        i = i + 1;
    }
    r
}

/// An output is on exactly when one of the first `n` functions that are on maps to it.
proof fn lemma_outputs_of(flags: FunctionGroupFlags, map: Seq<u32>, n: nat, pin: int)
    requires
        0 <= pin < 32,
    ensures
        pin_on(outputs_of(flags, map, n), pin) <==> exists|i: int|
            0 <= i < n && #[trigger] flags.has(i) && pin_on(map[i], pin),
    decreases n,
{
    let k = pin as u32;
    if n == 0 {
        assert((0u32 >> k) & 1 == 0) by (bit_vector);
    } else {
        lemma_outputs_of(flags, map, (n - 1) as nat, pin);
        let (rest, mask) = (outputs_of(flags, map, (n - 1) as nat), map[n - 1]);
        assert(((rest | mask) >> k) & 1 == 1 <==> (rest >> k) & 1 == 1 || (mask >> k) & 1 == 1)
            by (bit_vector);
        if pin_on(outputs_of(flags, map, n), pin) {
            if !pin_on(rest, pin) {
                assert(flags.has(n - 1) && pin_on(map[n - 1], pin));
            }
        }
        if exists|i: int| 0 <= i < n && #[trigger] flags.has(i) && pin_on(map[i], pin) {
            let i = choose|i: int| 0 <= i < n && #[trigger] flags.has(i) && pin_on(map[i], pin);
            if i < n - 1 {
                assert(pin_on(rest, pin));
            }
        }
    }
}

/// An output is on exactly when a function that is on maps to it.
pub proof fn output_on_exactly_for_active_functions(
    flags: FunctionGroupFlags,
    map: Seq<u32>,
    pin: int,
)
    requires
        0 <= pin < 32,
    ensures
        pin_on(active_outputs(flags, map), pin) <==> exists|i: int|
            0 <= i < FLAG_COUNT && #[trigger] flags.has(i) && pin_on(map[i], pin),
{
    lemma_outputs_of(flags, map, FLAG_COUNT as nat, pin);
}

/// With all functions off, all outputs are off.
pub proof fn all_off_without_functions(map: Seq<u32>, pin: int)
    requires
        0 <= pin < 32,
    ensures
        !pin_on(active_outputs(FunctionGroupFlags { bits: 0 }, map), pin),
{
    let flags = FunctionGroupFlags { bits: 0 };
    output_on_exactly_for_active_functions(flags, map, pin);
    assert forall|i: int| 0 <= i < FLAG_COUNT implies !(#[trigger] flags.has(i)) by {
        let k = i as u16;
        assert((0u16 >> k) & 1 == 0) by (bit_vector);
    }
}

/// An output is on exactly if one of the sixteen functions is on that switches it in the direction of
/// travel: function by function, the mask of that direction has the bit of its pin set.
pub proof fn outputs_follow_functions_and_direction(handler: Handler, map: Seq<u32>, pin: u32)
    requires
        pin < 32,
        handler.direction == Direction::Forward ==> map == handler.config.function_map_forward@,
        handler.direction == Direction::Reverse ==> map == handler.config.function_map_reverse@,
    ensures
        (handler.outputs() >> pin) & 1 == 1 <==> exists|i: int|
            0 <= i < 16 && #[trigger] switches(handler.flags.bits, map[i], i, pin),
{
    output_on_exactly_for_active_functions(handler.flags, map, pin as int);
    if pin_on(handler.outputs(), pin as int) {
        let i = choose|i: int|
            0 <= i < FLAG_COUNT && #[trigger] handler.flags.has(i) && pin_on(map[i], pin as int);
        assert(switches(handler.flags.bits, map[i], i, pin));
    }
    if exists|i: int| 0 <= i < 16 && #[trigger] switches(handler.flags.bits, map[i], i, pin) {
        let i = choose|i: int|
            0 <= i < 16 && #[trigger] switches(handler.flags.bits, map[i], i, pin);
        assert(handler.flags.has(i) && pin_on(map[i], pin as int));
    }
}

/// Whether a function is on and switches the output at a pin: bit `i` of the flags is set, and so is
/// the bit of the pin in the mask of the function.
pub open spec fn switches(flags: u16, mask: u32, i: int, pin: u32) -> bool {
    (flags >> (i as u16)) & 1 == 1 && (mask >> pin) & 1 == 1
}

/// Whoever keeps the last outputs that were handed out always has the ones that are to be on: they
/// are handed out whenever they change, and when nothing is handed out nothing has changed.
pub proof fn handed_out_outputs_are_current(
    handler: Handler,
    function_group: FunctionGroup,
    direction: Direction,
)
    ensures
        ({
            let (after, handed_out) = switched(handler, function_group);
            &&& after.config == handler.config
            &&& after.direction == handler.direction
            &&& after.outputs() == (match handed_out {
                Some(outputs) => outputs,
                None => handler.outputs(),
            })
            &&& handed_out is None <==> after == handler
        }),
        ({
            let (after, handed_out) = turned(handler, direction);
            &&& after.config == handler.config
            &&& after.flags == handler.flags
            &&& after.direction == direction
            &&& after.outputs() == (match handed_out {
                Some(outputs) => outputs,
                None => handler.outputs(),
            })
            &&& handed_out is None <==> direction == handler.direction
        }),
{
}

/// A request switches exactly the functions of its group, each as it says, and the outputs with
/// them; requesting the same once more changes nothing.
pub proof fn requests_switch_their_group(handler: Handler, function_group: FunctionGroup, i: u16)
    requires
        i < 16,
        function_group.wf(),
    ensures
        ({
            let after = switched(handler, function_group).0;
            let mask = function_group.group_mask.bits;
            &&& (mask >> i) & 1 == 1 ==> (after.flags.bits >> i) & 1 == (
            function_group.flags.bits >> i) & 1
            &&& (mask >> i) & 1 != 1 ==> (after.flags.bits >> i) & 1 == (handler.flags.bits >> i)
                & 1
            &&& switched(after, function_group) == (after, None::<u32>)
        }),
{
    let (f, m, o) = (
        function_group.flags.bits,
        function_group.group_mask.bits,
        handler.flags.bits,
    );
    assert((((o & !m) | f) >> i) & 1 == (if (m >> i) & 1 == 1 {
        (f >> i) & 1
    } else {
        (o >> i) & 1
    })) by (bit_vector)
        requires
            f & !m == 0,
            i < 16,
    ;
    function_group.applied_twice(handler.flags);
}

/// The map that is read from a store has the stored mask of every function, in order, and can be
/// read exactly if all of them can.
pub proof fn masks_are_read_in_order(store: StoreModel, direction: Direction, n: nat, i: int)
    requires
        n <= 32,
        0 <= i < n,
    ensures
        stored_masks(store, direction, n) matches Ok(masks) ==> masks.len() == n
            && store::output_mask_of(store, i as u8, direction) == Ok::<Option<u32>, Error>(
            Some(masks[i]),
        ),
        store::output_mask_of(store, i as u8, direction) is Err ==> stored_masks(
            store,
            direction,
            n,
        ) is Err,
    decreases n,
{
    if i < n - 1 {
        masks_are_read_in_order(store, direction, (n - 1) as nat, i);
    } else if n > 1 {
        masks_are_read_in_order(store, direction, (n - 1) as nat, 0);
    } else {
        reveal_with_fuel(stored_masks, 2);
    }
}

/// The outputs of every slice are driven as the store says for that slice: each of its two outputs
/// by pulse width modulation, at its own level, exactly if the bit of its pin is set in the mask,
/// and as a digital output otherwise.
pub proof fn outputs_are_driven_as_stored(
    store: StoreModel,
    pwm_enabled_mask: u32,
    slices: Seq<SlicePins>,
    n: nat,
    i: int,
)
    requires
        n <= slices.len(),
        0 <= i < n,
        slices[i].slice < 8,
    ensures
        stored_plans(store, pwm_enabled_mask, slices, n) matches Ok(plans) ==> {
            let (plan, pins) = (plans[i], slices[i]);
            &&& plans.len() == n
            &&& store::pwm_configuration_of(store, pins.slice) == Ok::<Option<PwmConfig>, Error>(
                Some(plan.pwm),
            )
            &&& plan.a.pin == pins.pin_a
            &&& plan.b.pin == pins.pin_b
            &&& plan.a.driver == (if (pwm_enabled_mask >> (pins.pin_a as u32)) & 1 == 1 {
                Driver::Pwm(plan.pwm.a_level)
            } else {
                Driver::Gpio
            })
            &&& plan.b.driver == (if (pwm_enabled_mask >> (pins.pin_b as u32)) & 1 == 1 {
                Driver::Pwm(plan.pwm.b_level)
            } else {
                Driver::Gpio
            })
        },
        store::pwm_configuration_of(store, slices[i].slice) is Err ==> stored_plans(
            store,
            pwm_enabled_mask,
            slices,
            n,
        ) is Err,
    decreases n,
{
    if i < n - 1 {
        outputs_are_driven_as_stored(store, pwm_enabled_mask, slices, (n - 1) as nat, i);
    } else {
        lemma_plan_count(store, pwm_enabled_mask, slices, (n - 1) as nat);
    }
}

/// There is a plan for every slice.
proof fn lemma_plan_count(
    store: StoreModel,
    pwm_enabled_mask: u32,
    slices: Seq<SlicePins>,
    n: nat,
)
    ensures
        stored_plans(store, pwm_enabled_mask, slices, n) matches Ok(plans) ==> plans.len() == n,
    decreases n,
{
    if n > 0 {
        lemma_plan_count(store, pwm_enabled_mask, slices, (n - 1) as nat);
    }
}

/// An output that is on is high, or at its level if it is driven by pulse width modulation; one that
/// is off is low, or at 0.
pub proof fn outputs_are_set_by_their_driver(pin: u8, level: u16, output_mask: u32)
    requires
        pin < 32,
    ensures
        ({
            let digital = OutputDriver { pin, driver: Driver::Gpio };
            let modulated = OutputDriver { pin, driver: Driver::Pwm(level) };
            let on = (output_mask >> (pin as u32)) & 1 == 1;
            &&& on ==> digital.set_by(output_mask) == Setting::High && modulated.set_by(output_mask)
                == Setting::Duty(level)
            &&& !on ==> digital.set_by(output_mask) == Setting::Low && modulated.set_by(output_mask)
                == Setting::Duty(0)
        }),
        ({
            let digital = OutputDriver { pin, driver: Driver::Gpio };
            let modulated = OutputDriver { pin, driver: Driver::Pwm(level) };
            &&& digital.setting_for(true) == Setting::High
            &&& digital.setting_for(false) == Setting::Low
            &&& modulated.setting_for(true) == Setting::Duty(level)
            &&& modulated.setting_for(false) == Setting::Duty(0)
        }),
{
}

/// What is read from a store about the outputs is what it holds: for every function and direction its
/// mask, and for every slice how its outputs are driven, by the mask of the outputs that are driven
/// by pulse width modulation. It can be read exactly if all of that can.
pub proof fn outputs_are_read_from_the_store(store: StoreModel, slices: Seq<SlicePins>, i: int)
    requires
        0 <= i < 32,
    ensures
        stored_maps(store) matches Ok((forward, reverse)) ==> {
            &&& forward.len() == 32
            &&& reverse.len() == 32
            &&& store::output_mask_of(store, i as u8, Direction::Forward) == Ok::<
                Option<u32>,
                Error,
            >(Some(forward[i]))
            &&& store::output_mask_of(store, i as u8, Direction::Reverse) == Ok::<
                Option<u32>,
                Error,
            >(Some(reverse[i]))
        },
        stored_outputs(store, slices) matches Ok((forward, reverse, plans)) ==> {
            &&& stored_maps(store) == Ok::<(Seq<u32>, Seq<u32>), Error>((forward, reverse))
            &&& store::pwm_mask_of(store) matches Ok(mask) && stored_plans(
                store,
                mask,
                slices,
                slices.len(),
            ) == Ok::<Seq<SlicePlan>, Error>(plans)
        },
        stored_outputs(store, slices) is Err ==> {
            ||| store::pwm_mask_of(store) is Err
            ||| stored_maps(store) is Err
            ||| stored_plans(store, store::pwm_mask_of(store)->Ok_0, slices, slices.len()) is Err
        },
{
    masks_are_read_in_order(store, Direction::Forward, 32, i);
    masks_are_read_in_order(store, Direction::Reverse, 32, i);
}

} // verus!
