use dcc_decoder::cv::image::CvImage;
use dcc_decoder::cv::store::{Error as StoreError, PwmConfig, Store, StoreModel};
use dcc_decoder::cv::CV_SIZE;
use dcc_decoder::dispatch::{Dispatch, Dispatcher};
use dcc_decoder::functions::handler::{
    build_slice_outputs, new_handler, settings, Config, Driver, Handler, OutputDriver, Setting,
    SlicePins,
};
use dcc_decoder::handler::{Error, Op};
use dcc_decoder::motor::tasks::Command;
use dcc_decoder::motor::{Direction, SpeedStep, VelocitySetpoint};
use dcc_decoder::transport::packet::Error as PacketError;
use dcc_decoder::{FunctionGroup, FunctionGroupFlags};

fn config() -> Config {
    let mut forward = [0; 32];
    let mut reverse = [0; 32];
    forward[0] = 0b0001;
    forward[1] = 0b0010;
    forward[4] = 0b0101;
    reverse[4] = 0b1000;
    // there is no seventeenth flag
    forward[16] = 0b1_0000;
    Config::new(forward, reverse)
}

fn group_1(flags: FunctionGroupFlags) -> FunctionGroup {
    FunctionGroup::new(FunctionGroupFlags::fg_1(), flags)
}

#[test]
fn functions_switch_outputs() {
    let mut handler = Handler::new(config());
    assert_eq!(handler.output_mask(), 0);
    assert_eq!(handler.handle(group_1(FunctionGroupFlags::empty())), None);
    let on = FunctionGroupFlags::f2().union(FunctionGroupFlags::fl());
    assert_eq!(handler.handle(group_1(on)), Some(0b0111));
    assert_eq!(handler.handle(group_1(on)), None);
    assert_eq!(handler.handle(group_1(FunctionGroupFlags::f1())), Some(0b0001));
    assert_eq!(handler.handle(group_1(FunctionGroupFlags::empty())), Some(0));
}

#[test]
fn direction_switches_outputs() {
    let mut handler = Handler::new(config());
    assert_eq!(handler.set_direction(Direction::Forward), None);
    handler.handle(group_1(FunctionGroupFlags::fl()));
    assert_eq!(handler.output_mask(), 0b0101);
    assert_eq!(handler.set_direction(Direction::Reverse), Some(0b1000));
    assert_eq!(handler.set_direction(Direction::Reverse), None);
    assert_eq!(handler.set_direction(Direction::Forward), Some(0b0101));
}

#[test]
fn outputs_are_set() {
    let outputs = [
        OutputDriver { pin: 0, driver: Driver::Gpio },
        OutputDriver { pin: 1, driver: Driver::Pwm(77) },
        OutputDriver { pin: 2, driver: Driver::Gpio },
        OutputDriver { pin: 31, driver: Driver::Pwm(78) },
    ];
    assert_eq!(
        settings(&outputs, 0x8000_0001),
        vec![Setting::High, Setting::Duty(0), Setting::Low, Setting::Duty(78)]
    );
    assert_eq!(
        settings(&outputs, 0b0110),
        vec![Setting::Low, Setting::Duty(77), Setting::High, Setting::Duty(0)]
    );
}

#[test]
fn slices_are_shared() {
    let pwm = PwmConfig { wrap: 1000, divider: 2, a_level: 10, b_level: 20 };
    let pins = SlicePins { slice: 4, pin_a: 24, pin_b: 25 };
    let drivers = |mask: u32| {
        let plan = build_slice_outputs(mask, pins, pwm);
        assert_eq!((plan.a.pin, plan.b.pin), (24, 25));
        assert_eq!(plan.pwm, pwm);
        (plan.a.driver, plan.b.driver)
    };
    assert_eq!(drivers(0), (Driver::Gpio, Driver::Gpio));
    assert_eq!(drivers(1 << 24), (Driver::Pwm(10), Driver::Gpio));
    assert_eq!(drivers(1 << 25), (Driver::Gpio, Driver::Pwm(20)));
    assert_eq!(drivers(3 << 24), (Driver::Pwm(10), Driver::Pwm(20)));
}

#[test]
fn outputs_come_from_the_store() {
    let mut store = CvImage::new(vec![0; CV_SIZE]).unwrap();
    store.write_bytes(112, &[0, 0, 0, 0b10], true).unwrap();
    store.write_bytes(116, &[4, 0, 1, 0, 10, 0, 20], true).unwrap();
    store.write_bytes(257 + 2 * 8, &[0, 0, 0, 5, 0, 0, 0, 6], true).unwrap();
    let slices = [SlicePins { slice: 0, pin_a: 0, pin_b: 1 }];
    let outputs = new_handler(&store, &slices).unwrap();
    assert_eq!(outputs.config.function_map_forward[2], 5);
    assert_eq!(outputs.config.function_map_reverse[2], 6);
    assert_eq!(outputs.slices.len(), 1);
    assert_eq!(outputs.slices[0].a, OutputDriver { pin: 0, driver: Driver::Gpio });
    assert_eq!(outputs.slices[0].b, OutputDriver { pin: 1, driver: Driver::Pwm(20) });
    assert_eq!(outputs.slices[0].pwm.wrap, 1024);
    assert_eq!(outputs.slices[0].pwm.divider, 2);
}

struct BrokenStore;

impl Store for BrokenStore {
    fn view(&self) -> StoreModel {
        unreachable!("the model is never computed")
    }

    fn read_byte(&self, _address: usize) -> Result<u8, StoreError> {
        Err(StoreError::Io)
    }

    fn read_bytes(&self, _start: usize, _len: usize) -> Result<&[u8], StoreError> {
        Err(StoreError::Io)
    }

    fn write_byte(&mut self, _address: usize, _value: u8) -> Result<(), StoreError> {
        Err(StoreError::Io)
    }

    fn write_bytes(&mut self, _: usize, _: &[u8], _: bool) -> Result<(), StoreError> {
        Err(StoreError::Io)
    }
}

#[test]
fn unreadable_store_is_reported() {
    assert!(matches!(Config::read(&BrokenStore), Err(StoreError::Io)));
    assert!(matches!(new_handler(&BrokenStore, &[]), Err(StoreError::Io)));
}

#[test]
fn repeated_velocities_are_held_back() {
    let mut dispatcher = Dispatcher::new();
    let v = VelocitySetpoint::new(SpeedStep::Num(5), Direction::Forward);
    let w = VelocitySetpoint::new(SpeedStep::Num(6), Direction::Forward);
    let velocity = |v| Ok(Some(Op::Velocity128(v)));
    assert_eq!(dispatcher.dispatch(velocity(v)), Dispatch::Velocity(v));
    assert_eq!(dispatcher.dispatch(velocity(v)), Dispatch::Nothing);
    assert_eq!(dispatcher.dispatch(Ok(None)), Dispatch::Nothing);
    assert_eq!(
        dispatcher.dispatch(Err(Error::Packet(PacketError::Undersize))),
        Dispatch::Nothing
    );
    assert_eq!(dispatcher.dispatch(velocity(v)), Dispatch::Nothing);
    assert_eq!(dispatcher.dispatch(velocity(w)), Dispatch::Velocity(w));
    assert_eq!(dispatcher.dispatch(Ok(Some(Op::Reset))), Dispatch::Motor(Command::Reset));
    assert_eq!(dispatcher.dispatch(velocity(w)), Dispatch::Velocity(w));
}

#[test]
fn operations_are_dispatched() {
    let mut dispatcher = Dispatcher::new();
    let group = group_1(FunctionGroupFlags::f1());
    assert_eq!(
        dispatcher.dispatch(Ok(Some(Op::AcknowledgeCv))),
        Dispatch::Motor(Command::AcknowledgeCv)
    );
    assert_eq!(
        dispatcher.dispatch(Ok(Some(Op::AcknowledgeCv))),
        Dispatch::Motor(Command::AcknowledgeCv)
    );
    assert_eq!(
        dispatcher.dispatch(Ok(Some(Op::SetFunctions(group)))),
        Dispatch::Functions(group)
    );
    assert_eq!(dispatcher.dispatch(Ok(Some(Op::Reboot))), Dispatch::Reboot);
}
