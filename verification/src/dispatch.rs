//! What happens to the operations that packets ask for.
use vstd::prelude::*;
use crate::function_group::FunctionGroup;
use crate::handler::{Error, Op};
use crate::motor::tasks::Command;
use crate::motor::VelocitySetpoint;

verus! {

/// What to do about a packet that has been handled.
#[derive(Copy, Clone, Debug, PartialEq, Eq, Structural)]
pub enum Dispatch {
    /// Nothing.
    Nothing,
    /// Send the command to the motor.
    Motor(Command),
    /// Send the velocity to the motor, and switch the function outputs to its direction.
    Velocity(VelocitySetpoint),
    /// Switch functions.
    Functions(FunctionGroup),
    /// Reboot the decoder.
    Reboot,
}

/// What to do about an operation, given the operation before it. A velocity is only passed on
/// if something has changed, which prevents unnecessary work from being performed downstream.
pub open spec fn dispatch_of(last_command: Option<Op>, op: Op) -> Dispatch {
    match op {
        Op::AcknowledgeCv => Dispatch::Motor(Command::AcknowledgeCv),
        Op::Reset => Dispatch::Motor(Command::Reset),
        Op::Velocity128(setpoint) => if last_command == Some(op) {
            Dispatch::Nothing
        } else {
            Dispatch::Velocity(setpoint)
        },
        Op::SetFunctions(group) => Dispatch::Functions(group),
        Op::Reboot => Dispatch::Reboot,
    }
}

/// The operation that counts as the last one after an outcome, and what to do about the outcome.
pub open spec fn dispatched(last_command: Option<Op>, outcome: Result<Option<Op>, Error>) -> (
    Option<Op>,
    Dispatch,
) {
    match outcome {
        Ok(Some(op)) => (Some(op), dispatch_of(last_command, op)),
        _ => (last_command, Dispatch::Nothing),
    }
}

/// Dispatches operations.
pub struct Dispatcher {
    pub last_command: Option<Op>,
}

impl Dispatcher {
    /// A dispatcher that has seen no operation yet.
    pub fn new() -> (r: Dispatcher)
        ensures
            r.last_command is None,
    {
        Dispatcher { last_command: None }
    }

    /// Decides what to do about the outcome of handling a packet.
    pub fn dispatch(&mut self, outcome: Result<Option<Op>, Error>) -> (r: Dispatch)
        ensures
            (final(self).last_command, r) == dispatched(old(self).last_command, outcome),
    {
        match outcome {
            Ok(Some(op)) => {
                let r = match op {
                    Op::AcknowledgeCv => Dispatch::Motor(Command::AcknowledgeCv),
                    Op::Reset => Dispatch::Motor(Command::Reset),
                    Op::Velocity128(setpoint) => {
                        let repeated: bool = match self.last_command {
                            Some(last) => last == op,
                            None => false,
                        };
                        if repeated {
                            Dispatch::Nothing
                        } else {
                            Dispatch::Velocity(setpoint)
                        }
                    },
                    Op::SetFunctions(group) => Dispatch::Functions(group),
                    Op::Reboot => Dispatch::Reboot,
                };
                self.last_command = Some(op);
                r
            },
            _ => Dispatch::Nothing,
        }
    }
}

/// Nothing but a velocity that repeats the operation before it is ever held back.
pub proof fn only_repeated_velocities_are_held_back(last_command: Option<Op>, op: Op)
    ensures
        dispatch_of(last_command, op) is Nothing <==> op is Velocity128 && last_command == Some(
            op,
        ),
{
}

/// After a reset, the next velocity reaches the motor, even if it is the one from before.
pub proof fn velocity_after_reset_is_passed_on(last_command: Option<Op>, setpoint: VelocitySetpoint)
    requires
        last_command == Some(Op::Reset),
    ensures
        dispatch_of(last_command, Op::Velocity128(setpoint)) == Dispatch::Velocity(setpoint),
{
}

/// An operation is passed on as what it is: a velocity with the velocity, a request for functions
/// with the request, and a reset and an acknowledgement as such to the motor. (A velocity is passed
/// on at least after any other operation.)
pub proof fn operations_are_passed_on(
    last_command: Option<Op>,
    setpoint: VelocitySetpoint,
    group: FunctionGroup,
)
    ensures
        last_command != Some(Op::Velocity128(setpoint)) ==> dispatched(
            last_command,
            Ok(Some(Op::Velocity128(setpoint))),
        ).1 == Dispatch::Velocity(setpoint),
        dispatched(last_command, Ok(Some(Op::SetFunctions(group)))).1 == Dispatch::Functions(group),
        dispatched(last_command, Ok(Some(Op::Reset))).1 == Dispatch::Motor(Command::Reset),
        dispatched(last_command, Ok(Some(Op::AcknowledgeCv))).1 == Dispatch::Motor(
            Command::AcknowledgeCv,
        ),
        dispatched(last_command, Ok(Some(Op::Reboot))).1 == Dispatch::Reboot,
{
}

/// A velocity that comes again is held back as long as only packets come in between that ask for
/// nothing or cannot be handled, of which nothing is passed on; after any other operation it is
/// passed on again.
pub proof fn repeated_velocity_is_held_back_until_another_operation(
    last_command: Option<Op>,
    setpoint: VelocitySetpoint,
    between: Result<Option<Op>, Error>,
)
    ensures
        ({
            let velocity = Ok::<Option<Op>, Error>(Some(Op::Velocity128(setpoint)));
            let (first, _) = dispatched(last_command, velocity);
            let (second, passed) = dispatched(first, between);
            let (_, third) = dispatched(second, velocity);
            &&& dispatched(first, velocity).1 == Dispatch::Nothing
            &&& between is Err || between == Ok::<Option<Op>, Error>(None) ==> passed
                == Dispatch::Nothing && third == Dispatch::Nothing
            &&& between is Ok && between->Ok_0 is Some && between != velocity ==> third
                == Dispatch::Velocity(setpoint)
        }),
{
}

} // verus!
