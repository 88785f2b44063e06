//! The motor: what is asked of it.
use vstd::prelude::*;

pub mod calibration;
pub mod emf;
pub mod speed;
pub mod tasks;

verus! {

/// The direction of travel.
#[derive(Copy, Clone, Debug, PartialEq, Eq, Structural)]
pub enum Direction {
    Forward,
    Reverse,
}

/// What is asked of the speed.
#[derive(Copy, Clone, Debug, PartialEq, Eq, Structural)]
pub enum SpeedStep {
    Stop,
    EmergencyStop,
    Num(u8),
}

impl SpeedStep {
    /// Index of the speed step.
    pub open spec fn spec_idx(&self) -> u8 {
        match self {
            SpeedStep::Stop => 0,
            SpeedStep::EmergencyStop => 0,
            SpeedStep::Num(n) => *n,
        }
    }

    /// Index of the speed step.
    #[verifier::when_used_as_spec(spec_idx)]
    pub fn idx(&self) -> (r: u8)
        ensures
            r == self.spec_idx(),
    {
        match self {
            SpeedStep::Stop | SpeedStep::EmergencyStop => 0,
            SpeedStep::Num(n) => *n,
        }
    }
}

/// A vector of speed and direction.
#[derive(Copy, Clone, Debug, PartialEq, Eq, Structural)]
pub struct VelocitySetpoint {
    pub speed_step: SpeedStep,
    pub direction: Direction,
}

impl Default for VelocitySetpoint {
    fn default() -> (r: VelocitySetpoint)
        ensures
            r.speed_step == SpeedStep::Stop,
            r.direction == Direction::Forward,
    {
        VelocitySetpoint { speed_step: SpeedStep::Stop, direction: Direction::Forward }
    }
}

impl VelocitySetpoint {
    pub fn new(speed_step: SpeedStep, direction: Direction) -> (r: VelocitySetpoint)
        ensures
            r.speed_step == speed_step,
            r.direction == direction,
    {
        VelocitySetpoint { speed_step, direction }
    }

    /// Checks if the current and other instance's index and direction are equivalent.
    pub open spec fn spec_equivalent(&self, other: &VelocitySetpoint) -> bool {
        self.speed_step.idx() == other.speed_step.idx() && self.direction == other.direction
    }

    /// Checks if the current and other instance's index and direction are equivalent.
    #[verifier::when_used_as_spec(spec_equivalent)]
    pub fn equivalent(&self, other: &VelocitySetpoint) -> (r: bool)
        ensures
            r == self.spec_equivalent(other),
    {
        self.speed_step.idx() == other.speed_step.idx() && self.direction == other.direction
    }
}

} // verus!
