//! Configuration variables (CVs): their numbers and their factory values.
use vstd::prelude::*;

pub mod factory;
pub mod image;
pub mod store;

verus! {

/// Number of configuration variables. They are numbered from 1.
pub const CV_SIZE: usize = 512;

/// A configuration variable that the decoder itself uses.
#[derive(Copy, Clone, Debug, PartialEq, Eq, Structural)]
pub enum Cv {
    PrimaryAddress,
    VStart,
    AccelerationRate,
    DecelerationRate,
    VHigh,
    VMid,
    ManufacturerVersionNumber,
    ManufacturerId,
    MotorPwmFrequency,
    MotorPwmDivider,
    ExtendedAddressMsb,
    ExtendedAddressLsb,
    ConsistAddress,
    DecoderConfiguration,
    PidFf,
    PidFilterTc,
    PidSampleTime,
    PidKi,
    PidKd,
    PidKpY0,
    PidKpY1,
    PidKpY2,
    PidKpGainRange1End,
    EmfMsrSamples,
    EmfMsrDelay,
    EmfMsrLowCutoff,
    EmfMsrHighCutoff,
    EnablePwmOutputMask,
    EmfAdcOffset,
    SpeedStepPeriod,
}

impl Cv {
    /// The number of the variable.
    pub open spec fn spec_number(self) -> u16 {
        match self {
            Cv::PrimaryAddress => 1,
            Cv::VStart => 2,
            Cv::AccelerationRate => 3,
            Cv::DecelerationRate => 4,
            Cv::VHigh => 5,
            Cv::VMid => 6,
            Cv::ManufacturerVersionNumber => 7,
            Cv::ManufacturerId => 8,
            Cv::MotorPwmFrequency => 9,
            Cv::MotorPwmDivider => 10,
            Cv::ExtendedAddressMsb => 17,
            Cv::ExtendedAddressLsb => 18,
            Cv::ConsistAddress => 19,
            Cv::DecoderConfiguration => 29,
            Cv::PidFf => 47,
            Cv::PidFilterTc => 48,
            Cv::PidSampleTime => 49,
            Cv::PidKi => 50,
            Cv::PidKd => 51,
            Cv::PidKpY0 => 52,
            Cv::PidKpY1 => 54,
            Cv::PidKpY2 => 56,
            Cv::PidKpGainRange1End => 60,
            Cv::EmfMsrSamples => 61,
            Cv::EmfMsrDelay => 62,
            Cv::EmfMsrLowCutoff => 63,
            Cv::EmfMsrHighCutoff => 64,
            Cv::EnablePwmOutputMask => 112,
            Cv::EmfAdcOffset => 172,
            Cv::SpeedStepPeriod => 175,
        }
    }

    /// The number of the variable.
    #[verifier::when_used_as_spec(spec_number)]
    pub fn number(self) -> (r: u16)
        ensures
            r == self.spec_number(),
    {
        match self {
            Cv::PrimaryAddress => 1,
            Cv::VStart => 2,
            Cv::AccelerationRate => 3,
            Cv::DecelerationRate => 4,
            Cv::VHigh => 5,
            Cv::VMid => 6,
            Cv::ManufacturerVersionNumber => 7,
            Cv::ManufacturerId => 8,
            Cv::MotorPwmFrequency => 9,
            Cv::MotorPwmDivider => 10,
            Cv::ExtendedAddressMsb => 17,
            Cv::ExtendedAddressLsb => 18,
            Cv::ConsistAddress => 19,
            Cv::DecoderConfiguration => 29,
            Cv::PidFf => 47,
            Cv::PidFilterTc => 48,
            Cv::PidSampleTime => 49,
            Cv::PidKi => 50,
            Cv::PidKd => 51,
            Cv::PidKpY0 => 52,
            Cv::PidKpY1 => 54,
            Cv::PidKpY2 => 56,
            Cv::PidKpGainRange1End => 60,
            Cv::EmfMsrSamples => 61,
            Cv::EmfMsrDelay => 62,
            Cv::EmfMsrLowCutoff => 63,
            Cv::EmfMsrHighCutoff => 64,
            Cv::EnablePwmOutputMask => 112,
            Cv::EmfAdcOffset => 172,
            Cv::SpeedStepPeriod => 175,
        }
    }

    /// The variable with the given number; `None` for a number that the decoder gives no
    /// meaning of its own.
    pub fn from_number(number: u16) -> (r: Option<Cv>)
        ensures
            match r {
                Some(cv) => cv.spec_number() == number,
                None => forall|cv: Cv| (#[trigger] cv.spec_number()) != number,
            },
    {
        match number {
            1 => Some(Cv::PrimaryAddress),
            2 => Some(Cv::VStart),
            3 => Some(Cv::AccelerationRate),
            4 => Some(Cv::DecelerationRate),
            5 => Some(Cv::VHigh),
            6 => Some(Cv::VMid),
            7 => Some(Cv::ManufacturerVersionNumber),
            8 => Some(Cv::ManufacturerId),
            9 => Some(Cv::MotorPwmFrequency),
            10 => Some(Cv::MotorPwmDivider),
            17 => Some(Cv::ExtendedAddressMsb),
            18 => Some(Cv::ExtendedAddressLsb),
            19 => Some(Cv::ConsistAddress),
            29 => Some(Cv::DecoderConfiguration),
            47 => Some(Cv::PidFf),
            48 => Some(Cv::PidFilterTc),
            49 => Some(Cv::PidSampleTime),
            50 => Some(Cv::PidKi),
            51 => Some(Cv::PidKd),
            52 => Some(Cv::PidKpY0),
            54 => Some(Cv::PidKpY1),
            56 => Some(Cv::PidKpY2),
            60 => Some(Cv::PidKpGainRange1End),
            61 => Some(Cv::EmfMsrSamples),
            62 => Some(Cv::EmfMsrDelay),
            63 => Some(Cv::EmfMsrLowCutoff),
            64 => Some(Cv::EmfMsrHighCutoff),
            112 => Some(Cv::EnablePwmOutputMask),
            172 => Some(Cv::EmfAdcOffset),
            175 => Some(Cv::SpeedStepPeriod),
            _ => None,
        }
    }

    /// No two variables share a number.
    pub proof fn numbers_are_distinct(a: Cv, b: Cv)
        ensures
            a.spec_number() == b.spec_number() ==> a == b,
    {
    }
}

/// The factory value of the variable with the given number.
pub open spec fn spec_default_value(number: int) -> u8 {
    if number == 1 {
        3
    } else if number == 5 {
        100
    } else if number == 6 {
        60
    } else if number == 9 {
        150
    } else if number == 10 {
        1
    } else if number == 48 {
        10
    } else if number == 49 {
        5
    } else if number == 50 {
        25
    } else if number == 51 {
        50
    } else if number == 52 {
        // the proportional gains are hundredths, most significant byte first: 2000, 250, 150
        7
    } else if number == 53 {
        208
    } else if number == 55 {
        250
    } else if number == 57 {
        150
    } else if number == 60 {
        13
    } else if number == 172 {
        // not calibrated yet
        255
    } else if number == 175 {
        7
    } else {
        0
    }
}

/// The factory value of the variable with the given number.
pub fn default_value(number: usize) -> (r: u8)
    ensures
        r == spec_default_value(number as int),
{
    match number {
        1 => 3,
        5 => 100,
        6 => 60,
        9 => 150,
        10 => 1,
        48 => 10,
        49 => 5,
        50 => 25,
        51 => 50,
        52 => 7,
        53 => 208,
        55 => 250,
        57 => 150,
        60 => 13,
        172 => 255,
        175 => 7,
        _ => 0,
    }
}

/// The factory values of all variables, the first one at index 0.
pub open spec fn spec_default_values() -> Seq<u8> {
    Seq::new(CV_SIZE as nat, |i: int| spec_default_value(i + 1))
}

/// The factory values of all variables, the first one at index 0.
pub fn default_values() -> (r: Vec<u8>)
    ensures
        r@ == spec_default_values(),
{
    let mut values: Vec<u8> = Vec::new();
    let mut i: usize = 0;
    while i < CV_SIZE
        invariant
            i <= CV_SIZE,
            values@ =~= spec_default_values().take(i as int),
        decreases CV_SIZE - i,
    {
        values.push(default_value(i + 1));
        i = i + 1;
    }
    values
}

} // verus!
