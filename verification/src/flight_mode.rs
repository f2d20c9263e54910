//! The flight modes of ArduPilot's vehicles, by the numbers that heartbeats carry.

use vstd::prelude::*;

verus! {

/// The flight modes of a copter.
#[derive(Debug, Clone, Copy, PartialEq, Eq, Structural)]
pub enum Copter {
    Stabilize,
    Acro,
    AltHold,
    Auto,
    Guided,
    Loiter,
    Rtl,
    Circle,
    Land,
    Drift,
    Sport,
    Flip,
    Autotune,
    Poshold,
    Brake,
    Thriw,
    AvoidAdsb,
    GuidedNogps,
    SmartRtl,
    Flowhold,
    Follow,
    Zigzag,
    Systemid,
    Autorotate,
    AutoRtl,
    Turtle,
    Unknown,
}

/// The number of a flight mode of a copter.
pub open spec fn copter_number(mode: Copter) -> u8 {
    match mode {
        Copter::Stabilize => 0,
        Copter::Acro => 1,
        Copter::AltHold => 2,
        Copter::Auto => 3,
        Copter::Guided => 4,
        Copter::Loiter => 5,
        Copter::Rtl => 6,
        Copter::Circle => 7,
        Copter::Land => 9,
        Copter::Drift => 11,
        Copter::Sport => 13,
        Copter::Flip => 14,
        Copter::Autotune => 15,
        Copter::Poshold => 16,
        Copter::Brake => 17,
        Copter::Thriw => 18,
        Copter::AvoidAdsb => 19,
        Copter::GuidedNogps => 20,
        Copter::SmartRtl => 21,
        Copter::Flowhold => 22,
        Copter::Follow => 23,
        Copter::Zigzag => 24,
        Copter::Systemid => 25,
        Copter::Autorotate => 26,
        Copter::AutoRtl => 27,
        Copter::Turtle => 28,
        Copter::Unknown => 255,
    }
}

impl Copter {
    /// The flight mode with a number; `Unknown` where no other mode has it.
    pub fn from_primitive(number: u8) -> (r: Copter)
        ensures
            forall|mode: Copter| #[trigger] copter_number(mode) == number ==> r == mode,
            (forall|mode: Copter| #[trigger] copter_number(mode) != number) ==> r == Copter::Unknown,
    {
        let r = match number {
            0 => Copter::Stabilize,
            1 => Copter::Acro,
            2 => Copter::AltHold,
            3 => Copter::Auto,
            4 => Copter::Guided,
            5 => Copter::Loiter,
            6 => Copter::Rtl,
            7 => Copter::Circle,
            9 => Copter::Land,
            11 => Copter::Drift,
            13 => Copter::Sport,
            14 => Copter::Flip,
            15 => Copter::Autotune,
            16 => Copter::Poshold,
            17 => Copter::Brake,
            18 => Copter::Thriw,
            19 => Copter::AvoidAdsb,
            20 => Copter::GuidedNogps,
            21 => Copter::SmartRtl,
            22 => Copter::Flowhold,
            23 => Copter::Follow,
            24 => Copter::Zigzag,
            25 => Copter::Systemid,
            26 => Copter::Autorotate,
            27 => Copter::AutoRtl,
            28 => Copter::Turtle,
            _ => Copter::Unknown,
        };
        assert(r != Copter::Unknown ==> copter_number(r) == number);
        r
    }

    /// The number of the flight mode.
    pub fn number(&self) -> (r: u8)
        ensures
            r == copter_number(*self),
    {
        match self {
            Copter::Stabilize => 0,
            Copter::Acro => 1,
            Copter::AltHold => 2,
            Copter::Auto => 3,
            Copter::Guided => 4,
            Copter::Loiter => 5,
            Copter::Rtl => 6,
            Copter::Circle => 7,
            Copter::Land => 9,
            Copter::Drift => 11,
            Copter::Sport => 13,
            Copter::Flip => 14,
            Copter::Autotune => 15,
            Copter::Poshold => 16,
            Copter::Brake => 17,
            Copter::Thriw => 18,
            Copter::AvoidAdsb => 19,
            Copter::GuidedNogps => 20,
            Copter::SmartRtl => 21,
            Copter::Flowhold => 22,
            Copter::Follow => 23,
            Copter::Zigzag => 24,
            Copter::Systemid => 25,
            Copter::Autorotate => 26,
            Copter::AutoRtl => 27,
            Copter::Turtle => 28,
            Copter::Unknown => 255,
        }
    }
}

/// No two flight modes of a copter have one number.
pub proof fn law_copter_numbers_differ(a: Copter, b: Copter)
    ensures
        copter_number(a) == copter_number(b) ==> a == b,
{
}

/// The flight modes of a plane.
#[derive(Debug, Clone, Copy, PartialEq, Eq, Structural)]
pub enum Plane {
    Manual,
    Circle,
    Stabilize,
    Training,
    Acro,
    FlyByWireA,
    FlyByWireB,
    Cruise,
    Autotune,
    Auto,
    Rtl,
    Loiter,
    Takeoff,
    AvoidAdsb,
    Guided,
    Initialising,
    Qstabilise,
    QHover,
    Qloiter,
    Qland,
    Qrtl,
    Qautotune,
    Qacro,
    Thermal,
    LoiterAltQland,
    Autoland,
    Unknown,
}

/// The number of a flight mode of a plane.
pub open spec fn plane_number(mode: Plane) -> u8 {
    match mode {
        Plane::Manual => 0,
        Plane::Circle => 1,
        Plane::Stabilize => 2,
        Plane::Training => 3,
        Plane::Acro => 4,
        Plane::FlyByWireA => 5,
        Plane::FlyByWireB => 6,
        Plane::Cruise => 7,
        Plane::Autotune => 8,
        Plane::Auto => 10,
        Plane::Rtl => 11,
        Plane::Loiter => 12,
        Plane::Takeoff => 13,
        Plane::AvoidAdsb => 14,
        Plane::Guided => 15,
        Plane::Initialising => 16,
        Plane::Qstabilise => 17,
        Plane::QHover => 18,
        Plane::Qloiter => 19,
        Plane::Qland => 20,
        Plane::Qrtl => 21,
        Plane::Qautotune => 22,
        Plane::Qacro => 23,
        Plane::Thermal => 24,
        Plane::LoiterAltQland => 25,
        Plane::Autoland => 26,
        Plane::Unknown => 255,
    }
}

impl Plane {
    /// The flight mode with a number; `Unknown` where no other mode has it.
    pub fn from_primitive(number: u8) -> (r: Plane)
        ensures
            forall|mode: Plane| #[trigger] plane_number(mode) == number ==> r == mode,
            (forall|mode: Plane| #[trigger] plane_number(mode) != number) ==> r == Plane::Unknown,
    {
        let r = match number {
            0 => Plane::Manual,
            1 => Plane::Circle,
            2 => Plane::Stabilize,
            3 => Plane::Training,
            4 => Plane::Acro,
            5 => Plane::FlyByWireA,
            6 => Plane::FlyByWireB,
            7 => Plane::Cruise,
            8 => Plane::Autotune,
            10 => Plane::Auto,
            11 => Plane::Rtl,
            12 => Plane::Loiter,
            13 => Plane::Takeoff,
            14 => Plane::AvoidAdsb,
            15 => Plane::Guided,
            16 => Plane::Initialising,
            17 => Plane::Qstabilise,
            18 => Plane::QHover,
            19 => Plane::Qloiter,
            20 => Plane::Qland,
            21 => Plane::Qrtl,
            22 => Plane::Qautotune,
            23 => Plane::Qacro,
            24 => Plane::Thermal,
            25 => Plane::LoiterAltQland,
            26 => Plane::Autoland,
            _ => Plane::Unknown,
        };
        assert(r != Plane::Unknown ==> plane_number(r) == number);
        r
    }

    /// The number of the flight mode.
    pub fn number(&self) -> (r: u8)
        ensures
            r == plane_number(*self),
    {
        match self {
            Plane::Manual => 0,
            Plane::Circle => 1,
            Plane::Stabilize => 2,
            Plane::Training => 3,
            Plane::Acro => 4,
            Plane::FlyByWireA => 5,
            Plane::FlyByWireB => 6,
            Plane::Cruise => 7,
            Plane::Autotune => 8,
            Plane::Auto => 10,
            Plane::Rtl => 11,
            Plane::Loiter => 12,
            Plane::Takeoff => 13,
            Plane::AvoidAdsb => 14,
            Plane::Guided => 15,
            Plane::Initialising => 16,
            Plane::Qstabilise => 17,
            Plane::QHover => 18,
            Plane::Qloiter => 19,
            Plane::Qland => 20,
            Plane::Qrtl => 21,
            Plane::Qautotune => 22,
            Plane::Qacro => 23,
            Plane::Thermal => 24,
            Plane::LoiterAltQland => 25,
            Plane::Autoland => 26,
            Plane::Unknown => 255,
        }
    }
}

/// No two flight modes of a plane have one number.
pub proof fn law_plane_numbers_differ(a: Plane, b: Plane)
    ensures
        plane_number(a) == plane_number(b) ==> a == b,
{
}

} // verus!
