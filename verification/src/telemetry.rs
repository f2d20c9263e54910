//! What vehicles send, as far as it is listened to. Singles are kept by their bit
//! patterns.

use crate::ident::Ident;
use crate::value::MavParamType;
use vstd::prelude::*;

verus! {

/// How urgent a status text is, the most urgent first.
#[derive(Debug, Clone, Copy, PartialEq, Eq, Structural)]
pub enum MavSeverity {
    Emergency,
    Alert,
    Critical,
    Error,
    Warning,
    Notice,
    Info,
    Debug,
}

/// A sign of life, with the numbers of the vehicle's type and state.
#[derive(Debug, Clone, Copy)]
pub struct Heartbeat {
    pub mav_type: u8,
    pub system_status: u8,
}

/// The state of the whole system: millivolts, hundredths of an ampere, and per cent.
#[derive(Debug, Clone, Copy)]
pub struct SysStatus {
    pub voltage_battery: u16,
    pub current_battery: i16,
    pub battery_remaining: i8,
}

/// A parameter. The name is missing where it is no valid one.
#[derive(Debug)]
pub struct ParamValue {
    pub param_id: Option<Ident>,
    pub param_value: u32,
    pub param_type: MavParamType,
    pub param_count: u16,
    pub param_index: u16,
}

/// The attitude by Euler angles, and the rates about the body's axes.
#[derive(Debug, Clone, Copy)]
pub struct AttitudeEuler {
    pub roll: u32,
    pub pitch: u32,
    pub yaw: u32,
    pub rollspeed: u32,
    pub pitchspeed: u32,
    pub yawspeed: u32,
}

/// The attitude by a quaternion, and the rates about the body's axes.
#[derive(Debug, Clone, Copy)]
pub struct AttitudeQuaternion {
    pub q1: u32,
    pub q2: u32,
    pub q3: u32,
    pub q4: u32,
    pub rollspeed: u32,
    pub pitchspeed: u32,
    pub yawspeed: u32,
}

/// The position: units of 1e-7 degrees, millimetres, and centimetres per second.
#[derive(Debug, Clone, Copy)]
pub struct GlobalPositionInt {
    pub lat: i32,
    pub lon: i32,
    pub alt: i32,
    pub relative_alt: i32,
    pub vx: i16,
    pub vy: i16,
    pub vz: i16,
}

/// The filtered position, with the velocity as singles.
#[derive(Debug, Clone, Copy)]
pub struct GlobalPositionIntCov {
    pub lat: i32,
    pub lon: i32,
    pub alt: i32,
    pub relative_alt: i32,
    pub vx: u32,
    pub vy: u32,
    pub vz: u32,
}

/// The state of a battery: millivolts of its cells, hundredths of an ampere, and per
/// cent. A cell that is absent has the largest number.
#[derive(Debug, Clone, Copy)]
pub struct BatteryStatus {
    pub voltages: [u16; 10],
    pub current_battery: i16,
    pub battery_remaining: i8,
}

/// The capability bits of an autopilot.
#[derive(Debug, Clone, Copy)]
pub struct AutopilotVersion {
    pub capabilities: u64,
}

/// A text, up to its first NUL.
#[derive(Debug)]
pub struct Statustext {
    pub severity: MavSeverity,
    pub text: Vec<u8>,
}

/// Who made a component, up to the first NULs, and its capability bits.
#[derive(Debug)]
pub struct ComponentInformationBasic {
    pub capabilities: u64,
    pub vendor_name: Vec<u8>,
    pub model_name: Vec<u8>,
}

/// A message that is not listened to.
#[derive(Debug, Clone, Copy)]
pub struct OtherMessage {
    pub id: u32,
}

/// A message of a vehicle.
#[derive(Debug)]
pub enum Telemetry {
    Heartbeat(Heartbeat),
    SysStatus(SysStatus),
    ParamValue(ParamValue),
    Attitude(AttitudeEuler),
    AttitudeQuaternion(AttitudeQuaternion),
    GlobalPositionInt(GlobalPositionInt),
    GlobalPositionIntCov(GlobalPositionIntCov),
    BatteryStatus(BatteryStatus),
    AutopilotVersion(AutopilotVersion),
    Statustext(Statustext),
    ComponentInformationBasic(ComponentInformationBasic),
    Other(OtherMessage),
}

/// The number that the wire has for `AUTOPILOT_VERSION`.
pub const AUTOPILOT_VERSION_ID: u32 = 148;

/// The number that the wire has for `COMPONENT_INFORMATION_BASIC`.
pub const COMPONENT_INFORMATION_BASIC_ID: u32 = 396;

/// The number that the wire has for a message.
pub open spec fn message_id(message: Telemetry) -> u32 {
    match message {
        Telemetry::Heartbeat(_) => 0,
        Telemetry::SysStatus(_) => 1,
        Telemetry::ParamValue(_) => 22,
        Telemetry::Attitude(_) => 30,
        Telemetry::AttitudeQuaternion(_) => 31,
        Telemetry::GlobalPositionInt(_) => 33,
        Telemetry::GlobalPositionIntCov(_) => 63,
        Telemetry::BatteryStatus(_) => 147,
        Telemetry::AutopilotVersion(_) => AUTOPILOT_VERSION_ID,
        Telemetry::Statustext(_) => 253,
        Telemetry::ComponentInformationBasic(_) => COMPONENT_INFORMATION_BASIC_ID,
        Telemetry::Other(other) => other.id,
    }
}

impl Telemetry {
    /// The number that the wire has for the message.
    pub fn id(&self) -> (r: u32)
        ensures
            r == message_id(*self),
    {
        match self {
            Telemetry::Heartbeat(_) => 0,
            Telemetry::SysStatus(_) => 1,
            Telemetry::ParamValue(_) => 22,
            Telemetry::Attitude(_) => 30,
            Telemetry::AttitudeQuaternion(_) => 31,
            Telemetry::GlobalPositionInt(_) => 33,
            Telemetry::GlobalPositionIntCov(_) => 63,
            Telemetry::BatteryStatus(_) => 147,
            Telemetry::AutopilotVersion(_) => AUTOPILOT_VERSION_ID,
            Telemetry::Statustext(_) => 253,
            Telemetry::ComponentInformationBasic(_) => COMPONENT_INFORMATION_BASIC_ID,
            Telemetry::Other(other) => other.id,
        }
    }
}

/// The voltage of all cells that are present, in millivolts.
pub open spec fn total_voltage(cells: Seq<u16>) -> nat
    decreases cells.len(),
{
    if cells.len() == 0 {
        0
    } else if cells.last() == 0xffff {
        total_voltage(cells.drop_last())
    } else {
        total_voltage(cells.drop_last()) + cells.last() as nat
    }
}

/// Adds up the voltages of the cells that are present.
pub fn sum_voltages(cells: &[u16; 10]) -> (r: u32)
    ensures
        r == total_voltage(cells@),
{
    let mut sum: u32 = 0;
    let mut i: usize = 0;
    assert(cells@.take(0) =~= Seq::empty());
    while i < 10
        invariant
            i <= 10,
            sum <= i * 0xffff,
            sum == total_voltage(cells@.take(i as int)),
        decreases 10 - i,
    {
        assert(cells@.take(i as int + 1).drop_last() =~= cells@.take(i as int));
        if cells[i] != 0xffff {
            sum = sum + cells[i] as u32;
        }
        i += 1;
    }
    assert(cells@.take(10) =~= cells@);
    sum
}

} // verus!
