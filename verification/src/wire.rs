//! Payloads of frames, and the messages that they hold.

use crate::dialect::{
    crc_extra, dialect_crc_extra, dialect_reads, in_dialect, largest_payload, message_size, within,
};
use crate::ident::{Ident, MavlinkId};
use crate::telemetry::{
    message_id, AttitudeEuler, AttitudeQuaternion, AutopilotVersion, BatteryStatus,
    ComponentInformationBasic, GlobalPositionInt, GlobalPositionIntCov, Heartbeat, MavSeverity,
    OtherMessage, ParamValue, Statustext, SysStatus, Telemetry,
};
use crate::value::{as_signed, MavParamType};
use mavio::dialects::common::messages;
use mavio::protocol::{MavLinkVersion, Payload};
use vstd::prelude::*;

verus! {

/// The payload of a frame: the number of its message, and whether the frame is one of
/// MAVLink 2.
#[derive(Debug)]
pub struct RawPayload {
    pub id: u32,
    pub v2: bool,
    pub bytes: Vec<u8>,
}

impl Clone for RawPayload {
    fn clone(&self) -> (r: Self)
        ensures
            r.id == self.id,
            r.v2 == self.v2,
            r.bytes@ == self.bytes@,
    {
        RawPayload { id: self.id, v2: self.v2, bytes: copy_bytes(self.bytes.as_slice()) }
    }
}

/// A message as it came in, and what it tells.
#[derive(Debug)]
pub struct WireMessage {
    pub payload: RawPayload,
    pub content: Telemetry,
}

/// How many bytes are left of some bytes without the zeros at their end.
pub open spec fn kept(bytes: Seq<u8>) -> nat
    decreases bytes.len(),
{
    if bytes.len() == 0 {
        0
    } else if bytes.last() == 0 {
        kept(bytes.drop_last())
    } else {
        bytes.len()
    }
}

/// The bytes of a message of at most `full` bytes. MAVLink 2 leaves zeros at the end
/// away; MAVLink 1 has just the `base` bytes before the extensions, which are zeros
/// then.
pub open spec fn body(bytes: Seq<u8>, v2: bool, base: int, full: nat) -> Option<Seq<u8>> {
    if v2 || bytes.len() == base {
        Some(
            Seq::new(
                full,
                |i: int|
                    if i < bytes.len() {
                        bytes[i]
                    } else {
                        0
                    },
            ),
        )
    } else {
        None
    }
}

/// The number in two bytes, the lower one first.
pub open spec fn le2(b: Seq<u8>, at: int) -> int {
    b[at] + 0x100 * b[at + 1]
}

/// The number in four bytes, the lowest first.
pub open spec fn le4(b: Seq<u8>, at: int) -> int {
    le2(b, at) + 0x1_0000 * le2(b, at + 2)
}

/// The number in eight bytes, the lowest first.
pub open spec fn le8(b: Seq<u8>, at: int) -> int {
    le4(b, at) + 0x1_0000_0000 * le4(b, at + 4)
}

/// The signed number in one byte.
pub open spec fn signed1(b: Seq<u8>, at: int) -> int {
    as_signed(b[at] as int, 0x100)
}

/// The signed number in two bytes, the lower one first.
pub open spec fn signed2(b: Seq<u8>, at: int) -> int {
    as_signed(le2(b, at), 0x1_0000)
}

/// The signed number in four bytes, the lowest first.
pub open spec fn signed4(b: Seq<u8>, at: int) -> int {
    as_signed(le4(b, at), 0x1_0000_0000)
}

// ---------------------------------------------------------------------------
// The messages that are listened to, all of mavio's common dialect
// ---------------------------------------------------------------------------

/// The state of the vehicle in a `HEARTBEAT`; `None` where the number of the type, of the
/// autopilot or of the state has no meaning.
pub open spec fn heartbeat_in(b: Seq<u8>) -> Option<Heartbeat> {
    if b[4] <= 44 && b[5] <= 20 && b[7] <= 8 {
        Some(Heartbeat { mav_type: b[4], system_status: b[7] })
    } else {
        None
    }
}

/// `messages::Heartbeat::try_from` on `Payload::new`: reads the
/// type and the state of the vehicle. Fails where the numbers of the type, the autopilot
/// or the state have no meaning, and in MAVLink 1 on another size.
#[verifier::external_body]
fn read_heartbeat(payload: &[u8], v2: bool) -> (r: Option<Heartbeat>)
    requires
        v2 ==> kept(payload@) <= 9,
    ensures
        r == match body(payload@, v2, 9, 9) {
            Some(b) => heartbeat_in(b),
            None => None,
        },
{
    let version = [MavLinkVersion::V1, MavLinkVersion::V2][v2 as usize];
    let payload = Payload::new(messages::Heartbeat::ID, payload, version);
    messages::Heartbeat::try_from(&payload).ok().map(|m| Heartbeat {
        mav_type: m.type_ as u8,
        system_status: m.system_status as u8,
    })
}

/// The state of the system in a `SYS_STATUS`.
pub open spec fn sys_status_in(b: Seq<u8>) -> SysStatus {
    SysStatus {
        voltage_battery: le2(b, 14) as u16,
        current_battery: signed2(b, 16) as i16,
        battery_remaining: signed1(b, 30) as i8,
    }
}

/// `messages::SysStatus::try_from` on `Payload::new`: reads what
/// is known of the battery. Fails only in MAVLink 1, on another size.
#[verifier::external_body]
fn read_sys_status(payload: &[u8], v2: bool) -> (r: Option<SysStatus>)
    requires
        v2 ==> kept(payload@) <= 43,
    ensures
        r == match body(payload@, v2, 31, 43) {
            Some(b) => Some(sys_status_in(b)),
            None => None,
        },
{
    let version = [MavLinkVersion::V1, MavLinkVersion::V2][v2 as usize];
    let payload = Payload::new(messages::SysStatus::ID, payload, version);
    messages::SysStatus::try_from(&payload).ok().map(|m| SysStatus {
        voltage_battery: m.voltage_battery,
        current_battery: m.current_battery,
        battery_remaining: m.battery_remaining,
    })
}

/// A parameter as the wire has it: its value, the number of its type, how many there are,
/// its index, and its name.
struct RawParam {
    value: u32,
    kind: u8,
    count: u16,
    index: u16,
    name: [u8; 16],
}

/// `messages::ParamValue::try_from` on `Payload::new`: reads a
/// parameter. Fails where the number of the type has no meaning, and in MAVLink 1 on
/// another size.
#[verifier::external_body]
fn read_param_value(payload: &[u8], v2: bool) -> (r: Option<RawParam>)
    requires
        v2 ==> kept(payload@) <= 25,
    ensures
        match r {
            Some(m) => body(payload@, v2, 25, 25) matches Some(b) && {
                &&& 1 <= b[24] <= 10
                &&& m.value == le4(b, 0)
                &&& m.kind == b[24]
                &&& m.count == le2(b, 4)
                &&& m.index == le2(b, 6)
                &&& m.name@ == b.subrange(8, 24)
            },
            None => body(payload@, v2, 25, 25) matches Some(b) ==> b[24] < 1 || b[24] > 10,
        },
{
    let version = [MavLinkVersion::V1, MavLinkVersion::V2][v2 as usize];
    let payload = Payload::new(messages::ParamValue::ID, payload, version);
    messages::ParamValue::try_from(&payload).ok().map(|m| RawParam {
        value: m.param_value.to_bits(),
        kind: m.param_type as u8,
        count: m.param_count,
        index: m.param_index,
        name: m.param_id,
    })
}

/// The attitude in an `ATTITUDE`.
pub open spec fn attitude_in(b: Seq<u8>) -> AttitudeEuler {
    AttitudeEuler {
        roll: le4(b, 4) as u32,
        pitch: le4(b, 8) as u32,
        yaw: le4(b, 12) as u32,
        rollspeed: le4(b, 16) as u32,
        pitchspeed: le4(b, 20) as u32,
        yawspeed: le4(b, 24) as u32,
    }
}

/// `messages::Attitude::try_from` on `Payload::new`: reads the
/// Euler angles and the rates, by the bit patterns of the singles. Fails only in
/// MAVLink 1, on another size.
#[verifier::external_body]
fn read_attitude(payload: &[u8], v2: bool) -> (r: Option<AttitudeEuler>)
    requires
        v2 ==> kept(payload@) <= 28,
    ensures
        r == match body(payload@, v2, 28, 28) {
            Some(b) => Some(attitude_in(b)),
            None => None,
        },
{
    let version = [MavLinkVersion::V1, MavLinkVersion::V2][v2 as usize];
    let payload = Payload::new(messages::Attitude::ID, payload, version);
    messages::Attitude::try_from(&payload).ok().map(|m| AttitudeEuler {
        roll: m.roll.to_bits(),
        pitch: m.pitch.to_bits(),
        yaw: m.yaw.to_bits(),
        rollspeed: m.rollspeed.to_bits(),
        pitchspeed: m.pitchspeed.to_bits(),
        yawspeed: m.yawspeed.to_bits(),
    })
}

/// The attitude in an `ATTITUDE_QUATERNION`.
pub open spec fn attitude_quaternion_in(b: Seq<u8>) -> AttitudeQuaternion {
    AttitudeQuaternion {
        q1: le4(b, 4) as u32,
        q2: le4(b, 8) as u32,
        q3: le4(b, 12) as u32,
        q4: le4(b, 16) as u32,
        rollspeed: le4(b, 20) as u32,
        pitchspeed: le4(b, 24) as u32,
        yawspeed: le4(b, 28) as u32,
    }
}

/// `messages::AttitudeQuaternion::try_from` on `Payload::new`: 
/// reads the quaternion and the rates, by the bit patterns of the singles. Fails only in
/// MAVLink 1, on another size.
#[verifier::external_body]
fn read_attitude_quaternion(payload: &[u8], v2: bool) -> (r: Option<AttitudeQuaternion>)
    requires
        v2 ==> kept(payload@) <= 48,
    ensures
        r == match body(payload@, v2, 32, 48) {
            Some(b) => Some(attitude_quaternion_in(b)),
            None => None,
        },
{
    let version = [MavLinkVersion::V1, MavLinkVersion::V2][v2 as usize];
    let payload = Payload::new(messages::AttitudeQuaternion::ID, payload, version);
    messages::AttitudeQuaternion::try_from(&payload).ok().map(|m| AttitudeQuaternion {
        q1: m.q1.to_bits(),
        q2: m.q2.to_bits(),
        q3: m.q3.to_bits(),
        q4: m.q4.to_bits(),
        rollspeed: m.rollspeed.to_bits(),
        pitchspeed: m.pitchspeed.to_bits(),
        yawspeed: m.yawspeed.to_bits(),
    })
}

/// The position in a `GLOBAL_POSITION_INT`.
pub open spec fn global_position_in(b: Seq<u8>) -> GlobalPositionInt {
    GlobalPositionInt {
        lat: signed4(b, 4) as i32,
        lon: signed4(b, 8) as i32,
        alt: signed4(b, 12) as i32,
        relative_alt: signed4(b, 16) as i32,
        vx: signed2(b, 20) as i16,
        vy: signed2(b, 22) as i16,
        vz: signed2(b, 24) as i16,
    }
}

/// `messages::GlobalPositionInt::try_from` on `Payload::new`: 
/// reads the position and the velocity. Fails only in MAVLink 1, on another size.
#[verifier::external_body]
fn read_global_position(payload: &[u8], v2: bool) -> (r: Option<GlobalPositionInt>)
    requires
        v2 ==> kept(payload@) <= 28,
    ensures
        r == match body(payload@, v2, 28, 28) {
            Some(b) => Some(global_position_in(b)),
            None => None,
        },
{
    let version = [MavLinkVersion::V1, MavLinkVersion::V2][v2 as usize];
    let payload = Payload::new(messages::GlobalPositionInt::ID, payload, version);
    messages::GlobalPositionInt::try_from(&payload).ok().map(|m| GlobalPositionInt {
        lat: m.lat,
        lon: m.lon,
        alt: m.alt,
        relative_alt: m.relative_alt,
        vx: m.vx,
        vy: m.vy,
        vz: m.vz,
    })
}

/// The position in a `GLOBAL_POSITION_INT_COV`; `None` where the number of the estimator
/// has no meaning.
pub open spec fn global_position_cov_in(b: Seq<u8>) -> Option<GlobalPositionIntCov> {
    if b[180] <= 8 {
        Some(
            GlobalPositionIntCov {
                lat: signed4(b, 8) as i32,
                lon: signed4(b, 12) as i32,
                alt: signed4(b, 16) as i32,
                relative_alt: signed4(b, 20) as i32,
                vx: le4(b, 24) as u32,
                vy: le4(b, 28) as u32,
                vz: le4(b, 32) as u32,
            },
        )
    } else {
        None
    }
}

/// `messages::GlobalPositionIntCov::try_from` on `Payload::new`: 
/// reads the position and the velocity, by the bit patterns of the singles. Fails where
/// the number of the estimator has no meaning, and in MAVLink 1 on another size.
#[verifier::external_body]
fn read_global_position_cov(payload: &[u8], v2: bool) -> (r: Option<GlobalPositionIntCov>)
    requires
        v2 ==> kept(payload@) <= 181,
    ensures
        r == match body(payload@, v2, 181, 181) {
            Some(b) => global_position_cov_in(b),
            None => None,
        },
{
    let version = [MavLinkVersion::V1, MavLinkVersion::V2][v2 as usize];
    let payload = Payload::new(messages::GlobalPositionIntCov::ID, payload, version);
    messages::GlobalPositionIntCov::try_from(&payload).ok().map(|m| GlobalPositionIntCov {
        lat: m.lat,
        lon: m.lon,
        alt: m.alt,
        relative_alt: m.relative_alt,
        vx: m.vx.to_bits(),
        vy: m.vy.to_bits(),
        vz: m.vz.to_bits(),
    })
}

/// The numbers that a `BATTERY_STATUS` has for functions, types, charges and modes have
/// a meaning.
pub open spec fn battery_known(b: Seq<u8>) -> bool {
    b[33] <= 4 && b[34] <= 4 && b[40] <= 7 && b[49] <= 2
}

/// `messages::BatteryStatus::try_from` on `Payload::new`: reads
/// what is known of the battery. Fails where the numbers of its function, type, charge or
/// mode have no meaning, and in MAVLink 1 on another size.
#[verifier::external_body]
fn read_battery_status(payload: &[u8], v2: bool) -> (r: Option<BatteryStatus>)
    requires
        v2 ==> kept(payload@) <= 54,
    ensures
        match r {
            Some(m) => body(payload@, v2, 36, 54) matches Some(b) && {
                &&& battery_known(b)
                &&& forall|i: int| 0 <= i < 10 ==> #[trigger] m.voltages@[i] == le2(b, 10 + 2 * i)
                &&& m.current_battery == signed2(b, 30)
                &&& m.battery_remaining == signed1(b, 35)
            },
            None => body(payload@, v2, 36, 54) matches Some(b) ==> !battery_known(b),
        },
{
    let version = [MavLinkVersion::V1, MavLinkVersion::V2][v2 as usize];
    let payload = Payload::new(messages::BatteryStatus::ID, payload, version);
    messages::BatteryStatus::try_from(&payload).ok().map(|m| BatteryStatus {
        voltages: m.voltages,
        current_battery: m.current_battery,
        battery_remaining: m.battery_remaining,
    })
}

/// The bits that stand for capabilities.
pub const KNOWN_CAPABILITIES: u64 = 0xf_ffff;

/// `messages::AutopilotVersion::try_from` on `Payload::new`: 
/// reads the capability bits, without those that stand for nothing. Fails only in
/// MAVLink 1, on another size.
#[verifier::external_body]
fn read_autopilot_version(payload: &[u8], v2: bool) -> (r: Option<u64>)
    requires
        v2 ==> kept(payload@) <= 78,
    ensures
        r == match body(payload@, v2, 60, 78) {
            Some(b) => Some(le8(b, 0) as u64 & KNOWN_CAPABILITIES),
            None => None,
        },
{
    let version = [MavLinkVersion::V1, MavLinkVersion::V2][v2 as usize];
    let payload = Payload::new(messages::AutopilotVersion::ID, payload, version);
    messages::AutopilotVersion::try_from(&payload).ok().map(|m| u64::from(m.capabilities.bits()))
}

/// `messages::Statustext::try_from` on `Payload::new`: reads the
/// number of the severity and the text. Fails where that number has no meaning, and in
/// MAVLink 1 on another size.
#[verifier::external_body]
fn read_statustext(payload: &[u8], v2: bool) -> (r: Option<(u8, [u8; 50])>)
    requires
        v2 ==> kept(payload@) <= 54,
    ensures
        match r {
            Some((severity, text)) => body(payload@, v2, 51, 54) matches Some(b) && {
                &&& b[0] <= 7
                &&& severity == b[0]
                &&& text@ == b.subrange(1, 51)
            },
            None => body(payload@, v2, 51, 54) matches Some(b) ==> b[0] > 7,
        },
{
    let version = [MavLinkVersion::V1, MavLinkVersion::V2][v2 as usize];
    let payload = Payload::new(messages::Statustext::ID, payload, version);
    messages::Statustext::try_from(&payload).ok().map(|m| (m.severity as u8, m.text))
}

/// `messages::ComponentInformationBasic::try_from` on `Payload::new`: 
/// reads the capability bits, without those that stand for nothing, and the names of the
/// vendor and the model. MAVLink 1 does not have this message.
#[verifier::external_body]
fn read_component_information(payload: &[u8], v2: bool) -> (r: Option<(u64, [u8; 32], [u8; 32])>)
    requires
        v2 ==> kept(payload@) <= 160,
    ensures
        match r {
            Some((capabilities, vendor, model)) => v2 && (body(payload@, v2, 160, 160) matches Some(b)
                && {
                &&& capabilities == le8(b, 0) as u64 & KNOWN_CAPABILITIES
                &&& vendor@ == b.subrange(16, 48)
                &&& model@ == b.subrange(48, 80)
            }),
            None => !v2,
        },
{
    let version = [MavLinkVersion::V1, MavLinkVersion::V2][v2 as usize];
    let payload = Payload::new(messages::ComponentInformationBasic::ID, payload, version);
    messages::ComponentInformationBasic::try_from(&payload).ok().map(|m| {
        (u64::from(m.capabilities.bits()), m.vendor_name, m.model_name)
    })
}

// ---------------------------------------------------------------------------
// Reading a payload
// ---------------------------------------------------------------------------

/// A payload that is no longer than its message, but for zeros at its end.
pub open spec fn fits(payload: RawPayload) -> bool {
    payload.v2 ==> within(payload.id, payload.bytes@)
}

fn count_kept(bytes: &[u8]) -> (r: usize)
    ensures
        r == kept(bytes@),
{
    let mut n: usize = bytes.len();
    assert(bytes@.take(n as int) =~= bytes@);
    while n > 0
        invariant
            n <= bytes@.len(),
            kept(bytes@.take(n as int)) == kept(bytes@),
        decreases n,
    {
        assert(bytes@.take(n as int).drop_last() =~= bytes@.take(n - 1));
        if bytes[n - 1] != 0 {
            return n;
        }
        n -= 1;
    }
    n
}

/// Whether a payload is no longer than its message, but for zeros at its end.
pub fn payload_fits(payload: &RawPayload) -> (r: bool)
    ensures
        r == fits(*payload),
{
    match largest_payload(payload.id) {
        Some(size) => !payload.v2 || count_kept(payload.bytes.as_slice()) <= size,
        None => true,
    }
}

/// The type of a parameter with a number.
pub open spec fn param_type_in(number: u8) -> MavParamType {
    match number {
        1 => MavParamType::Uint8,
        2 => MavParamType::Int8,
        3 => MavParamType::Uint16,
        4 => MavParamType::Int16,
        5 => MavParamType::Uint32,
        6 => MavParamType::Int32,
        7 => MavParamType::Uint64,
        8 => MavParamType::Int64,
        9 => MavParamType::Real32,
        _ => MavParamType::Real64,
    }
}

fn param_type_of(number: u8) -> (r: MavParamType)
    ensures
        r == param_type_in(number),
{
    match number {
        1 => MavParamType::Uint8,
        2 => MavParamType::Int8,
        3 => MavParamType::Uint16,
        4 => MavParamType::Int16,
        5 => MavParamType::Uint32,
        6 => MavParamType::Int32,
        7 => MavParamType::Uint64,
        8 => MavParamType::Int64,
        9 => MavParamType::Real32,
        _ => MavParamType::Real64,
    }
}

/// The severity with a number.
pub open spec fn severity_in(number: u8) -> MavSeverity {
    match number {
        0 => MavSeverity::Emergency,
        1 => MavSeverity::Alert,
        2 => MavSeverity::Critical,
        3 => MavSeverity::Error,
        4 => MavSeverity::Warning,
        5 => MavSeverity::Notice,
        6 => MavSeverity::Info,
        _ => MavSeverity::Debug,
    }
}

fn severity_of(number: u8) -> (r: MavSeverity)
    ensures
        r == severity_in(number),
{
    match number {
        0 => MavSeverity::Emergency,
        1 => MavSeverity::Alert,
        2 => MavSeverity::Critical,
        3 => MavSeverity::Error,
        4 => MavSeverity::Warning,
        5 => MavSeverity::Notice,
        6 => MavSeverity::Info,
        _ => MavSeverity::Debug,
    }
}

/// `message` is the one in the bytes of a `PARAM_VALUE`. Its name is made by `wire_name`.
pub open spec fn param_value_in<N: Fn(&[u8; 16]) -> Option<Ident>>(
    wire_name: N,
    b: Seq<u8>,
    message: ParamValue,
) -> bool {
    &&& message.param_value == le4(b, 0)
    &&& message.param_type == param_type_in(b[24])
    &&& message.param_count == le2(b, 4)
    &&& message.param_index == le2(b, 6)
    &&& exists|name: &[u8; 16]|
        name@ == b.subrange(8, 24) && #[trigger] call_ensures(
            wire_name,
            (name,),
            message.param_id,
        )
}

/// `message` is the one in the bytes of a `BATTERY_STATUS`.
pub open spec fn battery_status_in(b: Seq<u8>, message: BatteryStatus) -> bool {
    &&& forall|i: int| 0 <= i < 10 ==> #[trigger] message.voltages@[i] == le2(b, 10 + 2 * i)
    &&& message.current_battery == signed2(b, 30)
    &&& message.battery_remaining == signed1(b, 35)
}

/// The messages with this number are listened to.
pub open spec fn listened_to(id: u32) -> bool {
    ||| id == 0
    ||| id == 1
    ||| id == 22
    ||| id == 30
    ||| id == 31
    ||| id == 33
    ||| id == 63
    ||| id == 147
    ||| id == 148
    ||| id == 253
    ||| id == 396
}

/// `message` is the one in a payload, or there is none in it. Names of parameters are
/// made by `wire_name`.
pub open spec fn holds_message<N: Fn(&[u8; 16]) -> Option<Ident>>(
    wire_name: N,
    payload: RawPayload,
    message: Option<Telemetry>,
) -> bool {
    let bytes = payload.bytes@;
    let v2 = payload.v2;
    if payload.id == 0 {
        message == match body(bytes, v2, 9, 9) {
            Some(b) => match heartbeat_in(b) {
                Some(m) => Some(Telemetry::Heartbeat(m)),
                None => None,
            },
            None => None,
        }
    } else if payload.id == 1 {
        message == match body(bytes, v2, 31, 43) {
            Some(b) => Some(Telemetry::SysStatus(sys_status_in(b))),
            None => None,
        }
    } else if payload.id == 22 {
        match body(bytes, v2, 25, 25) {
            Some(b) => if 1 <= b[24] <= 10 {
                message matches Some(Telemetry::ParamValue(m)) && param_value_in(wire_name, b, m)
            } else {
                message is None
            },
            None => message is None,
        }
    } else if payload.id == 30 {
        message == match body(bytes, v2, 28, 28) {
            Some(b) => Some(Telemetry::Attitude(attitude_in(b))),
            None => None,
        }
    } else if payload.id == 31 {
        message == match body(bytes, v2, 32, 48) {
            Some(b) => Some(Telemetry::AttitudeQuaternion(attitude_quaternion_in(b))),
            None => None,
        }
    } else if payload.id == 33 {
        message == match body(bytes, v2, 28, 28) {
            Some(b) => Some(Telemetry::GlobalPositionInt(global_position_in(b))),
            None => None,
        }
    } else if payload.id == 63 {
        message == match body(bytes, v2, 181, 181) {
            Some(b) => match global_position_cov_in(b) {
                Some(m) => Some(Telemetry::GlobalPositionIntCov(m)),
                None => None,
            },
            None => None,
        }
    } else if payload.id == 147 {
        match body(bytes, v2, 36, 54) {
            Some(b) => if battery_known(b) {
                message matches Some(Telemetry::BatteryStatus(m)) && battery_status_in(b, m)
            } else {
                message is None
            },
            None => message is None,
        }
    } else if payload.id == 148 {
        message == match body(bytes, v2, 60, 78) {
            Some(b) => Some(
                Telemetry::AutopilotVersion(
                    AutopilotVersion { capabilities: le8(b, 0) as u64 & KNOWN_CAPABILITIES },
                ),
            ),
            None => None,
        }
    } else if payload.id == 253 {
        match body(bytes, v2, 51, 54) {
            Some(b) => if b[0] <= 7 {
                message matches Some(Telemetry::Statustext(m)) && m.severity == severity_in(b[0])
                    && m.text@ == b.subrange(1, 51)
            } else {
                message is None
            },
            None => message is None,
        }
    } else if payload.id == 396 {
        match body(bytes, v2, 160, 160) {
            Some(b) => if v2 {
                message matches Some(Telemetry::ComponentInformationBasic(m)) && {
                    &&& m.capabilities == le8(b, 0) as u64 & KNOWN_CAPABILITIES
                    &&& m.vendor_name@ == b.subrange(16, 48)
                    &&& m.model_name@ == b.subrange(48, 80)
                }
            } else {
                message is None
            },
            None => message is None,
        }
    } else {
        message == other_in(payload.id, in_dialect(payload.id, v2, bytes))
    }
}

/// The message in a payload that is not listened to: one, where the dialect reads it.
pub open spec fn other_in(id: u32, reads: bool) -> Option<Telemetry> {
    if reads {
        Some(Telemetry::Other(OtherMessage { id }))
    } else {
        None
    }
}

/// The message with a number that is not listened to, where the dialect reads it.
pub fn other_message(id: u32, reads: bool) -> (r: Option<Telemetry>)
    ensures
        r == other_in(id, reads),
{
    if reads {
        Some(Telemetry::Other(OtherMessage { id }))
    } else {
        None
    }
}

/// Copies bytes.
fn copy_bytes(bytes: &[u8]) -> (r: Vec<u8>)
    ensures
        r@ == bytes@,
{
    let mut r: Vec<u8> = Vec::new();
    let mut i: usize = 0;
    while i < bytes.len()
        invariant
            i <= bytes@.len(),
            r@ == bytes@.take(i as int),
        decreases bytes@.len() - i,
    {
        r.push(bytes[i]);
        assert(r@ =~= bytes@.take(i as int + 1));
        i += 1;
    }
    assert(r@ =~= bytes@);
    r
}

/// Reads the message in a payload. Names of parameters are made by `wire_name`.
pub fn decode<N: Fn(&[u8; 16]) -> Option<Ident>>(payload: &RawPayload, wire_name: &N) -> (r: Option<
    Telemetry,
>)
    requires
        fits(*payload),
        forall|name: &[u8; 16]| call_requires(*wire_name, (name,)),
    ensures
        holds_message(*wire_name, *payload, r),
{
    proof {
        reveal(message_size);
    }
    let bytes = payload.bytes.as_slice();
    let v2 = payload.v2;
    match payload.id {
        0 => match read_heartbeat(bytes, v2) {
            Some(m) => Some(Telemetry::Heartbeat(m)),
            None => None,
        },
        1 => match read_sys_status(bytes, v2) {
            Some(m) => Some(Telemetry::SysStatus(m)),
            None => None,
        },
        22 => match read_param_value(bytes, v2) {
            Some(raw) => {
                let name = &raw.name;
                let param_id = wire_name(name);
                assert(call_ensures(*wire_name, (name,), param_id));
                Some(
                    Telemetry::ParamValue(
                        ParamValue {
                            param_id,
                            param_value: raw.value,
                            param_type: param_type_of(raw.kind),
                            param_count: raw.count,
                            param_index: raw.index,
                        },
                    ),
                )
            },
            None => None,
        },
        30 => match read_attitude(bytes, v2) {
            Some(m) => Some(Telemetry::Attitude(m)),
            None => None,
        },
        31 => match read_attitude_quaternion(bytes, v2) {
            Some(m) => Some(Telemetry::AttitudeQuaternion(m)),
            None => None,
        },
        33 => match read_global_position(bytes, v2) {
            Some(m) => Some(Telemetry::GlobalPositionInt(m)),
            None => None,
        },
        63 => match read_global_position_cov(bytes, v2) {
            Some(m) => Some(Telemetry::GlobalPositionIntCov(m)),
            None => None,
        },
        147 => match read_battery_status(bytes, v2) {
            Some(m) => Some(Telemetry::BatteryStatus(m)),
            None => None,
        },
        148 => match read_autopilot_version(bytes, v2) {
            Some(capabilities) => Some(
                Telemetry::AutopilotVersion(AutopilotVersion { capabilities }),
            ),
            None => None,
        },
        253 => match read_statustext(bytes, v2) {
            Some((severity, text)) => Some(
                Telemetry::Statustext(
                    Statustext {
                        severity: severity_of(severity),
                        text: copy_bytes(text.as_slice()),
                    },
                ),
            ),
            None => None,
        },
        396 => match read_component_information(bytes, v2) {
            Some((capabilities, vendor, model)) => Some(
                Telemetry::ComponentInformationBasic(
                    ComponentInformationBasic {
                        capabilities,
                        vendor_name: copy_bytes(vendor.as_slice()),
                        model_name: copy_bytes(model.as_slice()),
                    },
                ),
            ),
            None => None,
        },
        id => other_message(id, dialect_reads(id, bytes, v2)),
    }
}

/// `COMMAND_ACK`'s number.
pub const COMMAND_ACK_ID: u32 = 77;

/// `messages::CommandAck::try_from` on `Payload::new`: reads the number of the command
/// that is acknowledged, and to whom. It fails where `Common::decode` fails, which reads
/// the message with this number by it: where the number of the command or of the result
/// has no meaning, and in MAVLink 1 on another size.
#[verifier::external_body]
fn read_command_ack(payload: &[u8], v2: bool) -> (r: Option<(u16, MavlinkId)>)
    requires
        v2 ==> kept(payload@) <= 10,
    ensures
        match r {
            Some((command, target)) => in_dialect(COMMAND_ACK_ID, v2, payload@) && (body(
                payload@,
                v2,
                3,
                10,
            ) matches Some(b) && {
                &&& command == le2(b, 0)
                &&& target.system == b[8]
                &&& target.component == b[9]
            }),
            None => !in_dialect(COMMAND_ACK_ID, v2, payload@),
        },
{
    let version = [MavLinkVersion::V1, MavLinkVersion::V2][v2 as usize];
    let payload = Payload::new(messages::CommandAck::ID, payload, version);
    messages::CommandAck::try_from(&payload).ok().map(|m| {
        let target = MavlinkId { system: m.target_system, component: m.target_component };
        (m.command as u16, target)
    })
}

// ---------------------------------------------------------------------------
// Reading a frame
// ---------------------------------------------------------------------------

/// A frame: who sent it, the bytes of its header behind the first one, its payload, in
/// MAVLink 2 without zeros at the end, and the checksum that it carries.
#[derive(Debug)]
pub struct RawFrame {
    pub sender: MavlinkId,
    pub head: Vec<u8>,
    pub payload: RawPayload,
    pub checksum: u16,
}

impl Clone for RawFrame {
    fn clone(&self) -> (r: Self)
        ensures
            r.sender == self.sender,
            r.head@ == self.head@,
            r.payload.id == self.payload.id,
            r.payload.v2 == self.payload.v2,
            r.payload.bytes@ == self.payload.bytes@,
            r.checksum == self.checksum,
    {
        RawFrame {
            sender: self.sender,
            head: copy_bytes(self.head.as_slice()),
            payload: self.payload.clone(),
            checksum: self.checksum,
        }
    }
}

/// A checksum one bit on, by the polynomial of CRC-16/MCRF4XX.
pub open spec fn crc_bit(crc: u16) -> u16 {
    if crc & 1 == 1 {
        (crc >> 1) ^ 0x8408
    } else {
        crc >> 1
    }
}

/// A checksum some bits on.
pub open spec fn crc_bits(crc: u16, n: nat) -> u16
    decreases n,
{
    if n == 0 {
        crc
    } else {
        crc_bit(crc_bits(crc, (n - 1) as nat))
    }
}

/// The checksum of some bytes: CRC-16/MCRF4XX.
pub open spec fn crc_of(bytes: Seq<u8>) -> u16
    decreases bytes.len(),
{
    if bytes.len() == 0 {
        0xffff
    } else {
        crc_bits(crc_of(bytes.drop_last()) ^ bytes.last() as u16, 8)
    }
}

/// A frame carries the checksum of its header, its payload and the byte `extra` for the
/// layout of its message.
pub open spec fn intact(frame: RawFrame, extra: u8) -> bool {
    frame.checksum == crc_of((frame.head@ + frame.payload.bytes@).push(extra))
}

/// Takes a byte into a checksum.
fn crc_byte(crc: u16, byte: u8) -> (r: u16)
    ensures
        r == crc_bits(crc ^ byte as u16, 8),
{
    let ghost start = crc ^ byte as u16;
    let mut r: u16 = crc ^ byte as u16;
    let mut i: usize = 0;
    while i < 8
        invariant
            i <= 8,
            r == crc_bits(start, i as nat),
        decreases 8 - i,
    {
        r = if r & 1 == 1 {
            (r >> 1) ^ 0x8408
        } else {
            r >> 1
        };
        i += 1;
    }
    r
}

/// Takes bytes into the checksum of those before them.
fn crc_on(crc: u16, bytes: &[u8], Ghost(before): Ghost<Seq<u8>>) -> (r: u16)
    requires
        crc == crc_of(before),
    ensures
        r == crc_of(before + bytes@),
{
    let mut r: u16 = crc;
    let mut i: usize = 0;
    assert(before + bytes@.take(0) =~= before);
    while i < bytes.len()
        invariant
            i <= bytes@.len(),
            r == crc_of(before + bytes@.take(i as int)),
        decreases bytes@.len() - i,
    {
        let ghost next = before + bytes@.take(i as int + 1);
        assert(next.drop_last() =~= before + bytes@.take(i as int));
        r = crc_byte(r, bytes[i]);
        i += 1;
    }
    assert(bytes@.take(i as int) =~= bytes@);
    r
}

/// Whether a frame carries the checksum of what it holds; `extra` is the byte for the
/// layout of its message.
pub fn checksum_holds(frame: &RawFrame, extra: u8) -> (r: bool)
    ensures
        r == intact(*frame, extra),
{
    let ghost start = Seq::<u8>::empty();
    let head: u16 = crc_on(0xffff, frame.head.as_slice(), Ghost(start));
    assert(start + frame.head@ =~= frame.head@);
    let whole: u16 = crc_on(head, frame.payload.bytes.as_slice(), Ghost(frame.head@));
    let ghost covered = (frame.head@ + frame.payload.bytes@).push(extra);
    assert(covered.drop_last() =~= frame.head@ + frame.payload.bytes@);
    frame.checksum == crc_byte(whole, extra)
}

/// A frame is one of the dialect, and came through whole.
pub open spec fn sound(frame: RawFrame) -> bool {
    crc_extra(frame.payload.id) matches Some(extra) && intact(frame, extra)
}

fn is_sound(frame: &RawFrame) -> (r: bool)
    ensures
        r == sound(*frame),
{
    match dialect_crc_extra(frame.payload.id) {
        Some(extra) => checksum_holds(frame, extra),
        None => false,
    }
}

/// `message` is the one in a frame, or there is none in it: where the dialect has no such
/// message, where the checksum is another one, or where the payload holds none.
pub open spec fn frame_holds<N: Fn(&[u8; 16]) -> Option<Ident>>(
    wire_name: N,
    frame: RawFrame,
    message: Option<Telemetry>,
) -> bool {
    if sound(frame) {
        holds_message(wire_name, frame.payload, message)
    } else {
        message is None
    }
}

/// Reads the message in a frame. Names of parameters are made by `wire_name`.
pub fn decode_frame<N: Fn(&[u8; 16]) -> Option<Ident>>(frame: &RawFrame, wire_name: &N) -> (r:
    Option<Telemetry>)
    requires
        fits(frame.payload),
        forall|name: &[u8; 16]| call_requires(*wire_name, (name,)),
    ensures
        frame_holds(*wire_name, *frame, r),
{
    if is_sound(frame) {
        decode(&frame.payload, wire_name)
    } else {
        None
    }
}

/// The acknowledgement in a frame: the number of the command, and to whom.
pub open spec fn ack_in(frame: RawFrame) -> Option<(u16, MavlinkId)> {
    let payload = frame.payload;
    match body(payload.bytes@, payload.v2, 3, 10) {
        Some(b) => if payload.id == COMMAND_ACK_ID && sound(frame) && in_dialect(
            COMMAND_ACK_ID,
            payload.v2,
            payload.bytes@,
        ) {
            Some((le2(b, 0) as u16, MavlinkId { system: b[8], component: b[9] }))
        } else {
            None
        },
        None => None,
    }
}

/// Reads the acknowledgement in a frame.
pub fn command_ack(frame: &RawFrame) -> (r: Option<(u16, MavlinkId)>)
    requires
        fits(frame.payload),
    ensures
        r == ack_in(*frame),
{
    proof {
        reveal(message_size);
    }
    if frame.payload.id == COMMAND_ACK_ID && is_sound(frame) {
        read_command_ack(frame.payload.bytes.as_slice(), frame.payload.v2)
    } else {
        None
    }
}

/// The message in a payload is the one with the payload's number.
pub proof fn law_decoding_keeps_id<N: Fn(&[u8; 16]) -> Option<Ident>>(
    wire_name: N,
    payload: RawPayload,
    message: Option<Telemetry>,
)
    requires
        holds_message(wire_name, payload, message),
    ensures
        message matches Some(m) ==> message_id(m) == payload.id,
{
}

/// A frame whose message the dialect does not have, or whose checksum is another one,
/// holds no message and no acknowledgement.
pub proof fn law_unsound_frames_hold_nothing<N: Fn(&[u8; 16]) -> Option<Ident>>(
    wire_name: N,
    frame: RawFrame,
    message: Option<Telemetry>,
)
    requires
        frame_holds(wire_name, frame, message),
        crc_extra(frame.payload.id) matches Some(extra) ==> !intact(frame, extra),
    ensures
        message is None,
        ack_in(frame) is None,
{
}

/// A frame whose message is not listened to, and which the dialect does not read, holds
/// no message.
pub proof fn law_unread_frames_hold_nothing<N: Fn(&[u8; 16]) -> Option<Ident>>(
    wire_name: N,
    frame: RawFrame,
    message: Option<Telemetry>,
)
    requires
        frame_holds(wire_name, frame, message),
        !listened_to(frame.payload.id),
        !in_dialect(frame.payload.id, frame.payload.v2, frame.payload.bytes@),
    ensures
        message is None,
{
}

} // verus!
