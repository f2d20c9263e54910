//! The messages in payloads, byte by byte.

use crate::dialect::in_dialect;
use crate::ident::Ident;
use crate::telemetry::{MavSeverity, Telemetry};
use crate::value::MavParamType;
use crate::wire::{body, frame_holds, holds_message, sound, RawFrame, RawPayload};
use vstd::prelude::*;

verus! {

/// A number of sixteen bits in two bytes, the lower one first.
pub open spec fn two(b: Seq<u8>, at: int) -> int {
    b[at] + 256 * b[at + 1]
}

/// A number of thirty-two bits in four bytes, the lowest first.
pub open spec fn four(b: Seq<u8>, at: int) -> int {
    b[at] + 256 * b[at + 1] + 65536 * b[at + 2] + 16777216 * b[at + 3]
}

/// The capability bits that stand for something, in eight bytes.
pub open spec fn eight(b: Seq<u8>, at: int) -> int {
    four(b, at) + 4294967296 * four(b, at + 4)
}

/// Heartbeats: the type in the fifth byte and the state in the eighth, where the numbers of
/// both and of the autopilot mean something.
pub proof fn law_heartbeats_are_read<N: Fn(&[u8; 16]) -> Option<Ident>>(
    wire_name: N,
    p: RawPayload,
    b: Seq<u8>,
    message: Option<Telemetry>,
)
    requires
        p.id == 0,
        body(p.bytes@, p.v2, 9, 9) == Some(b),
        holds_message(wire_name, p, message),
    ensures
        b[4] <= 44 && b[5] <= 20 && b[7] <= 8 ==> (message matches Some(Telemetry::Heartbeat(m))
            && m.mav_type == b[4] && m.system_status == b[7]),
        b[4] > 44 || b[5] > 20 || b[7] > 8 ==> message is None,
{
}

/// The state of the system: voltage, current and what is left of the battery.
pub proof fn law_system_states_are_read<N: Fn(&[u8; 16]) -> Option<Ident>>(
    wire_name: N,
    p: RawPayload,
    b: Seq<u8>,
    message: Option<Telemetry>,
)
    requires
        p.id == 1,
        body(p.bytes@, p.v2, 31, 43) == Some(b),
        holds_message(wire_name, p, message),
    ensures
        message matches Some(Telemetry::SysStatus(m)) && m.voltage_battery == two(b, 14) && (
        m.current_battery == two(b, 16) || m.current_battery == two(b, 16) - 65536) && (
        m.battery_remaining == b[30] || m.battery_remaining == b[30] - 256),
{
}

/// Parameters: value, number of parameters, index, name and type, where the type means
/// something.
pub proof fn law_parameters_are_read<N: Fn(&[u8; 16]) -> Option<Ident>>(
    wire_name: N,
    p: RawPayload,
    b: Seq<u8>,
    message: Option<Telemetry>,
)
    requires
        p.id == 22,
        body(p.bytes@, p.v2, 25, 25) == Some(b),
        holds_message(wire_name, p, message),
    ensures
        b[24] < 1 || b[24] > 10 ==> message is None,
        1 <= b[24] <= 10 ==> (message matches Some(Telemetry::ParamValue(m)) && {
            &&& m.param_value == four(b, 0)
            &&& m.param_count == two(b, 4)
            &&& m.param_index == two(b, 6)
            &&& exists|name: &[u8; 16]|
                name@ == b.subrange(8, 24) && #[trigger] call_ensures(
                    wire_name,
                    (name,),
                    m.param_id,
                )
            &&& m.param_type == match b[24] {
                1 => MavParamType::Uint8,
                2 => MavParamType::Int8,
                3 => MavParamType::Uint16,
                4 => MavParamType::Int16,
                5 => MavParamType::Uint32,
                6 => MavParamType::Int32,
                7 => MavParamType::Uint64,
                8 => MavParamType::Int64,
                9 => MavParamType::Real32,
                _ => MavParamType::Real64,
            }
        }),
{
}

/// Attitudes: angles and rates behind the time.
pub proof fn law_attitudes_are_read<N: Fn(&[u8; 16]) -> Option<Ident>>(
    wire_name: N,
    p: RawPayload,
    b: Seq<u8>,
    message: Option<Telemetry>,
)
    requires
        p.id == 30,
        body(p.bytes@, p.v2, 28, 28) == Some(b),
        holds_message(wire_name, p, message),
    ensures
        message matches Some(Telemetry::Attitude(m)) && m.roll == four(b, 4) && m.pitch == four(
            b,
            8,
        ) && m.yaw == four(b, 12) && m.rollspeed == four(b, 16) && m.pitchspeed == four(b, 20)
            && m.yawspeed == four(b, 24),
{
}

/// Attitudes by quaternions: the quaternion and the rates behind the time.
pub proof fn law_quaternions_are_read<N: Fn(&[u8; 16]) -> Option<Ident>>(
    wire_name: N,
    p: RawPayload,
    b: Seq<u8>,
    message: Option<Telemetry>,
)
    requires
        p.id == 31,
        body(p.bytes@, p.v2, 32, 48) == Some(b),
        holds_message(wire_name, p, message),
    ensures
        message matches Some(Telemetry::AttitudeQuaternion(m)) && m.q1 == four(b, 4) && m.q2
            == four(b, 8) && m.q3 == four(b, 12) && m.q4 == four(b, 16) && m.rollspeed == four(
            b,
            20,
        ) && m.pitchspeed == four(b, 24) && m.yawspeed == four(b, 28),
{
}

/// `n` is the signed number whose pattern of `size` values is `pattern`.
pub open spec fn is_signed(n: int, pattern: int, size: int) -> bool {
    n == pattern || n == pattern - size
}

/// Positions: latitude, longitude, two altitudes and the velocity behind the time.
pub proof fn law_positions_are_read<N: Fn(&[u8; 16]) -> Option<Ident>>(
    wire_name: N,
    p: RawPayload,
    b: Seq<u8>,
    message: Option<Telemetry>,
)
    requires
        p.id == 33,
        body(p.bytes@, p.v2, 28, 28) == Some(b),
        holds_message(wire_name, p, message),
    ensures
        message matches Some(Telemetry::GlobalPositionInt(m)) && {
            &&& is_signed(m.lat as int, four(b, 4), 4294967296)
            &&& is_signed(m.lon as int, four(b, 8), 4294967296)
            &&& is_signed(m.alt as int, four(b, 12), 4294967296)
            &&& is_signed(m.relative_alt as int, four(b, 16), 4294967296)
            &&& is_signed(m.vx as int, two(b, 20), 65536)
            &&& is_signed(m.vy as int, two(b, 22), 65536)
            &&& is_signed(m.vz as int, two(b, 24), 65536)
        },
{
}

/// Filtered positions: the same behind a longer time, with the velocity in singles, where
/// the number of the estimator at the end means something.
pub proof fn law_filtered_positions_are_read<N: Fn(&[u8; 16]) -> Option<Ident>>(
    wire_name: N,
    p: RawPayload,
    b: Seq<u8>,
    message: Option<Telemetry>,
)
    requires
        p.id == 63,
        body(p.bytes@, p.v2, 181, 181) == Some(b),
        holds_message(wire_name, p, message),
    ensures
        b[180] > 8 ==> message is None,
        b[180] <= 8 ==> (message matches Some(Telemetry::GlobalPositionIntCov(m)) && {
            &&& is_signed(m.lat as int, four(b, 8), 4294967296)
            &&& is_signed(m.lon as int, four(b, 12), 4294967296)
            &&& is_signed(m.alt as int, four(b, 16), 4294967296)
            &&& is_signed(m.relative_alt as int, four(b, 20), 4294967296)
            &&& m.vx == four(b, 24)
            &&& m.vy == four(b, 28)
            &&& m.vz == four(b, 32)
        }),
{
}

/// Batteries: the voltages of ten cells, the current and what is left, where the numbers of
/// function, type, charge and mode mean something.
pub proof fn law_batteries_are_read<N: Fn(&[u8; 16]) -> Option<Ident>>(
    wire_name: N,
    p: RawPayload,
    b: Seq<u8>,
    message: Option<Telemetry>,
)
    requires
        p.id == 147,
        body(p.bytes@, p.v2, 36, 54) == Some(b),
        holds_message(wire_name, p, message),
    ensures
        b[33] > 4 || b[34] > 4 || b[40] > 7 || b[49] > 2 ==> message is None,
        b[33] <= 4 && b[34] <= 4 && b[40] <= 7 && b[49] <= 2 ==> (message matches Some(
            Telemetry::BatteryStatus(m),
        ) && {
            &&& forall|i: int| 0 <= i < 10 ==> #[trigger] m.voltages@[i] == two(b, 10 + 2 * i)
            &&& is_signed(m.current_battery as int, two(b, 30), 65536)
            &&& is_signed(m.battery_remaining as int, b[35] as int, 256)
        }),
{
}

/// Capabilities: those bits of the first eight bytes that stand for something.
pub proof fn law_versions_are_read<N: Fn(&[u8; 16]) -> Option<Ident>>(
    wire_name: N,
    p: RawPayload,
    b: Seq<u8>,
    message: Option<Telemetry>,
)
    requires
        p.id == 148,
        body(p.bytes@, p.v2, 60, 78) == Some(b),
        holds_message(wire_name, p, message),
    ensures
        message matches Some(Telemetry::AutopilotVersion(m)) && m.capabilities == eight(b, 0) as u64
            & 0xf_ffff,
{
}

/// Status texts: the severity, where it means something, and fifty bytes of text.
pub proof fn law_statuses_are_read<N: Fn(&[u8; 16]) -> Option<Ident>>(
    wire_name: N,
    p: RawPayload,
    b: Seq<u8>,
    message: Option<Telemetry>,
)
    requires
        p.id == 253,
        body(p.bytes@, p.v2, 51, 54) == Some(b),
        holds_message(wire_name, p, message),
    ensures
        b[0] > 7 ==> message is None,
        b[0] <= 7 ==> (message matches Some(Telemetry::Statustext(m)) && m.text@ == b.subrange(
            1,
            51,
        ) && m.severity == match b[0] {
            0 => MavSeverity::Emergency,
            1 => MavSeverity::Alert,
            2 => MavSeverity::Critical,
            3 => MavSeverity::Error,
            4 => MavSeverity::Warning,
            5 => MavSeverity::Notice,
            6 => MavSeverity::Info,
            _ => MavSeverity::Debug,
        }),
{
}

/// Components, in MAVLink 2 only: capabilities, and the names of maker and model.
pub proof fn law_components_are_read<N: Fn(&[u8; 16]) -> Option<Ident>>(
    wire_name: N,
    p: RawPayload,
    b: Seq<u8>,
    message: Option<Telemetry>,
)
    requires
        p.id == 396,
        body(p.bytes@, true, 160, 160) == Some(b),
        holds_message(wire_name, p, message),
    ensures
        !p.v2 ==> message is None,
        p.v2 ==> (message matches Some(Telemetry::ComponentInformationBasic(m)) && m.capabilities
            == eight(b, 0) as u64 & 0xf_ffff && m.vendor_name@ == b.subrange(16, 48)
            && m.model_name@ == b.subrange(48, 80)),
{
}

/// A message of any other number is told by its number alone, where the dialect reads it, and
/// is none where it does not.
pub proof fn law_other_messages_are_read<N: Fn(&[u8; 16]) -> Option<Ident>>(
    wire_name: N,
    p: RawPayload,
    message: Option<Telemetry>,
)
    requires
        p.id != 0 && p.id != 1 && p.id != 22 && p.id != 30 && p.id != 31 && p.id != 33 && p.id != 63
            && p.id != 147 && p.id != 148 && p.id != 253 && p.id != 396,
        holds_message(wire_name, p, message),
    ensures
        in_dialect(p.id, p.v2, p.bytes@) ==> (message matches Some(Telemetry::Other(m)) && m.id
            == p.id),
        !in_dialect(p.id, p.v2, p.bytes@) ==> message is None,
{
}

/// A payload of MAVLink 1 that does not have the size of its message holds none.
pub proof fn law_sizes_are_exact<N: Fn(&[u8; 16]) -> Option<Ident>>(
    wire_name: N,
    p: RawPayload,
    message: Option<Telemetry>,
    base: int,
)
    requires
        !p.v2,
        p.bytes@.len() != base,
        (p.id == 0 && base == 9) || (p.id == 1 && base == 31) || (p.id == 22 && base == 25) || (p.id
            == 30 && base == 28) || (p.id == 31 && base == 32) || (p.id == 33 && base == 28) || (p.id
            == 63 && base == 181) || (p.id == 147 && base == 36) || (p.id == 148 && base == 60) || (
        p.id == 253 && base == 51),
        holds_message(wire_name, p, message),
    ensures
        message is None,
{
}

/// A sound frame holds the message in its payload.
pub proof fn law_sound_frames_hold_their_message<N: Fn(&[u8; 16]) -> Option<Ident>>(
    wire_name: N,
    frame: RawFrame,
    message: Option<Telemetry>,
)
    requires
        sound(frame),
    ensures
        frame_holds(wire_name, frame, message) == holds_message(wire_name, frame.payload, message),
{
}

} // verus!
