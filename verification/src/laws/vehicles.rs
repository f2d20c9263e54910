//! Vehicles: what their messages tell, and what is sent to them.

use crate::command::{introduction, reload, reposition, Geodetic, MavCmd, MavFrame, Outgoing, Step};
use crate::ident::{lemma_text_rank, Ident, MavlinkId};
use crate::parameters::{ParamState, Parameter};
use crate::single::{log2, nearest};
use crate::sorted::{law_with_entry, sorted, value_at, Key};
use crate::telemetry::{
    message_id, total_voltage, AttitudeEuler, AttitudeQuaternion, AutopilotVersion, BatteryStatus,
    ComponentInformationBasic, GlobalPositionInt, GlobalPositionIntCov, Heartbeat, OtherMessage,
    ParamValue, Statustext, SysStatus, Telemetry,
};
use crate::text::{cstring_text, decimal};
use crate::value::{unpacked, Value};
use crate::vehicle::{
    after_message, remembered, shown_name, told, unknown_vehicle, GlobalPosition, Orientation,
    VehicleState, Velocity,
};
use crate::wire::WireMessage;
use std::time::Instant;
use vstd::arithmetic::power2::lemma2_to64;
use vstd::prelude::*;

verus! {

/// The voltage of a battery is the sum of its cells: each cell adds its own voltage,
/// whatever it is, but for the largest number, which stands for no cell.
pub proof fn law_voltages_add_up(cells: Seq<u16>, cell: u16)
    ensures
        total_voltage(Seq::<u16>::empty()) == 0,
        cell == 65535 ==> total_voltage(cells.push(cell)) == total_voltage(cells),
        cell != 65535 ==> total_voltage(cells.push(cell)) == total_voltage(cells) + cell,
{
    assert(cells.push(cell).drop_last() =~= cells);
}

/// All that is known of a vehicle but for what its links, its messages and its parameters
/// tell.
pub open spec fn same_but_telemetry(v: VehicleState, w: VehicleState) -> bool {
    &&& w.mav_id == v.mav_id
    &&& w.parameters == v.parameters
    &&& w.has_loaded == v.has_loaded
    &&& w.expected_count == v.expected_count
    &&& w.link_info == v.link_info
    &&& w.message_history == v.message_history
    &&& w.latest_message == v.latest_message
}

/// Who a vehicle is: its type, state, capabilities and names.
pub open spec fn same_identity(v: VehicleState, w: VehicleState) -> bool {
    &&& w.mav_state == v.mav_state
    &&& w.mav_type == v.mav_type
    &&& w.capabilities == v.capabilities
    &&& w.model_name == v.model_name
    &&& w.vendor_name == v.vendor_name
}

/// Where a vehicle is, and how it moves.
pub open spec fn same_motion(v: VehicleState, w: VehicleState) -> bool {
    &&& w.attitude == v.attitude
    &&& w.angular_rates == v.angular_rates
    &&& w.velocity_ned == v.velocity_ned
    &&& w.altitude_msl == v.altitude_msl
    &&& w.global_position == v.global_position
    &&& w.global_positions == v.global_positions
}

/// A heartbeat tells the type and the state of a vehicle, and nothing else.
pub proof fn law_heartbeats_tell(v: VehicleState, time: Instant, m: Heartbeat)
    ensures
        ({
            let w = told(v, time, Telemetry::Heartbeat(m));
            &&& w.mav_type == Some(m.mav_type)
            &&& w.mav_state == Some(m.system_status)
            &&& w.capabilities == v.capabilities
            &&& w.model_name == v.model_name
            &&& w.vendor_name == v.vendor_name
            &&& same_but_telemetry(v, w)
            &&& same_motion(v, w)
            &&& w.battery_state == v.battery_state
            &&& w.status_texts == v.status_texts
        }),
{
}

/// Capabilities are told by two messages, and are those of the last one.
pub proof fn law_capabilities_are_told(
    v: VehicleState,
    time: Instant,
    m: AutopilotVersion,
    c: ComponentInformationBasic,
)
    ensures
        ({
            let w = told(v, time, Telemetry::AutopilotVersion(m));
            &&& w.capabilities == Some(m.capabilities)
            &&& w.mav_type == v.mav_type
            &&& w.mav_state == v.mav_state
            &&& w.model_name == v.model_name
            &&& w.vendor_name == v.vendor_name
            &&& same_but_telemetry(v, w)
            &&& same_motion(v, w)
            &&& w.battery_state == v.battery_state
            &&& w.status_texts == v.status_texts
        }),
        ({
            let w = told(v, time, Telemetry::ComponentInformationBasic(c));
            &&& w.capabilities == Some(c.capabilities)
            &&& w.mav_type == v.mav_type
            &&& w.mav_state == v.mav_state
            &&& same_but_telemetry(v, w)
            &&& same_motion(v, w)
            &&& w.battery_state == v.battery_state
            &&& w.status_texts == v.status_texts
        }),
{
}

/// A component tells its names: each replaces the former one where it is a text of at least
/// one character, whatever that was, and leaves it alone otherwise.
pub proof fn law_names_are_told(v: VehicleState, time: Instant, m: ComponentInformationBasic)
    ensures
        ({
            let w = told(v, time, Telemetry::ComponentInformationBasic(m));
            &&& w.model_name == match cstring_text(m.model_name@) {
                Some(text) => if text.len() > 0 {
                    Some(text)
                } else {
                    v.model_name
                },
                None => v.model_name,
            }
            &&& w.vendor_name == match cstring_text(m.vendor_name@) {
                Some(text) => if text.len() > 0 {
                    Some(text)
                } else {
                    v.vendor_name
                },
                None => v.vendor_name,
            }
        }),
{
}

/// The battery is as the last message about it has it, and of all else nothing changes.
pub proof fn law_batteries_are_told(
    v: VehicleState,
    time: Instant,
    m: SysStatus,
    b: BatteryStatus,
)
    ensures
        ({
            let w = told(v, time, Telemetry::SysStatus(m));
            &&& w.battery_state matches Some(s) && s.at == time && s.voltage == m.voltage_battery
                && s.current == m.current_battery && s.charge == m.battery_remaining
            &&& same_identity(v, w) && same_but_telemetry(v, w) && same_motion(v, w)
            &&& w.status_texts == v.status_texts
        }),
        total_voltage(b.voltages@) <= 0xffff_ffff ==> ({
            let w = told(v, time, Telemetry::BatteryStatus(b));
            &&& w.battery_state matches Some(s) && s.at == time && s.voltage == total_voltage(
                b.voltages@,
            ) && s.current == b.current_battery && s.charge == b.battery_remaining
            &&& same_identity(v, w) && same_but_telemetry(v, w) && same_motion(v, w)
            &&& w.status_texts == v.status_texts
        }),
{
}

/// The attitude and the rates are as the last message about them has them, each number in
/// its own place, and of all else nothing changes.
pub proof fn law_attitudes_are_told(
    v: VehicleState,
    time: Instant,
    m: AttitudeEuler,
    q: AttitudeQuaternion,
)
    ensures
        ({
            let w = told(v, time, Telemetry::Attitude(m));
            &&& w.attitude matches Some(a) && a.at == time && a.attitude == (Orientation::Euler {
                roll: m.roll,
                pitch: m.pitch,
                yaw: m.yaw,
            })
            &&& w.angular_rates matches Some(r) && r.at == time && r.rollspeed == m.rollspeed
                && r.pitchspeed == m.pitchspeed && r.yawspeed == m.yawspeed
            &&& same_identity(v, w) && same_but_telemetry(v, w)
            &&& w.velocity_ned == v.velocity_ned && w.altitude_msl == v.altitude_msl
            &&& w.global_position == v.global_position && w.global_positions == v.global_positions
            &&& w.battery_state == v.battery_state && w.status_texts == v.status_texts
        }),
        ({
            let w = told(v, time, Telemetry::AttitudeQuaternion(q));
            &&& w.attitude matches Some(a) && a.at == time && a.attitude == (
            Orientation::Quaternion { q1: q.q1, q2: q.q2, q3: q.q3, q4: q.q4 })
            &&& w.angular_rates matches Some(r) && r.at == time && r.rollspeed == q.rollspeed
                && r.pitchspeed == q.pitchspeed && r.yawspeed == q.yawspeed
            &&& same_identity(v, w) && same_but_telemetry(v, w)
            &&& w.velocity_ned == v.velocity_ned && w.altitude_msl == v.altitude_msl
            &&& w.global_position == v.global_position && w.global_positions == v.global_positions
            &&& w.battery_state == v.battery_state && w.status_texts == v.status_texts
        }),
{
}

/// The position, velocity and altitude are as the last message about them has them, the
/// position is the end of the track, which loses its oldest position only where it is full,
/// and of all else nothing changes.
pub proof fn law_positions_are_told(
    v: VehicleState,
    time: Instant,
    m: GlobalPositionInt,
    c: GlobalPositionIntCov,
)
    requires
        v.global_positions.len() <= 500,
    ensures
        ({
            let w = told(v, time, Telemetry::GlobalPositionInt(m));
            let p = GlobalPosition { at: time, lat: m.lat, lon: m.lon, alt_agl: m.relative_alt };
            &&& w.global_position == Some(p)
            &&& w.velocity_ned == Some(Velocity::Integers(m.vx, m.vy, m.vz))
            &&& w.altitude_msl == Some(m.alt)
            &&& v.global_positions.len() < 500 ==> w.global_positions == v.global_positions.push(p)
            &&& v.global_positions.len() == 500 ==> w.global_positions == v.global_positions.push(
                p,
            ).skip(1)
            &&& same_identity(v, w) && same_but_telemetry(v, w)
            &&& w.attitude == v.attitude && w.angular_rates == v.angular_rates
            &&& w.battery_state == v.battery_state && w.status_texts == v.status_texts
        }),
        ({
            let w = told(v, time, Telemetry::GlobalPositionIntCov(c));
            let p = GlobalPosition { at: time, lat: c.lat, lon: c.lon, alt_agl: c.relative_alt };
            &&& w.global_position == Some(p)
            &&& w.velocity_ned == Some(Velocity::Singles(c.vx, c.vy, c.vz))
            &&& w.altitude_msl == Some(c.alt)
            &&& v.global_positions.len() < 500 ==> w.global_positions == v.global_positions.push(p)
            &&& v.global_positions.len() == 500 ==> w.global_positions == v.global_positions.push(
                p,
            ).skip(1)
            &&& same_identity(v, w) && same_but_telemetry(v, w)
            &&& w.attitude == v.attitude && w.angular_rates == v.angular_rates
            &&& w.battery_state == v.battery_state && w.status_texts == v.status_texts
        }),
{
    let p = GlobalPosition { at: time, lat: m.lat, lon: m.lon, alt_agl: m.relative_alt };
    let q = GlobalPosition { at: time, lat: c.lat, lon: c.lon, alt_agl: c.relative_alt };
    let track = v.global_positions;
    if track.len() == 500 {
        assert(track.skip(1).push(p) =~= track.push(p).skip(1));
        assert(track.skip(1).push(q) =~= track.push(q).skip(1));
    }
}

/// A status text that is text is kept behind those before it, with its severity, whatever
/// it says; another is not. Of all else nothing changes.
pub proof fn law_statuses_are_told(v: VehicleState, time: Instant, m: Statustext)
    ensures
        ({
            let w = told(v, time, Telemetry::Statustext(m));
            &&& match cstring_text(m.text@) {
                Some(text) => {
                    &&& w.status_texts.len() == v.status_texts.len() + 1
                    &&& w.status_texts.drop_last() == v.status_texts
                    &&& w.status_texts.last().at == time
                    &&& w.status_texts.last().severity == m.severity
                    &&& w.status_texts.last().text == text
                },
                None => w.status_texts == v.status_texts,
            }
            &&& same_identity(v, w) && same_but_telemetry(v, w) && same_motion(v, w)
            &&& w.battery_state == v.battery_state
        }),
{
    let w = told(v, time, Telemetry::Statustext(m));
    if cstring_text(m.text@) is Some {
        assert(w.status_texts.drop_last() =~= v.status_texts);
    }
}

/// A message that is not listened to tells nothing.
pub proof fn law_other_messages_tell_nothing(v: VehicleState, time: Instant, m: OtherMessage)
    ensures
        told(v, time, Telemetry::Other(m)) == v,
{
}

/// A parameter with a name, whose value can be unpacked as the vehicle packs it, is known
/// from then on as it was reported, without an edit or an upload, and the other parameters
/// stay. Its index counts as loaded, and the announced number is taken over, where there is
/// one. Of all else nothing changes.
pub proof fn law_parameters_are_told(
    v: VehicleState,
    time: Instant,
    m: ParamValue,
    cap: u64,
    value: Value,
    ident: Ident,
    other: Ident,
)
    requires
        sorted(v.parameters),
        v.capabilities == Some(cap),
        unpacked(cap, m.param_value, m.param_type) == Some(value),
        m.param_id == Some(ident),
    ensures
        ({
            let w = told(v, time, Telemetry::ParamValue(m));
            &&& value_at(w.parameters, ident.rank()) matches Some(p) && p.value == value && p.state
                == ParamState::Unchanged && p.editing is None
            &&& other@ != ident@ ==> value_at(w.parameters, other.rank()) == value_at(
                v.parameters,
                other.rank(),
            )
            &&& m.param_count > 0 ==> w.has_loaded == v.has_loaded.insert(m.param_index)
                && w.expected_count == m.param_count
            &&& m.param_count == 0 ==> w.has_loaded == v.has_loaded && w.expected_count
                == v.expected_count
            &&& same_identity(v, w) && same_motion(v, w)
            &&& w.mav_id == v.mav_id && w.link_info == v.link_info
            &&& w.battery_state == v.battery_state && w.status_texts == v.status_texts
        }),
{
    law_with_entry(
        v.parameters,
        ident,
        Parameter { value, state: ParamState::Unchanged, editing: None },
    );
    lemma_text_rank(other@, ident@);
}

/// A parameter without a name, with a value that cannot be unpacked, or of a vehicle whose
/// packing is not known, tells nothing.
pub proof fn law_unreadable_parameters_tell_nothing(v: VehicleState, time: Instant, m: ParamValue)
    requires
        m.param_id is None || v.capabilities is None || (v.capabilities matches Some(cap) && unpacked(
            cap,
            m.param_value,
            m.param_type,
        ) is None),
    ensures
        told(v, time, Telemetry::ParamValue(m)) == v,
{
    assert(0u64 & 16 != 16 && 0u64 & 131072 != 131072) by (bit_vector);
}

/// A message is remembered as it came in, with its time: first of the last thousand, and as
/// the latest of its number; and it tells what it tells.
pub proof fn law_messages_are_remembered(
    v: VehicleState,
    time: Instant,
    message: WireMessage,
    other: u32,
)
    requires
        v.message_history.len() <= 1000,
    ensures
        ({
            let w = after_message(v, time, message);
            let id = message_id(message.content);
            &&& w.message_history.len() > 0
            &&& w.message_history[0].at == time && *w.message_history[0].message == message
            &&& w.message_history.len() <= 1000
            &&& forall|i: int|
                0 < i < w.message_history.len() ==> #[trigger] w.message_history[i]
                    == v.message_history[i - 1]
            &&& v.message_history.len() < 1000 ==> w.message_history.len()
                == v.message_history.len() + 1
            &&& v.message_history.len() == 1000 ==> w.message_history.len() == 1000
            &&& w.latest_message.contains_key(id)
            &&& w.latest_message[id].at == time && *w.latest_message[id].message == message
            &&& other != id ==> w.latest_message.contains_key(other)
                == v.latest_message.contains_key(other)
            &&& other != id && v.latest_message.contains_key(other) ==> w.latest_message[other]
                == v.latest_message[other]
            &&& w.parameters == told(v, time, message.content).parameters
            &&& w.has_loaded == told(v, time, message.content).has_loaded
            &&& w.expected_count == told(v, time, message.content).expected_count
            &&& same_identity(told(v, time, message.content), w)
            &&& same_motion(told(v, time, message.content), w)
            &&& w.battery_state == told(v, time, message.content).battery_state
            &&& w.status_texts == told(v, time, message.content).status_texts
            &&& w.link_info == told(v, time, message.content).link_info
            &&& w.mav_id == v.mav_id
        }),
{
}

/// Messages have the numbers of the standard.
pub proof fn law_message_numbers(
    a: Heartbeat,
    b: SysStatus,
    c: ParamValue,
    d: AttitudeEuler,
    e: AttitudeQuaternion,
    f: GlobalPositionInt,
    g: GlobalPositionIntCov,
    h: BatteryStatus,
    i: AutopilotVersion,
    j: Statustext,
    k: ComponentInformationBasic,
    l: OtherMessage,
)
    ensures
        message_id(Telemetry::Heartbeat(a)) == 0,
        message_id(Telemetry::SysStatus(b)) == 1,
        message_id(Telemetry::ParamValue(c)) == 22,
        message_id(Telemetry::Attitude(d)) == 30,
        message_id(Telemetry::AttitudeQuaternion(e)) == 31,
        message_id(Telemetry::GlobalPositionInt(f)) == 33,
        message_id(Telemetry::GlobalPositionIntCov(g)) == 63,
        message_id(Telemetry::BatteryStatus(h)) == 147,
        message_id(Telemetry::AutopilotVersion(i)) == 148,
        message_id(Telemetry::Statustext(j)) == 253,
        message_id(Telemetry::ComponentInformationBasic(k)) == 396,
        message_id(Telemetry::Other(l)) == l.id,
{
}

/// Nothing is known of a new vehicle but its id.
pub proof fn law_new_vehicles(mav_id: MavlinkId)
    ensures
        ({
            let v = unknown_vehicle(mav_id);
            &&& v.mav_id == mav_id
            &&& v.mav_state is None && v.mav_type is None && v.capabilities is None
            &&& v.model_name is None && v.vendor_name is None
            &&& v.parameters.len() == 0 && v.has_loaded == Set::<u16>::empty() && v.expected_count
                == 0
            &&& v.link_info.len() == 0 && v.message_history.len() == 0
            &&& forall|id: u32| !(#[trigger] v.latest_message.contains_key(id))
            &&& v.attitude is None && v.angular_rates is None && v.velocity_ned is None
            &&& v.altitude_msl is None && v.global_position is None && v.global_positions.len() == 0
            &&& v.battery_state is None && v.status_texts.len() == 0
        }),
{
}

/// A vehicle is shown by the name of its maker, that of its model and its id, with a word
/// for each name that is not known.
pub proof fn law_vehicles_are_shown_by_name(v: VehicleState, vendor: Seq<char>, model: Seq<char>)
    requires
        v.vendor_name == Some(vendor) || (v.vendor_name is None && vendor == "Unknown"@),
        v.model_name == Some(model) || (v.model_name is None && model == "Unknown"@),
    ensures
        shown_name(v) == vendor + seq![' '] + model + seq![' ', '(', 'm', 'a', 'v', ' '] + decimal(
            v.mav_id.system as nat,
        ) + seq![':'] + decimal(v.mav_id.component as nat) + seq![')'],
{
    reveal_strlit(" (mav ");
    assert(" (mav "@ =~= seq![' ', '(', 'm', 'a', 'v', ' ']);
}

/// A vehicle is asked for its parameters. Where its capabilities are not known, it is asked
/// for message 148 first, and has a tenth of a second to answer before the parameters are
/// asked for.
pub proof fn law_parameters_are_asked_for(target: MavlinkId)
    ensures
        reload(target, false) == seq![Step::Send(Outgoing::ParamRequestList { target })],
        reload(target, true).len() == 3,
        reload(target, true)[0] matches Step::Send(
            Outgoing::CommandInt { target: t, command, frame, param1, position, .. },
        ) && t == target && command == MavCmd::RequestMessage && frame == MavFrame::Global && param1
            == 0x4314_0000 && position is None,
        reload(target, true)[1] == (Step::Sleep { millis: 100 }),
        reload(target, true)[2] == Step::Send(Outgoing::ParamRequestList { target }),
{
    lemma2_to64();
    reveal_with_fuel(log2, 10);
    assert(log2(148) == 7);
    assert(nearest(148) == 0x4314_0000);
}

/// A new vehicle is asked for its parameters, then for message 396, and the command for
/// that is waited for.
pub proof fn law_new_vehicles_are_asked(target: MavlinkId)
    ensures
        introduction(target).len() == 3,
        introduction(target)[0] == Step::Send(Outgoing::ParamRequestList { target }),
        introduction(target)[1] == Step::Send(
            Outgoing::CommandLong { target, command: MavCmd::RequestMessage, param1: 0x43c6_0000 },
        ),
        introduction(target)[2] == Step::AwaitAck(MavCmd::RequestMessage),
{
    lemma2_to64();
    reveal_with_fuel(log2, 10);
    assert(log2(396) == 8);
    assert(nearest(396) == 0x43c6_0000);
}

/// A vehicle is sent round a place by one command, with the radius as it is, at an altitude
/// of a thousand, with the speed left to it and without a heading.
pub proof fn law_vehicles_are_sent_round_a_place(target: MavlinkId, place: Geodetic, radius: u32)
    ensures
        reposition(target, place, radius) == (Outgoing::CommandInt {
            target,
            command: MavCmd::DoReposition,
            frame: MavFrame::GlobalInt,
            param1: 0xbf80_0000,
            param2: 0,
            param3: radius,
            param4: 0x7fc0_0000,
            position: Some(place),
            z: 0x447a_0000,
        }),
{
}

} // verus!
