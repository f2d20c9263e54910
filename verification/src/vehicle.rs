//! A vehicle, as far as its messages have told of it.

use crate::ident::{lemma_text_rank, Ident, MavlinkId};
use crate::link::{maybe_text, LinkId};
use crate::parameters::{fresh, Parameter, Parameters};
use crate::sorted::{law_with_entry, sorted, value_at, with_entry, Key, SortedMap};
use crate::telemetry::{
    message_id, sum_voltages, total_voltage, AttitudeEuler, AttitudeQuaternion, AutopilotVersion,
    BatteryStatus, ComponentInformationBasic, GlobalPositionInt, GlobalPositionIntCov, Heartbeat,
    MavSeverity, ParamValue, Statustext, SysStatus, Telemetry,
};
use crate::text::{cstring_text, decimal, has_text, push_decimal, push_text, string_from_cstring};
use crate::value::{
    law_packing_round_trip, mavio_into_value, packed, survives_c_cast, unpacked, Value,
    PARAM_ENCODE_BYTEWISE,
};
use crate::wire::WireMessage;
use std::collections::{HashMap, VecDeque};
use std::sync::Arc;
use std::time::Instant;
use vstd::prelude::*;

verus! {

/// An instant of the machine's monotonic clock.
#[verifier::external_type_specification]
#[verifier::external_body]
pub struct ExInstant(Instant);

/// How many messages are remembered.
pub const HISTORY_SIZE: usize = 1000;

/// How many positions are remembered.
pub const TRACK_SIZE: usize = 500;

/// An orientation as it came in.
#[derive(Debug, Clone, Copy)]
pub enum Orientation {
    Euler { roll: u32, pitch: u32, yaw: u32 },
    Quaternion { q1: u32, q2: u32, q3: u32, q4: u32 },
}

#[derive(Debug, Clone, Copy)]
pub struct Attitude {
    pub at: Instant,
    pub attitude: Orientation,
}

/// Rates about the body's axes.
#[derive(Debug, Clone, Copy)]
pub struct AngularRate {
    pub at: Instant,
    pub rollspeed: u32,
    pub pitchspeed: u32,
    pub yawspeed: u32,
}

/// A velocity in hundredths of its unit, as it came in.
#[derive(Debug, Clone, Copy)]
pub enum Velocity {
    Integers(i16, i16, i16),
    Singles(u32, u32, u32),
}

/// A message and when it came in.
#[derive(Debug)]
pub struct MavMessage {
    pub at: Instant,
    pub message: Arc<WireMessage>,
}

/// Millivolts, hundredths of an ampere, and per cent.
#[derive(Debug, Clone, Copy)]
pub struct BatteryState {
    pub at: Instant,
    pub voltage: u32,
    pub current: i16,
    pub charge: i8,
}

/// Units of 1e-7 degrees, and millimetres above ground.
#[derive(Debug, Clone, Copy)]
pub struct GlobalPosition {
    pub at: Instant,
    pub lat: i32,
    pub lon: i32,
    pub alt_agl: i32,
}

#[derive(Debug)]
pub struct StatusText {
    pub at: Instant,
    pub severity: MavSeverity,
    pub text: String,
}

/// What a link told of a vehicle.
#[derive(Debug, Clone, Copy)]
pub struct VehicleLinkInfo {
    pub last_message: Option<Instant>,
}

/// A vehicle. Angles and rates are singles by their bit patterns, the altitude is in
/// millimetres.
#[derive(Debug)]
pub struct Vehicle {
    pub mav_id: MavlinkId,
    pub mav_state: Option<u8>,
    pub mav_type: Option<u8>,
    pub capabilities: Option<u64>,
    pub model_name: Option<String>,
    pub vendor_name: Option<String>,
    pub parameters: Parameters,
    pub link_info: SortedMap<LinkId, VehicleLinkInfo>,
    pub message_history: VecDeque<MavMessage>,
    pub latest_message: HashMap<u32, MavMessage>,
    pub attitude: Option<Attitude>,
    pub angular_rates: Option<AngularRate>,
    pub velocity_ned: Option<Velocity>,
    pub altitude_msl: Option<i32>,
    pub global_position: Option<GlobalPosition>,
    pub global_positions: VecDeque<GlobalPosition>,
    pub battery_state: Option<BatteryState>,
    pub status_texts: Vec<StatusText>,
}

// ---------------------------------------------------------------------------
// The model
// ---------------------------------------------------------------------------

/// A status text by its characters.
pub ghost struct Status {
    pub at: Instant,
    pub severity: MavSeverity,
    pub text: Seq<char>,
}

/// What is known of a vehicle.
#[verifier::ext_equal]
pub ghost struct VehicleState {
    pub mav_id: MavlinkId,
    pub mav_state: Option<u8>,
    pub mav_type: Option<u8>,
    pub capabilities: Option<u64>,
    pub model_name: Option<Seq<char>>,
    pub vendor_name: Option<Seq<char>>,
    pub parameters: Seq<(Ident, Parameter)>,
    pub has_loaded: Set<u16>,
    pub expected_count: u16,
    pub link_info: Seq<(LinkId, VehicleLinkInfo)>,
    pub message_history: Seq<MavMessage>,
    pub latest_message: Map<u32, MavMessage>,
    pub attitude: Option<Attitude>,
    pub angular_rates: Option<AngularRate>,
    pub velocity_ned: Option<Velocity>,
    pub altitude_msl: Option<i32>,
    pub global_position: Option<GlobalPosition>,
    pub global_positions: Seq<GlobalPosition>,
    pub battery_state: Option<BatteryState>,
    pub status_texts: Seq<Status>,
}

pub open spec fn statuses(all: Seq<StatusText>) -> Seq<Status> {
    Seq::new(
        all.len(),
        |i: int| Status { at: all[i].at, severity: all[i].severity, text: all[i].text@ },
    )
}

impl View for Vehicle {
    type V = VehicleState;

    open spec fn view(&self) -> VehicleState {
        VehicleState {
            mav_id: self.mav_id,
            mav_state: self.mav_state,
            mav_type: self.mav_type,
            capabilities: self.capabilities,
            model_name: maybe_text(self.model_name),
            vendor_name: maybe_text(self.vendor_name),
            parameters: self.parameters.map.entries@,
            has_loaded: self.parameters.loading_state.has_loaded@,
            expected_count: self.parameters.loading_state.expected_count,
            link_info: self.link_info.entries@,
            message_history: self.message_history@,
            latest_message: self.latest_message@,
            attitude: self.attitude,
            angular_rates: self.angular_rates,
            velocity_ned: self.velocity_ned,
            altitude_msl: self.altitude_msl,
            global_position: self.global_position,
            global_positions: self.global_positions@,
            battery_state: self.battery_state,
            status_texts: statuses(self.status_texts@),
        }
    }
}

/// The maps stand in order, and no more is remembered than is meant to be.
pub open spec fn valid(v: VehicleState) -> bool {
    &&& sorted(v.parameters)
    &&& sorted(v.link_info)
    &&& v.message_history.len() <= HISTORY_SIZE
    &&& v.global_positions.len() <= TRACK_SIZE
}

/// A vehicle of which nothing is known but its id.
pub open spec fn unknown_vehicle(mav_id: MavlinkId) -> VehicleState {
    VehicleState {
        mav_id,
        mav_state: None,
        mav_type: None,
        capabilities: None,
        model_name: None,
        vendor_name: None,
        parameters: Seq::empty(),
        has_loaded: Set::empty(),
        expected_count: 0,
        link_info: Seq::empty(),
        message_history: Seq::empty(),
        latest_message: Map::empty(),
        attitude: None,
        angular_rates: None,
        velocity_ned: None,
        altitude_msl: None,
        global_position: None,
        global_positions: Seq::empty(),
        battery_state: None,
        status_texts: Seq::empty(),
    }
}

/// The name that a NUL-terminated byte string gives; the former one where it holds no
/// text or an empty one.
pub open spec fn renamed(former: Option<Seq<char>>, bytes: Seq<u8>) -> Option<Seq<char>> {
    match cstring_text(bytes) {
        Some(text) => if text.len() > 0 {
            Some(text)
        } else {
            former
        },
        None => former,
    }
}

pub open spec fn with_capability(v: VehicleState, capabilities: u64) -> VehicleState {
    VehicleState { capabilities: Some(capabilities), ..v }
}

pub open spec fn with_information(v: VehicleState, m: ComponentInformationBasic) -> VehicleState {
    VehicleState {
        model_name: renamed(v.model_name, m.model_name@),
        vendor_name: renamed(v.vendor_name, m.vendor_name@),
        capabilities: Some(m.capabilities),
        ..v
    }
}

pub open spec fn with_heartbeat(v: VehicleState, m: Heartbeat) -> VehicleState {
    VehicleState { mav_type: Some(m.mav_type), mav_state: Some(m.system_status), ..v }
}

/// A parameter that came in is fresh under its name. It counts as loaded where the
/// vehicle says how many there are. A value that cannot be unpacked, or a name that
/// is none, changes nothing.
pub open spec fn with_parameter(v: VehicleState, m: ParamValue) -> VehicleState {
    let cap = match v.capabilities {
        Some(bits) => bits,
        None => 0,
    };
    match (unpacked(cap, m.param_value, m.param_type), m.param_id) {
        (Some(value), Some(ident)) => VehicleState {
            parameters: with_entry(v.parameters, ident, fresh(value)),
            has_loaded: if m.param_count > 0 {
                v.has_loaded.insert(m.param_index)
            } else {
                v.has_loaded
            },
            expected_count: if m.param_count > 0 {
                m.param_count
            } else {
                v.expected_count
            },
            ..v
        },
        _ => v,
    }
}

/// A track with one position more, and without the oldest where it is full.
pub open spec fn onward(track: Seq<GlobalPosition>, position: GlobalPosition) -> Seq<GlobalPosition> {
    if track.len() >= TRACK_SIZE {
        track.skip(1).push(position)
    } else {
        track.push(position)
    }
}

pub open spec fn with_position(v: VehicleState, position: GlobalPosition) -> VehicleState {
    VehicleState {
        global_position: Some(position),
        global_positions: onward(v.global_positions, position),
        ..v
    }
}

/// A status text is kept where it is UTF-8.
pub open spec fn with_status(v: VehicleState, m: Statustext, time: Instant) -> VehicleState {
    match cstring_text(m.text@) {
        Some(text) => VehicleState {
            status_texts: v.status_texts.push(Status { at: time, severity: m.severity, text }),
            ..v
        },
        None => v,
    }
}

/// What a message tells of its vehicle.
pub open spec fn told(v: VehicleState, time: Instant, message: Telemetry) -> VehicleState {
    match message {
        Telemetry::Heartbeat(m) => with_heartbeat(v, m),
        Telemetry::AutopilotVersion(m) => with_capability(v, m.capabilities),
        Telemetry::ComponentInformationBasic(m) => with_information(v, m),
        Telemetry::ParamValue(m) => with_parameter(v, m),
        Telemetry::SysStatus(m) => VehicleState {
            battery_state: Some(
                BatteryState {
                    at: time,
                    voltage: m.voltage_battery as u32,
                    current: m.current_battery,
                    charge: m.battery_remaining,
                },
            ),
            ..v
        },
        Telemetry::BatteryStatus(m) => VehicleState {
            battery_state: Some(
                BatteryState {
                    at: time,
                    voltage: total_voltage(m.voltages@) as u32,
                    current: m.current_battery,
                    charge: m.battery_remaining,
                },
            ),
            ..v
        },
        Telemetry::Attitude(m) => VehicleState {
            angular_rates: Some(
                AngularRate {
                    at: time,
                    rollspeed: m.rollspeed,
                    pitchspeed: m.pitchspeed,
                    yawspeed: m.yawspeed,
                },
            ),
            attitude: Some(
                Attitude {
                    at: time,
                    attitude: Orientation::Euler { roll: m.roll, pitch: m.pitch, yaw: m.yaw },
                },
            ),
            ..v
        },
        Telemetry::AttitudeQuaternion(m) => VehicleState {
            angular_rates: Some(
                AngularRate {
                    at: time,
                    rollspeed: m.rollspeed,
                    pitchspeed: m.pitchspeed,
                    yawspeed: m.yawspeed,
                },
            ),
            attitude: Some(
                Attitude {
                    at: time,
                    attitude: Orientation::Quaternion { q1: m.q1, q2: m.q2, q3: m.q3, q4: m.q4 },
                },
            ),
            ..v
        },
        Telemetry::GlobalPositionInt(m) => VehicleState {
            velocity_ned: Some(Velocity::Integers(m.vx, m.vy, m.vz)),
            altitude_msl: Some(m.alt),
            ..with_position(
                v,
                GlobalPosition { at: time, lat: m.lat, lon: m.lon, alt_agl: m.relative_alt },
            )
        },
        Telemetry::GlobalPositionIntCov(m) => VehicleState {
            velocity_ned: Some(Velocity::Singles(m.vx, m.vy, m.vz)),
            altitude_msl: Some(m.alt),
            ..with_position(
                v,
                GlobalPosition { at: time, lat: m.lat, lon: m.lon, alt_agl: m.relative_alt },
            )
        },
        Telemetry::Statustext(m) => with_status(v, m, time),
        Telemetry::Other(_) => v,
    }
}

/// A history with one message more at its front, and no more than fit.
pub open spec fn remembered(history: Seq<MavMessage>, message: MavMessage) -> Seq<MavMessage> {
    if history.len() >= HISTORY_SIZE {
        seq![message] + history.take(HISTORY_SIZE - 1)
    } else {
        seq![message] + history
    }
}

/// A vehicle after a message: what it told, and the message among those remembered.
pub open spec fn after_message(
    v: VehicleState,
    time: Instant,
    message: WireMessage,
) -> VehicleState {
    let entry = MavMessage { at: time, message: Arc::new(message) };
    let w = told(v, time, message.content);
    VehicleState {
        message_history: remembered(w.message_history, entry),
        latest_message: w.latest_message.insert(message_id(message.content), entry),
        ..w
    }
}

/// The text of a name that may be missing.
pub open spec fn name_or_unknown(name: Option<Seq<char>>) -> Seq<char> {
    match name {
        Some(text) => text,
        None => "Unknown"@,
    }
}

/// How a vehicle is shown.
pub open spec fn shown_name(v: VehicleState) -> Seq<char> {
    name_or_unknown(v.vendor_name) + seq![' '] + name_or_unknown(v.model_name) + " (mav "@
        + decimal(v.mav_id.system as nat) + seq![':'] + decimal(v.mav_id.component as nat) + seq![')']
}

// ---------------------------------------------------------------------------
// The vehicle
// ---------------------------------------------------------------------------

impl Vehicle {
    /// The vehicle is in order.
    pub open spec fn wf(&self) -> bool {
        valid(self@)
    }

    /// A vehicle of which nothing is known but its id.
    pub fn new(mav_id: MavlinkId) -> (r: Self)
        ensures
            r@ == unknown_vehicle(mav_id),
            r.wf(),
    {
        broadcast use vstd::std_specs::hash::group_hash_axioms;

        let r = Vehicle {
            mav_id,
            mav_state: None,
            mav_type: None,
            capabilities: None,
            model_name: None,
            vendor_name: None,
            parameters: Parameters::new(),
            link_info: SortedMap::new(),
            message_history: VecDeque::new(),
            latest_message: HashMap::new(),
            attitude: None,
            angular_rates: None,
            velocity_ned: None,
            altitude_msl: None,
            global_position: None,
            global_positions: VecDeque::new(),
            battery_state: None,
            status_texts: Vec::new(),
        };
        assert(r@ =~= unknown_vehicle(mav_id));
        r
    }

    /// Takes over the capability bits.
    pub fn set_mav_capability(&mut self, capab: u64)
        ensures
            final(self)@ == with_capability(old(self)@, capab),
    {
        self.capabilities = Some(capab);
    }

    /// Takes over the names and the capability bits of a component.
    pub fn on_component_information_basic(&mut self, message: &ComponentInformationBasic)
        ensures
            final(self)@ == with_information(old(self)@, *message),
    {
        match string_from_cstring(message.model_name.as_slice()) {
            Some(model_name) => {
                if has_text(model_name.as_str()) {
                    self.model_name = Some(model_name);
                }
            },
            None => {},
        }
        match string_from_cstring(message.vendor_name.as_slice()) {
            Some(vendor_name) => {
                if has_text(vendor_name.as_str()) {
                    self.vendor_name = Some(vendor_name);
                }
            },
            None => {},
        }
        self.set_mav_capability(message.capabilities);
    }

    /// Takes over a parameter.
    pub fn on_param_value(&mut self, message: &ParamValue)
        requires
            old(self).wf(),
        ensures
            final(self)@ == with_parameter(old(self)@, *message),
            final(self).wf(),
    {
        broadcast use vstd::std_specs::hash::group_hash_axioms;

        let cap: u64 = match self.capabilities {
            Some(bits) => bits,
            None => 0,
        };
        match mavio_into_value(cap, message.param_value, message.param_type) {
            Some(value) => match &message.param_id {
                Some(ident) => {
                    self.parameters.map.insert(ident.clone(), Parameter::new(value));
                    if message.param_count > 0 {
                        self.parameters.loading_state.has_loaded.insert(message.param_index);
                        self.parameters.loading_state.expected_count = message.param_count;
                    }
                },
                None => {},
            },
            None => {},
        }
    }

    fn on_heartbeat(&mut self, message: &Heartbeat)
        ensures
            final(self)@ == with_heartbeat(old(self)@, *message),
    {
        self.mav_type = Some(message.mav_type);
        self.mav_state = Some(message.system_status);
    }

    /// Takes over a position, as the last one and at the end of the track.
    pub fn register_global_position(&mut self, position: GlobalPosition)
        ensures
            final(self)@ == with_position(old(self)@, position),
    {
        self.global_position = Some(position);
        if self.global_positions.len() >= TRACK_SIZE {
            self.global_positions.pop_front();
        }
        self.global_positions.push_back(position);
        assert(self@ =~= with_position(old(self)@, position));
    }

    /// Takes over a status text.
    pub fn on_status_text(&mut self, message: &Statustext, time: Instant)
        ensures
            final(self)@ == with_status(old(self)@, *message, time),
    {
        match string_from_cstring(message.text.as_slice()) {
            Some(text) => {
                self.status_texts.push(StatusText { at: time, severity: message.severity, text });
                assert(self@ =~= with_status(old(self)@, *message, time));
            },
            None => {},
        }
    }

    /// Takes over a message, and remembers it.
    pub fn handle_message(&mut self, time: Instant, message: WireMessage)
        requires
            old(self).wf(),
        ensures
            final(self)@ == after_message(old(self)@, time, message),
            final(self).wf(),
    {
        broadcast use vstd::std_specs::hash::group_hash_axioms;

        match &message.content {
            Telemetry::Heartbeat(m) => self.on_heartbeat(m),
            Telemetry::AutopilotVersion(m) => self.on_autopilot_version(m),
            Telemetry::ComponentInformationBasic(m) => self.on_component_information_basic(m),
            Telemetry::ParamValue(m) => self.on_param_value(m),
            Telemetry::SysStatus(m) => self.on_sys_status(m, time),
            Telemetry::BatteryStatus(m) => self.on_battery_status(m, time),
            Telemetry::Attitude(m) => self.on_attitude(m, time),
            Telemetry::AttitudeQuaternion(m) => self.on_attitude_quaternion(m, time),
            Telemetry::GlobalPositionInt(m) => self.on_global_position_int(m, time),
            Telemetry::GlobalPositionIntCov(m) => self.on_global_position_int_cov(m, time),
            Telemetry::Statustext(m) => self.on_status_text(m, time),
            Telemetry::Other(_) => {},
        }
        let ghost w = self@;
        assert(w == told(old(self)@, time, message.content));
        assert(valid(w));
        while self.message_history.len() >= HISTORY_SIZE
            invariant
                self@ == (VehicleState {
                    message_history: w.message_history.take(self.message_history@.len() as int),
                    ..w
                }),
                self.message_history@.len() <= w.message_history.len(),
                w.message_history.len() >= HISTORY_SIZE ==> self.message_history@.len()
                    >= HISTORY_SIZE - 1,
                w.message_history.len() < HISTORY_SIZE ==> self.message_history@.len()
                    == w.message_history.len(),
            decreases self.message_history@.len(),
        {
            let ghost n = self.message_history@.len() as int;
            self.message_history.pop_back();
            assert(w.message_history.take(n).drop_last() =~= w.message_history.take(n - 1));
        }
        let id = message.content.id();
        let shared = Arc::new(message);
        self.message_history.push_front(MavMessage { at: time, message: shared.clone() });
        self.latest_message.insert(id, MavMessage { at: time, message: shared });
        assert(self@ =~= after_message(old(self)@, time, message));
    }

    /// What a link told of the vehicle, to be changed in place.
    pub fn link_info_mut(&mut self, link_id: LinkId) -> (r: &mut VehicleLinkInfo)
        requires
            old(self).wf(),
        ensures
            *r == match value_at(old(self)@.link_info, link_id.rank()) {
                Some(info) => info,
                None => VehicleLinkInfo { last_message: None },
            },
            final(self)@ == (VehicleState {
                link_info: with_entry(old(self)@.link_info, link_id, *final(r)),
                ..old(self)@
            }),
            final(self).wf(),
    {
        self.link_info.get_mut_or_insert(link_id, VehicleLinkInfo { last_message: None })
    }

    /// How the vehicle is shown.
    pub fn pretty_name(&self) -> (r: String)
        ensures
            r@ == shown_name(self@),
    {
        let mut r = match &self.vendor_name {
            Some(name) => name.clone(),
            None => "Unknown".to_owned(),
        };
        r.push(' ');
        match &self.model_name {
            Some(name) => push_text(&mut r, name.as_str()),
            None => push_text(&mut r, "Unknown"),
        }
        push_text(&mut r, " (mav ");
        push_decimal(&mut r, self.mav_id.system as u64);
        r.push(':');
        push_decimal(&mut r, self.mav_id.component as u64);
        r.push(')');
        assert(r@ =~= shown_name(self@));
        r
    }

    fn on_autopilot_version(&mut self, message: &AutopilotVersion)
        ensures
            final(self)@ == with_capability(old(self)@, message.capabilities),
    {
        self.set_mav_capability(message.capabilities);
    }

    fn on_sys_status(&mut self, message: &SysStatus, time: Instant)
        ensures
            final(self)@ == told(old(self)@, time, Telemetry::SysStatus(*message)),
    {
        self.battery_state = Some(
            BatteryState {
                at: time,
                voltage: message.voltage_battery as u32,
                current: message.current_battery,
                charge: message.battery_remaining,
            },
        );
    }

    fn on_battery_status(&mut self, message: &BatteryStatus, time: Instant)
        ensures
            final(self)@ == told(old(self)@, time, Telemetry::BatteryStatus(*message)),
    {
        self.battery_state = Some(
            BatteryState {
                at: time,
                voltage: sum_voltages(&message.voltages),
                current: message.current_battery,
                charge: message.battery_remaining,
            },
        );
    }

    fn on_attitude(&mut self, message: &AttitudeEuler, time: Instant)
        ensures
            final(self)@ == told(old(self)@, time, Telemetry::Attitude(*message)),
    {
        self.angular_rates = Some(
            AngularRate {
                at: time,
                rollspeed: message.rollspeed,
                pitchspeed: message.pitchspeed,
                yawspeed: message.yawspeed,
            },
        );
        self.attitude = Some(
            Attitude {
                at: time,
                attitude: Orientation::Euler {
                    roll: message.roll,
                    pitch: message.pitch,
                    yaw: message.yaw,
                },
            },
        );
    }

    fn on_attitude_quaternion(&mut self, message: &AttitudeQuaternion, time: Instant)
        ensures
            final(self)@ == told(old(self)@, time, Telemetry::AttitudeQuaternion(*message)),
    {
        self.angular_rates = Some(
            AngularRate {
                at: time,
                rollspeed: message.rollspeed,
                pitchspeed: message.pitchspeed,
                yawspeed: message.yawspeed,
            },
        );
        self.attitude = Some(
            Attitude {
                at: time,
                attitude: Orientation::Quaternion {
                    q1: message.q1,
                    q2: message.q2,
                    q3: message.q3,
                    q4: message.q4,
                },
            },
        );
    }

    fn on_global_position_int(&mut self, message: &GlobalPositionInt, time: Instant)
        ensures
            final(self)@ == told(old(self)@, time, Telemetry::GlobalPositionInt(*message)),
    {
        self.register_global_position(
            GlobalPosition {
                at: time,
                lat: message.lat,
                lon: message.lon,
                alt_agl: message.relative_alt,
            },
        );
        self.velocity_ned = Some(Velocity::Integers(message.vx, message.vy, message.vz));
        self.altitude_msl = Some(message.alt);
    }

    fn on_global_position_int_cov(&mut self, message: &GlobalPositionIntCov, time: Instant)
        ensures
            final(self)@ == told(old(self)@, time, Telemetry::GlobalPositionIntCov(*message)),
    {
        self.register_global_position(
            GlobalPosition {
                at: time,
                lat: message.lat,
                lon: message.lon,
                alt_agl: message.relative_alt,
            },
        );
        self.velocity_ned = Some(Velocity::Singles(message.vx, message.vy, message.vz));
        self.altitude_msl = Some(message.alt);
    }
}

// ---------------------------------------------------------------------------
// Laws
// ---------------------------------------------------------------------------

/// A vehicle stays the same vehicle, whatever it tells.
pub proof fn law_message_keeps_id(v: VehicleState, time: Instant, message: WireMessage)
    ensures
        after_message(v, time, message).mav_id == v.mav_id,
{
}

/// The message that came in last stands at the front of the history, the others behind
/// it in the order in which they stood, and no more than fit.
pub proof fn law_history(v: VehicleState, time: Instant, message: WireMessage)
    requires
        v.message_history.len() <= HISTORY_SIZE,
    ensures
        ({
            let former = v.message_history;
            let history = after_message(v, time, message).message_history;
            &&& history.len() == if former.len() < HISTORY_SIZE {
                (former.len() + 1) as int
            } else {
                HISTORY_SIZE as int
            }
            &&& history[0].at == time && *history[0].message == message
            &&& forall|i: int| 1 <= i < history.len() ==> #[trigger] history[i] == former[i - 1]
        }),
{
}

/// The latest message of its kind is the one that came in last; those of other kinds
/// stay.
pub proof fn law_latest_message(v: VehicleState, time: Instant, message: WireMessage, other: u32)
    ensures
        ({
            let latest = after_message(v, time, message).latest_message;
            let id = message_id(message.content);
            &&& latest.contains_key(id) && latest[id].at == time && *latest[id].message == message
            &&& other != id ==> (latest.contains_key(other) == v.latest_message.contains_key(other))
            &&& other != id && latest.contains_key(other) ==> latest[other]
                == v.latest_message[other]
        }),
{
}

/// The track ends with the last position, and otherwise keeps its newest positions in
/// their order.
pub proof fn law_track(track: Seq<GlobalPosition>, position: GlobalPosition)
    requires
        track.len() <= TRACK_SIZE,
    ensures
        onward(track, position).len() <= TRACK_SIZE,
        onward(track, position).last() == position,
        onward(track, position).drop_last() == track.skip(
            track.len() - onward(track, position).len() + 1,
        ),
{
    assert(onward(track, position).drop_last() =~= track.skip(
        track.len() - onward(track, position).len() + 1,
    ));
}

/// A value that is packed for a vehicle, and that the vehicle reports back, is what the
/// parameter holds from then on; the other parameters stay.
pub proof fn law_reported_back(
    v: VehicleState,
    cap: u64,
    ident: Ident,
    value: Value,
    m: ParamValue,
    other: Ident,
)
    requires
        sorted(v.parameters),
        v.capabilities == Some(cap),
        packed(cap, value) == Some((m.param_value as int, m.param_type)),
        cap & PARAM_ENCODE_BYTEWISE != PARAM_ENCODE_BYTEWISE ==> survives_c_cast(value),
        m.param_id == Some(ident),
    ensures
        value_at(with_parameter(v, m).parameters, ident.rank()) == Some(fresh(value)),
        other@ != ident@ ==> value_at(with_parameter(v, m).parameters, other.rank()) == value_at(
            v.parameters,
            other.rank(),
        ),
{
    law_packing_round_trip(cap, value, m.param_value);
    law_with_entry(v.parameters, ident, fresh(value));
    lemma_text_rank(other@, ident@);
}

/// Once a parameter has come in for each index below the number that the vehicle
/// announced, as many have come in as it announced.
pub proof fn law_all_indices_are_all_parameters(v: VehicleState)
    requires
        v.has_loaded.finite(),
        forall|index: u16| index < v.expected_count ==> #[trigger] v.has_loaded.contains(index),
    ensures
        v.has_loaded.len() >= v.expected_count,
{
    lemma_indices(v.expected_count);
    vstd::set_lib::lemma_len_subset(indices(v.expected_count), v.has_loaded);
}

/// The indices below a number.
spec fn indices(count: u16) -> Set<u16> {
    Set::new(|index: u16| index < count)
}

proof fn lemma_indices(count: u16)
    ensures
        indices(count).finite(),
        indices(count).len() == count,
    decreases count,
{
    if count == 0 {
        assert(indices(count) =~= Set::empty());
    } else {
        let last = (count - 1) as u16;
        lemma_indices(last);
        assert(indices(count) =~= indices(last).insert(last));
    }
}

} // verus!
