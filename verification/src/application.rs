//! The ground station: its state, what happens to it, and what it asks of its
//! surroundings.

use crate::command::{
    fly_to, introduction, reposition, request_vehicle_info, Geodetic, Outgoing, Step,
};
use crate::ident::{lemma_mavlink_rank, Ident, MavlinkId};
use crate::link::{
    built, default_of, law_builds_what_was_built, ordered, typed, usb_names, usb_ports, variant_of,
    Builder, Config, LinkBuilder, LinkConfig, LinkId, LinkVariant, SerialPort,
};
use crate::parameter_update::updates;
use crate::parameters::{matching, ParameterSet, Parameters, TimerId};
use crate::sorted::{
    before, law_with_entry, lemma_slot_bounds, ranks, slot, sorted, value_at, with_entry, Key,
    SortedMap,
};
use crate::telemetry::Telemetry;
use crate::text::{has_text, lemma_position_of, position_of};
use crate::value::Value;
use crate::vehicle::{after_message, unknown_vehicle, valid, Vehicle, VehicleLinkInfo, VehicleState};
use crate::wire::{decode_frame, fits, frame_holds, RawFrame, WireMessage};

use std::path::PathBuf;
use std::time::Instant;
use vstd::prelude::*;

verus! {

/// A path in the file system.
#[verifier::external_type_specification]
#[verifier::external_body]
pub struct ExPathBuf(PathBuf);

// ---------------------------------------------------------------------------
// State
// ---------------------------------------------------------------------------

/// What is kept between two runs.
#[derive(Debug)]
pub struct Configuration {
    pub link_config: Option<LinkConfig>,
    pub file_picker_path: Option<PathBuf>,
}

/// A circle that a vehicle is to fly, as far as it has been drawn. Radius and
/// altitude are singles.
#[derive(Debug, Clone, Copy, PartialEq, Eq, Structural)]
pub struct FlyToPositionState {
    pub start: Option<Geodetic>,
    pub end: Option<Geodetic>,
    pub radius: Option<u32>,
    pub altitude: Option<u32>,
}

/// The ground station.
#[derive(Debug)]
pub struct Application {
    /// The link as it is typed in.
    pub builder: LinkBuilder,
    /// The link that it builds into.
    pub build: Option<LinkConfig>,
    /// Whether a connection stands.
    pub connected: bool,
    pub configuration: Configuration,
    pub vehicles: SortedMap<MavlinkId, Vehicle>,
    pub parameter_filter: String,
    pub parameter_filtered: Option<Parameters>,
    pub primary_vehicle: Option<MavlinkId>,
    pub follow_primary_vehicle: bool,
    pub parameter_namespace_sep: char,
    pub fly_to_position: FlyToPositionState,
    /// The timer that is asked for next.
    pub next_timer: u64,
}

/// What the configuration holds.
pub ghost struct Settings {
    pub link_config: Option<Config>,
    pub file_picker_path: Option<PathBuf>,
}

/// What the station holds.
#[verifier::ext_equal]
pub ghost struct Station {
    pub builder: Builder,
    pub build: Option<Config>,
    pub connected: bool,
    pub configuration: Settings,
    pub vehicles: Seq<(MavlinkId, VehicleState)>,
    pub parameter_filter: Seq<char>,
    pub parameter_filtered: Option<ParameterSet>,
    pub primary_vehicle: Option<MavlinkId>,
    pub follow_primary_vehicle: bool,
    pub parameter_namespace_sep: char,
    pub fly_to_position: FlyToPositionState,
    pub next_timer: u64,
}

pub open spec fn maybe_config(config: Option<LinkConfig>) -> Option<Config> {
    match config {
        Some(c) => Some(c@),
        None => None,
    }
}

pub open spec fn maybe_parameters(parameters: Option<Parameters>) -> Option<ParameterSet> {
    match parameters {
        Some(p) => Some(p@),
        None => None,
    }
}

/// What vehicles hold.
pub open spec fn fleet(entries: Seq<(MavlinkId, Vehicle)>) -> Seq<(MavlinkId, VehicleState)> {
    Seq::new(entries.len(), |i: int| (entries[i].0, entries[i].1@))
}

impl View for Configuration {
    type V = Settings;

    open spec fn view(&self) -> Settings {
        Settings {
            link_config: maybe_config(self.link_config),
            file_picker_path: self.file_picker_path,
        }
    }
}

impl View for Application {
    type V = Station;

    open spec fn view(&self) -> Station {
        Station {
            builder: self.builder@,
            build: maybe_config(self.build),
            connected: self.connected,
            configuration: self.configuration@,
            vehicles: fleet(self.vehicles.entries@),
            parameter_filter: self.parameter_filter@,
            parameter_filtered: maybe_parameters(self.parameter_filtered),
            primary_vehicle: self.primary_vehicle,
            follow_primary_vehicle: self.follow_primary_vehicle,
            parameter_namespace_sep: self.parameter_namespace_sep,
            fly_to_position: self.fly_to_position,
            next_timer: self.next_timer,
        }
    }
}

/// The station is consistent: the vehicles stand in order under their own ids, each in
/// order itself; a primary one is chosen as soon as there is one; the link is built as it
/// is typed in; and parameters are filtered, in order, only by a filter.
pub open spec fn consistent(s: Station) -> bool {
    &&& sorted(s.vehicles)
    &&& forall|i: int|
        0 <= i < s.vehicles.len() ==> valid((#[trigger] s.vehicles[i]).1) && s.vehicles[i].1.mav_id
            == s.vehicles[i].0
    &&& s.vehicles.len() > 0 ==> s.primary_vehicle is Some
    &&& s.build == built(s.builder)
    &&& s.parameter_filtered matches Some(p) ==> sorted(p.entries) && s.parameter_filter.len() > 0
}

// ---------------------------------------------------------------------------
// What happens
// ---------------------------------------------------------------------------

/// What happens to the connection.
#[derive(Debug)]
pub enum ConnectionMessage {
    ConnectFailed,
    ConnectSuccess,
    /// A frame over a link.
    RecvFrame(RawFrame, LinkId),
    RecvError(LinkId),
    ConnectToLink(LinkConfig),
    DisconnectLink,
    ChangeLinkVariant(LinkVariant),
    UpdateLinkBuilder(LinkBuilder),
    DetectSerialPorts,
    /// The serial ports that were found; `None` where they could not be listed.
    FoundSerialPorts(Option<Vec<SerialPort>>),
}

/// What happens to parameters.
#[derive(Debug)]
pub enum ParameterMessage {
    /// Filter for only certain parameters.
    FilterBuf(String),
    /// Ask a vehicle for its parameters.
    ListReload(MavlinkId),
    /// Upload all changed parameters to their vehicle.
    UploadAll(MavlinkId),
    /// Drop what was typed in for a parameter.
    ValueReset(MavlinkId, Ident),
    /// Upload a parameter to its vehicle.
    ValueUpload(MavlinkId, Ident, Value),
    /// An upload took too long.
    ValueUploadTimeout(MavlinkId, Ident),
    /// A text was typed in for a parameter. It comes with how it reads as a single.
    BufferEdit(MavlinkId, Ident, String, Option<u32>),
    /// Choose where to save parameters.
    SaveDialog(Parameters),
    /// Save parameters to a file.
    SaveToFile(PathBuf, Parameters),
    /// Parameters were saved to a file in a directory, or could not be.
    Saved(Option<PathBuf>),
    /// Choose a file to load.
    LoadDialog(MavlinkId),
    /// Load a file for a vehicle.
    LoadFromFile(PathBuf, MavlinkId),
    /// A file was loaded for a vehicle, out of a directory; without parameters where it
    /// could not be read.
    Loaded(MavlinkId, Option<Parameters>, Option<PathBuf>),
}

/// What happens to the station.
#[derive(Debug)]
pub enum Message {
    /// The map was moved by hand.
    MapMoved,
    Connection(ConnectionMessage),
    Parameter(ParameterMessage),
    SaveConfigurationToFile,
    UpdateAndSaveConfiguration(Configuration),
    SetPrimaryVehicle(MavlinkId),
    SetFollowPrimaryVehicle(bool),
    FlyToPositionStart(Geodetic),
    FlyToPositionInProgress(Geodetic),
    /// The circle is drawn. It comes with its radius, a single.
    FlyToPositionFinalize(Geodetic, u32),
}

// ---------------------------------------------------------------------------
// What is asked of the surroundings
// ---------------------------------------------------------------------------

/// What the station asks of its surroundings.
#[derive(Debug)]
pub enum Action {
    /// Write the configuration.
    WriteConfiguration,
    /// Have `Message::SaveConfigurationToFile` happen.
    SaveLater,
    /// Move the map there: units of 1e-7 degrees.
    ShowPosition { lat: i32, lon: i32 },
    /// Hold a conversation over the connection.
    Talk(Vec<Step>),
    /// Send a message over the connection.
    Send(Outgoing),
    /// Have the upload of a parameter time out.
    StartTimer { timer: TimerId, mav_id: MavlinkId, ident: Ident },
    /// Stop a timer.
    AbortTimer(TimerId),
    /// Open a link.
    Connect(LinkConfig),
    /// Close the connection.
    Close,
    /// Give signs of life over the connection.
    StartHeartbeat,
    /// List the serial ports.
    ListSerialPorts,
    /// Let a file be chosen to save to.
    OpenSaveDialog(Parameters),
    /// Let a file be chosen to load for a vehicle.
    OpenLoadDialog(MavlinkId),
    /// Save parameters to a file.
    SaveFile(PathBuf, Parameters),
    /// Load a file for a vehicle.
    LoadFile(PathBuf, MavlinkId),
}

/// What an action holds.
pub ghost enum Act {
    WriteConfiguration,
    SaveLater,
    ShowPosition { lat: i32, lon: i32 },
    Talk(Seq<Step>),
    Send(Outgoing),
    StartTimer { timer: TimerId, mav_id: MavlinkId, ident: Ident },
    AbortTimer(TimerId),
    Connect(Config),
    Close,
    StartHeartbeat,
    ListSerialPorts,
    OpenSaveDialog(ParameterSet),
    OpenLoadDialog(MavlinkId),
    SaveFile(PathBuf, ParameterSet),
    LoadFile(PathBuf, MavlinkId),
}

impl View for Action {
    type V = Act;

    open spec fn view(&self) -> Act {
        match *self {
            Action::WriteConfiguration => Act::WriteConfiguration,
            Action::SaveLater => Act::SaveLater,
            Action::ShowPosition { lat, lon } => Act::ShowPosition { lat, lon },
            Action::Talk(steps) => Act::Talk(steps@),
            Action::Send(outgoing) => Act::Send(outgoing),
            Action::StartTimer { timer, mav_id, ident } => Act::StartTimer { timer, mav_id, ident },
            Action::AbortTimer(timer) => Act::AbortTimer(timer),
            Action::Connect(config) => Act::Connect(config@),
            Action::Close => Act::Close,
            Action::StartHeartbeat => Act::StartHeartbeat,
            Action::ListSerialPorts => Act::ListSerialPorts,
            Action::OpenSaveDialog(parameters) => Act::OpenSaveDialog(parameters@),
            Action::OpenLoadDialog(mav_id) => Act::OpenLoadDialog(mav_id),
            Action::SaveFile(path, parameters) => Act::SaveFile(path, parameters@),
            Action::LoadFile(path, mav_id) => Act::LoadFile(path, mav_id),
        }
    }
}

/// What actions hold, in order.
pub open spec fn acts(actions: Seq<Action>) -> Seq<Act> {
    Seq::new(actions.len(), |i: int| actions[i]@)
}

// ---------------------------------------------------------------------------
// What becomes of the station
// ---------------------------------------------------------------------------

/// What is known of a vehicle.
pub open spec fn vehicle_of(s: Station, mav_id: MavlinkId) -> Option<VehicleState> {
    value_at(s.vehicles, mav_id.rank())
}

/// The station with something else known of a vehicle.
pub open spec fn with_vehicle(s: Station, mav_id: MavlinkId, v: VehicleState) -> Station {
    Station { vehicles: with_entry(s.vehicles, mav_id, v), ..s }
}

/// The parameters of a vehicle.
pub open spec fn parameters_of(v: VehicleState) -> ParameterSet {
    ParameterSet {
        entries: v.parameters,
        has_loaded: v.has_loaded,
        expected_count: v.expected_count,
    }
}

/// The station at its start.
pub open spec fn booted(configuration: Settings) -> Station {
    let builder = match configuration.link_config {
        Some(config) => typed(config),
        None => default_of(LinkVariant::Udp),
    };
    Station {
        builder,
        build: built(builder),
        connected: false,
        configuration,
        vehicles: Seq::empty(),
        parameter_filter: Seq::empty(),
        parameter_filtered: None,
        primary_vehicle: None,
        follow_primary_vehicle: false,
        parameter_namespace_sep: '_',
        fly_to_position: FlyToPositionState { start: None, end: None, radius: None, altitude: None },
        next_timer: 0,
    }
}

/// The filtered parameters brought up to date: none where the filter is empty, those
/// of the primary vehicle that match it, and as before where that vehicle is not known.
pub open spec fn refreshed(s: Station) -> Station {
    if s.parameter_filter.len() == 0 {
        Station { parameter_filtered: None, ..s }
    } else {
        match s.primary_vehicle {
            Some(mav_id) => match vehicle_of(s, mav_id) {
                Some(v) => Station {
                    parameter_filtered: Some(
                        ParameterSet {
                            entries: matching(v.parameters, s.parameter_filter),
                            ..parameters_of(v)
                        },
                    ),
                    ..s
                },
                None => s,
            },
            None => s,
        }
    }
}

/// The first vehicle that is heard becomes the primary one.
pub open spec fn with_primary(s: Station, mav_id: MavlinkId) -> Station {
    if s.vehicles.len() == 0 {
        Station { primary_vehicle: Some(mav_id), ..s }
    } else {
        s
    }
}

/// A vehicle after a message over a link.
pub open spec fn heard(
    s: Station,
    now: Instant,
    mav_id: MavlinkId,
    message: WireMessage,
    link_id: LinkId,
) -> VehicleState {
    let v = match vehicle_of(s, mav_id) {
        Some(v) => v,
        None => unknown_vehicle(mav_id),
    };
    let info = VehicleLinkInfo { last_message: Some(now) };
    after_message(
        VehicleState { link_info: with_entry(v.link_info, link_id, info), ..v },
        now,
        message,
    )
}

/// The station after a message of a vehicle over a link.
pub open spec fn after_frame(
    s: Station,
    now: Instant,
    mav_id: MavlinkId,
    message: WireMessage,
    link_id: LinkId,
) -> Station {
    let t = with_vehicle(
        with_primary(s, mav_id),
        mav_id,
        heard(s, now, mav_id, message, link_id),
    );
    if t.primary_vehicle == Some(mav_id) {
        refreshed(t)
    } else {
        t
    }
}

/// What a message of a vehicle calls for: an introduction where the vehicle was not
/// known and a connection stands, and a look at it where it is followed.
pub open spec fn frame_acts(
    s: Station,
    now: Instant,
    mav_id: MavlinkId,
    message: WireMessage,
    link_id: LinkId,
) -> Seq<Act> {
    let talk = if vehicle_of(s, mav_id) is None && s.connected {
        seq![Act::Talk(introduction(mav_id))]
    } else {
        Seq::empty()
    };
    let look = match heard(s, now, mav_id, message, link_id).global_position {
        Some(position) => if s.follow_primary_vehicle && with_primary(s, mav_id).primary_vehicle
            == Some(mav_id) {
            seq![Act::ShowPosition { lat: position.lat, lon: position.lon }]
        } else {
            Seq::empty()
        },
        None => Seq::empty(),
    };
    talk + look
}

/// The station with a link typed in. One that can be built is kept in the
/// configuration.
pub open spec fn with_builder(s: Station, builder: Builder) -> Station {
    Station {
        builder,
        build: built(builder),
        configuration: if built(builder) is Some {
            Settings { link_config: built(builder), ..s.configuration }
        } else {
            s.configuration
        },
        ..s
    }
}

pub open spec fn builder_acts(builder: Builder) -> Seq<Act> {
    if built(builder) is Some {
        seq![Act::SaveLater]
    } else {
        Seq::empty()
    }
}

/// The station with the serial ports that were found.
pub open spec fn with_ports(s: Station, found: Option<Seq<SerialPort>>) -> Station {
    match s.builder {
        Builder::Serial { port, baud, available_ports } => {
            let builder = Builder::Serial {
                port,
                baud,
                available_ports: match found {
                    Some(ports) => ordered(usb_names(ports)),
                    None => available_ports,
                },
            };
            Station { builder, build: built(builder), ..s }
        },
        _ => s,
    }
}

/// The station after something else than a frame happened to the connection, and what
/// that calls for.
pub open spec fn after_connection(s: Station, message: ConnectionMessage) -> (Station, Seq<Act>) {
    match message {
        ConnectionMessage::RecvFrame(_, _) => (s, Seq::empty()),
        ConnectionMessage::RecvError(_) => (s, Seq::empty()),
        ConnectionMessage::ChangeLinkVariant(variant) => if variant_of(s.builder) == variant {
            (s, Seq::empty())
        } else {
            (with_builder(s, default_of(variant)), builder_acts(default_of(variant)))
        },
        ConnectionMessage::UpdateLinkBuilder(builder) => (
            with_builder(s, builder@),
            builder_acts(builder@),
        ),
        ConnectionMessage::DetectSerialPorts => (
            s,
            if s.builder is Serial {
                seq![Act::ListSerialPorts]
            } else {
                Seq::empty()
            },
        ),
        ConnectionMessage::FoundSerialPorts(found) => (
            with_ports(
                s,
                match found {
                    Some(ports) => Some(ports@),
                    None => None,
                },
            ),
            Seq::empty(),
        ),
        ConnectionMessage::ConnectToLink(config) => (
            Station {
                configuration: Settings { link_config: Some(config@), ..s.configuration },
                ..s
            },
            seq![Act::Connect(config@)],
        ),
        ConnectionMessage::DisconnectLink => (
            Station { connected: false, ..s },
            if s.connected {
                seq![Act::Close]
            } else {
                Seq::empty()
            },
        ),
        ConnectionMessage::ConnectFailed => (s, Seq::empty()),
        ConnectionMessage::ConnectSuccess => (
            Station { connected: true, ..s },
            seq![Act::StartHeartbeat],
        ),
    }
}

/// The station after a frame over a link, with what it tells or with no message in it,
/// and what that calls for.
pub open spec fn after_received(
    s: Station,
    now: Instant,
    frame: RawFrame,
    told: Option<Telemetry>,
    link_id: LinkId,
) -> (Station, Seq<Act>) {
    match told {
        Some(content) => {
            let message = WireMessage { payload: frame.payload, content };
            (
                after_frame(s, now, frame.sender, message, link_id),
                frame_acts(s, now, frame.sender, message, link_id),
            )
        },
        None => (s, Seq::empty()),
    }
}

/// `t` is the station after something happened to the connection at the time `now`, and
/// `called_for` is what that calls for. Names of parameters are made by `wire_name`.
pub open spec fn connection_happens<N: Fn(&[u8; 16]) -> Option<Ident>>(
    wire_name: N,
    s: Station,
    now: Instant,
    message: ConnectionMessage,
    t: Station,
    called_for: Seq<Act>,
) -> bool {
    match message {
        ConnectionMessage::RecvFrame(frame, link_id) => exists|told: Option<Telemetry>| #[trigger]
            frame_holds(wire_name, frame, told) && (t, called_for) == after_received(
                s,
                now,
                frame,
                told,
                link_id,
            ),
        _ => (t, called_for) == after_connection(s, message),
    }
}

/// A frame has a payload that is no longer than its message, but for zeros at its end.
pub open spec fn frame_fits(message: ConnectionMessage) -> bool {
    message matches ConnectionMessage::RecvFrame(frame, _) ==> fits(frame.payload)
}

// ---------------------------------------------------------------------------
// Vehicles and what they hold
// ---------------------------------------------------------------------------

proof fn lemma_fleet_slot(entries: Seq<(MavlinkId, Vehicle)>, r: Seq<int>)
    ensures
        slot(fleet(entries), r) == slot(entries, r),
    decreases entries.len(),
{
    if entries.len() > 0 {
        assert(fleet(entries).skip(1) =~= fleet(entries.skip(1)));
        lemma_fleet_slot(entries.skip(1), r);
    }
}

/// What vehicles hold is found, put in and ordered as the vehicles are.
pub proof fn lemma_fleet(entries: Seq<(MavlinkId, Vehicle)>, mav_id: MavlinkId)
    ensures
        ranks(fleet(entries)) == ranks(entries),
        sorted(fleet(entries)) == sorted(entries),
        value_at(fleet(entries), mav_id.rank()) == match value_at(entries, mav_id.rank()) {
            Some(vehicle) => Some(vehicle@),
            None => None,
        },
        forall|vehicle: Vehicle| #[trigger]
            fleet(with_entry(entries, mav_id, vehicle)) == with_entry(
                fleet(entries),
                mav_id,
                vehicle@,
            ),
{
    assert(ranks(fleet(entries)) =~= ranks(entries));
    lemma_position_of(ranks(entries), mav_id.rank());
    lemma_fleet_slot(entries, mav_id.rank());
    lemma_slot_bounds(entries, mav_id.rank());
    assert forall|vehicle: Vehicle| #[trigger]
        fleet(with_entry(entries, mav_id, vehicle)) == with_entry(
            fleet(entries),
            mav_id,
            vehicle@,
        ) by {
        assert(fleet(with_entry(entries, mav_id, vehicle)) =~= with_entry(
            fleet(entries),
            mav_id,
            vehicle@,
        ));
    }
    if sorted(entries) {
        assert forall|i: int, j: int| 0 <= i < j < entries.len() implies before(
            #[trigger] fleet(entries)[i].0.rank(),
            #[trigger] fleet(entries)[j].0.rank(),
        ) by {
            assert(before(entries[i].0.rank(), entries[j].0.rank()));
        }
    }
    if sorted(fleet(entries)) {
        assert forall|i: int, j: int| 0 <= i < j < entries.len() implies before(
            #[trigger] entries[i].0.rank(),
            #[trigger] entries[j].0.rank(),
        ) by {
            assert(before(
                fleet(entries)[i].0.rank(),
                fleet(entries)[j].0.rank(),
            ));
        }
    }
}

/// The station stays consistent with something else known of a vehicle.
pub proof fn lemma_with_vehicle(s: Station, mav_id: MavlinkId, v: VehicleState)
    requires
        consistent(s),
        valid(v),
        v.mav_id == mav_id,
        s.primary_vehicle is Some || vehicle_of(s, mav_id) is Some,
    ensures
        consistent(with_vehicle(s, mav_id, v)),
        vehicle_of(with_vehicle(s, mav_id, v), mav_id) == Some(v),
{
    law_with_entry(s.vehicles, mav_id, v);
    let after = with_entry(s.vehicles, mav_id, v);
    lemma_position_of(ranks(s.vehicles), mav_id.rank());
    let at = position_of(ranks(s.vehicles), mav_id.rank());
    lemma_slot_bounds(s.vehicles, mav_id.rank());
    let i0 = slot(s.vehicles, mav_id.rank());
    assert forall|i: int| 0 <= i < after.len() implies valid((#[trigger] after[i]).1)
        && after[i].1.mav_id == after[i].0 by {
        if at < s.vehicles.len() {
            if i == at {
                assert(ranks(s.vehicles)[at] == s.vehicles[at].0.rank());
                lemma_mavlink_rank(s.vehicles[at].0, mav_id);
            } else {
                assert(after[i] == s.vehicles[i]);
            }
        } else if i < i0 {
            assert(after[i] == s.vehicles[i]);
        } else if i > i0 {
            assert(after[i] == s.vehicles[i - 1]);
        }
    }
}

// ---------------------------------------------------------------------------
// The station at work
// ---------------------------------------------------------------------------

/// Adds an action.
pub fn push_action(actions: &mut Vec<Action>, action: Action)
    ensures
        acts(final(actions)@) == acts(old(actions)@).push(action@),
{
    actions.push(action);
    assert(acts(actions@) =~= acts(old(actions)@).push(action@));
}

/// No actions.
pub fn no_actions() -> (r: Vec<Action>)
    ensures
        acts(r@) == Seq::<Act>::empty(),
{
    let r: Vec<Action> = Vec::new();
    assert(acts(r@) =~= Seq::empty());
    r
}

/// One action.
pub fn one_action(action: Action) -> (r: Vec<Action>)
    ensures
        acts(r@) == seq![action@],
{
    let mut r = no_actions();
    push_action(&mut r, action);
    assert(acts(r@) =~= seq![action@]);
    r
}

impl Configuration {
    /// The configuration of a first run.
    pub fn new() -> (r: Self)
        ensures
            r@ == (Settings { link_config: None, file_picker_path: None }),
    {
        Configuration { link_config: None, file_picker_path: None }
    }
}

impl Application {
    /// The station is in order.
    pub open spec fn wf(&self) -> bool {
        consistent(self@)
    }

    /// Starts the station with the configuration of the last run.
    pub fn boot(configuration: Configuration) -> (r: Self)
        ensures
            r.wf(),
            r@ == booted(configuration@),
    {
        let builder = match &configuration.link_config {
            Some(config) => config.to_builder(),
            None => LinkBuilder::default_udp(),
        };
        let build = builder.try_build();
        let r = Application {
            builder,
            build,
            connected: false,
            configuration,
            vehicles: SortedMap::new(),
            parameter_filter: String::new(),
            parameter_filtered: None,
            primary_vehicle: None,
            follow_primary_vehicle: false,
            parameter_namespace_sep: '_',
            fly_to_position: FlyToPositionState {
                start: None,
                end: None,
                radius: None,
                altitude: None,
            },
            next_timer: 0,
        };
        assert(r@ =~= booted(configuration@));
        r
    }

    /// Brings the filtered parameters up to date.
    pub fn refresh_filtered_parameter(&mut self)
        requires
            old(self).wf(),
        ensures
            final(self).wf(),
            final(self)@ == refreshed(old(self)@),
    {
        if !has_text(self.parameter_filter.as_str()) {
            self.parameter_filtered = None;
            return ;
        }
        match self.primary_vehicle {
            Some(mav_id) => {
                proof {
                    lemma_fleet(self.vehicles.entries@, mav_id);
                    lemma_vehicle_valid(self@, mav_id);
                }
                match self.vehicles.get(&mav_id) {
                    Some(vehicle) => {
                        let filtered = vehicle.parameters.filtered(self.parameter_filter.as_str());
                        self.parameter_filtered = Some(filtered);
                        assert(self@ =~= refreshed(old(self)@));
                    },
                    None => {},
                }
            },
            None => {},
        }
    }

    /// What is known of a vehicle, to be changed in place. Asks a vehicle that was not
    /// known to introduce itself.
    pub fn get_vehicle_or_insert(&mut self, mav_id: MavlinkId, actions: &mut Vec<Action>) -> (r:
        &mut Vehicle)
        requires
            old(self).wf(),
        ensures
            r.wf(),
            r@ == match vehicle_of(old(self)@, mav_id) {
                Some(v) => v,
                None => unknown_vehicle(mav_id),
            },
            r@.mav_id == mav_id,
            final(self)@ == with_vehicle(old(self)@, mav_id, final(r)@),
            acts(final(actions)@) == acts(old(actions)@) + if vehicle_of(old(self)@, mav_id) is None
                && old(self)@.connected {
                seq![Act::Talk(introduction(mav_id))]
            } else {
                Seq::empty()
            },
    {
        proof {
            lemma_fleet(self.vehicles.entries@, mav_id);
            lemma_vehicle_valid(self@, mav_id);
        }
        assert(acts(actions@) + Seq::<Act>::empty() =~= acts(actions@));
        if self.connected && !self.vehicles.contains_key(&mav_id) {
            push_action(actions, Action::Talk(request_vehicle_info(mav_id)));
            assert(acts(actions@) =~= acts(old(actions)@) + seq![Act::Talk(introduction(mav_id))]);
        }
        self.vehicles.get_mut_or_insert(mav_id, Vehicle::new(mav_id))
    }
}

/// What is known of a vehicle is in order, and of that vehicle.
pub proof fn lemma_vehicle_valid(s: Station, mav_id: MavlinkId)
    requires
        consistent(s),
    ensures
        vehicle_of(s, mav_id) matches Some(v) ==> valid(v) && v.mav_id == mav_id,
{
    lemma_position_of(ranks(s.vehicles), mav_id.rank());
    let at = position_of(ranks(s.vehicles), mav_id.rank());
    if at < s.vehicles.len() {
        assert(ranks(s.vehicles)[at] == s.vehicles[at].0.rank());
        lemma_mavlink_rank(s.vehicles[at].0, mav_id);
        assert(valid(s.vehicles[at].1));
    }
}

/// The station does not change with the same known of a vehicle.
pub proof fn lemma_same_vehicle(s: Station, mav_id: MavlinkId)
    ensures
        vehicle_of(s, mav_id) matches Some(v) ==> with_vehicle(s, mav_id, v) == s,
{
    lemma_position_of(ranks(s.vehicles), mav_id.rank());
    match vehicle_of(s, mav_id) {
        Some(v) => assert(with_entry(s.vehicles, mav_id, v) =~= s.vehicles),
        None => {},
    }
}

/// A vehicle stays in order, and the same, over a message.
pub proof fn lemma_heard(
    s: Station,
    now: Instant,
    mav_id: MavlinkId,
    message: WireMessage,
    link_id: LinkId,
)
    requires
        consistent(s),
    ensures
        heard(s, now, mav_id, message, link_id).mav_id == mav_id,
{
    lemma_vehicle_valid(s, mav_id);
}

impl Application {
    /// Takes over a message of a vehicle over a link.
    pub fn receive_frame(
        &mut self,
        now: Instant,
        mav_id: MavlinkId,
        message: WireMessage,
        link_id: LinkId,
    ) -> (r: Vec<Action>)
        requires
            old(self).wf(),
        ensures
            final(self).wf(),
            final(self)@ == after_frame(old(self)@, now, mav_id, message, link_id),
            acts(r@) == frame_acts(old(self)@, now, mav_id, message, link_id),
    {
        let ghost s = self@;
        let mut actions = no_actions();
        // The first vehicle becomes the primary one.
        if self.vehicles.is_empty() {
            self.primary_vehicle = Some(mav_id);
        }
        let ghost t = with_primary(s, mav_id);
        assert(self@ =~= t);
        let vehicle = self.get_vehicle_or_insert(mav_id, &mut actions);
        let info = vehicle.link_info_mut(link_id);
        info.last_message = Some(now);
        vehicle.handle_message(now, message);
        let position = vehicle.global_position;
        let ghost v = heard(s, now, mav_id, message, link_id);
        proof {
            lemma_heard(s, now, mav_id, message, link_id);
            lemma_with_vehicle(t, mav_id, v);
        }
        assert(self@ == with_vehicle(t, mav_id, v));
        let primary = match self.primary_vehicle {
            Some(id) => id == mav_id,
            None => false,
        };
        if primary {
            self.refresh_filtered_parameter();
        }
        if self.follow_primary_vehicle && primary {
            match position {
                Some(position) => {
                    push_action(
                        &mut actions,
                        Action::ShowPosition { lat: position.lat, lon: position.lon },
                    );
                },
                None => {},
            }
        }
        assert(acts(actions@) =~= frame_acts(s, now, mav_id, message, link_id));
        actions
    }

    /// Takes over a link that is typed in.
    fn set_builder(&mut self, builder: LinkBuilder) -> (r: Vec<Action>)
        requires
            old(self).wf(),
        ensures
            final(self).wf(),
            final(self)@ == with_builder(old(self)@, builder@),
            acts(r@) == builder_acts(builder@),
    {
        self.build = builder.try_build();
        self.builder = builder;
        match &self.build {
            Some(config) => {
                let config = config.clone();
                self.configuration.link_config = Some(config);
                assert(self@ =~= with_builder(old(self)@, builder@));
                one_action(Action::SaveLater)
            },
            None => {
                assert(self@ =~= with_builder(old(self)@, builder@));
                no_actions()
            },
        }
    }

    /// Takes over the serial ports that were found.
    fn set_ports(&mut self, found: Option<Vec<SerialPort>>)
        requires
            old(self).wf(),
        ensures
            final(self).wf(),
            final(self)@ == with_ports(
                old(self)@,
                match found {
                    Some(ports) => Some(ports@),
                    None => None,
                },
            ),
    {
        match &mut self.builder {
            LinkBuilder::Serial { available_ports, .. } => {
                match found {
                    Some(ports) => {
                        *available_ports = usb_ports(&ports);
                    },
                    None => {},
                }
                self.build = self.builder.try_build();
            },
            _ => {},
        }
    }

    /// Takes over what happened to the connection at the time `time_now`. Names of
    /// parameters are made by `wire_name`.
    pub fn connection_message_update<N: Fn(&[u8; 16]) -> Option<Ident>>(
        &mut self,
        time_now: Instant,
        message: ConnectionMessage,
        wire_name: &N,
    ) -> (r: Vec<Action>)
        requires
            old(self).wf(),
            frame_fits(message),
            forall|name: &[u8; 16]| call_requires(*wire_name, (name,)),
        ensures
            final(self).wf(),
            connection_happens(
                *wire_name,
                old(self)@,
                time_now,
                message,
                final(self)@,
                acts(r@),
            ),
    {
        match message {
            ConnectionMessage::RecvFrame(frame, link_id) => {
                let told = decode_frame(&frame, wire_name);
                assert(frame_holds(*wire_name, frame, told));
                match told {
                    Some(content) => {
                        let message = WireMessage { payload: frame.payload, content };
                        self.receive_frame(time_now, frame.sender, message, link_id)
                    },
                    None => no_actions(),
                }
            },
            ConnectionMessage::RecvError(_) => no_actions(),
            ConnectionMessage::ChangeLinkVariant(variant) => {
                if self.builder.to_variant() == variant {
                    return no_actions();
                }
                self.set_builder(variant.to_default_builder())
            },
            ConnectionMessage::UpdateLinkBuilder(builder) => self.set_builder(builder),
            ConnectionMessage::DetectSerialPorts => match &self.builder {
                LinkBuilder::Serial { .. } => one_action(Action::ListSerialPorts),
                _ => no_actions(),
            },
            ConnectionMessage::FoundSerialPorts(found) => {
                self.set_ports(found);
                no_actions()
            },
            ConnectionMessage::ConnectToLink(config) => {
                self.configuration.link_config = Some(config.clone());
                assert(self@ =~= after_connection(old(self)@, message).0);
                one_action(Action::Connect(config))
            },
            ConnectionMessage::DisconnectLink => {
                if self.connected {
                    self.connected = false;
                    return one_action(Action::Close);
                }
                no_actions()
            },
            ConnectionMessage::ConnectFailed => no_actions(),
            ConnectionMessage::ConnectSuccess => {
                self.connected = true;
                one_action(Action::StartHeartbeat)
            },
        }
    }
}

impl Application {
    /// What is known of a vehicle, to be changed in place.
    pub fn vehicle_mut(&mut self, mav_id: MavlinkId) -> (r: Option<&mut Vehicle>)
        requires
            old(self).wf(),
        ensures
            match r {
                Some(vehicle) => {
                    &&& vehicle.wf()
                    &&& vehicle@.mav_id == mav_id
                    &&& vehicle_of(old(self)@, mav_id) == Some(vehicle@)
                    &&& final(self)@ == with_vehicle(old(self)@, mav_id, final(vehicle)@)
                },
                None => vehicle_of(old(self)@, mav_id) is None && *final(self) == *old(self),
            },
    {
        proof {
            lemma_fleet(self.vehicles.entries@, mav_id);
            lemma_vehicle_valid(self@, mav_id);
        }
        self.vehicles.get_mut(&mav_id)
    }
}

// ---------------------------------------------------------------------------
// All that happens
// ---------------------------------------------------------------------------

/// What flying the primary vehicle to a place calls for.
pub open spec fn fly_acts(s: Station, position: Geodetic, radius: u32) -> Seq<Act> {
    match s.primary_vehicle {
        Some(mav_id) => if s.connected {
            seq![Act::Send(reposition(mav_id, position, radius))]
        } else {
            Seq::empty()
        },
        None => Seq::empty(),
    }
}

/// The station after a circle is drawn: the primary vehicle is to fly it. A circle that
/// was not started is none.
pub open spec fn after_finalize(s: Station, end: Geodetic, radius: u32) -> (Station, Seq<Act>) {
    match s.fly_to_position.start {
        Some(start) => (
            Station {
                fly_to_position: FlyToPositionState {
                    end: Some(end),
                    radius: Some(radius),
                    ..s.fly_to_position
                },
                ..s
            },
            fly_acts(s, start, radius),
        ),
        None => (s, Seq::empty()),
    }
}

/// The station after something else than a message to the connection or to parameters,
/// and what that calls for.
pub open spec fn after_other(s: Station, message: Message) -> (Station, Seq<Act>) {
    match message {
        Message::SaveConfigurationToFile => (s, seq![Act::WriteConfiguration]),
        Message::UpdateAndSaveConfiguration(configuration) => (
            Station { configuration: configuration@, ..s },
            seq![Act::WriteConfiguration],
        ),
        Message::MapMoved => (Station { follow_primary_vehicle: false, ..s }, Seq::empty()),
        Message::SetPrimaryVehicle(mav_id) => (
            Station { primary_vehicle: Some(mav_id), ..s },
            Seq::empty(),
        ),
        Message::SetFollowPrimaryVehicle(follow) => (
            Station { follow_primary_vehicle: follow, ..s },
            Seq::empty(),
        ),
        Message::FlyToPositionStart(position) => (
            Station {
                fly_to_position: FlyToPositionState {
                    start: Some(position),
                    end: None,
                    radius: None,
                    altitude: None,
                },
                ..s
            },
            Seq::empty(),
        ),
        Message::FlyToPositionInProgress(position) => (
            Station {
                fly_to_position: FlyToPositionState { end: Some(position), ..s.fly_to_position },
                ..s
            },
            Seq::empty(),
        ),
        Message::FlyToPositionFinalize(position, radius) => after_finalize(s, position, radius),
        Message::Connection(_) => (s, Seq::empty()),
        Message::Parameter(_) => (s, Seq::empty()),
    }
}

/// `t` is the station after something happened at the time `now`, and `called_for` is
/// what that calls for.
pub open spec fn happens<F: Fn(u32) -> String, N: Fn(&[u8; 16]) -> Option<Ident>>(
    real_text: F,
    wire_name: N,
    s: Station,
    now: Instant,
    message: Message,
    t: Station,
    called_for: Seq<Act>,
) -> bool {
    match message {
        Message::Connection(m) => connection_happens(wire_name, s, now, m, t, called_for),
        Message::Parameter(m) => updates(real_text, s, m, t, called_for),
        _ => (t, called_for) == after_other(s, message),
    }
}

impl Application {
    /// Flies the primary vehicle round a place.
    pub fn commmand_fly_primary_vehicle_to(&self, position: Geodetic, radius: u32) -> (r: Vec<
        Action,
    >)
        ensures
            acts(r@) == fly_acts(self@, position, radius),
    {
        match self.primary_vehicle {
            Some(mav_id) => {
                if self.connected {
                    one_action(Action::Send(fly_to(mav_id, position, radius)))
                } else {
                    no_actions()
                }
            },
            None => no_actions(),
        }
    }

    /// Takes over what happened at the time `time_now`. Singles are written by
    /// `real_text`, names of parameters are made by `wire_name`.
    pub fn maybe_update<F: Fn(u32) -> String, N: Fn(&[u8; 16]) -> Option<Ident>>(
        &mut self,
        time_now: Instant,
        message: Message,
        real_text: &F,
        wire_name: &N,
    ) -> (r: Vec<Action>)
        requires
            old(self).wf(),
            message matches Message::Connection(m) ==> frame_fits(m),
            forall|bits: u32| call_requires(*real_text, (bits,)),
            forall|name: &[u8; 16]| call_requires(*wire_name, (name,)),
        ensures
            final(self).wf(),
            happens(
                *real_text,
                *wire_name,
                old(self)@,
                time_now,
                message,
                final(self)@,
                acts(r@),
            ),
    {
        match message {
            Message::SaveConfigurationToFile => one_action(Action::WriteConfiguration),
            Message::UpdateAndSaveConfiguration(configuration) => {
                self.configuration = configuration;
                one_action(Action::WriteConfiguration)
            },
            Message::MapMoved => {
                self.follow_primary_vehicle = false;
                no_actions()
            },
            Message::Parameter(message) => self.parameter_message_update(message, real_text),
            Message::Connection(message) => {
                self.connection_message_update(time_now, message, wire_name)
            },
            Message::SetPrimaryVehicle(mav_id) => {
                self.primary_vehicle = Some(mav_id);
                no_actions()
            },
            Message::SetFollowPrimaryVehicle(follow) => {
                self.follow_primary_vehicle = follow;
                no_actions()
            },
            Message::FlyToPositionStart(position) => {
                self.fly_to_position = FlyToPositionState {
                    start: Some(position),
                    end: None,
                    radius: None,
                    altitude: None,
                };
                no_actions()
            },
            Message::FlyToPositionInProgress(position) => {
                self.fly_to_position.end = Some(position);
                no_actions()
            },
            Message::FlyToPositionFinalize(position, radius) => {
                match self.fly_to_position.start {
                    Some(start) => {
                        self.fly_to_position.end = Some(position);
                        self.fly_to_position.radius = Some(radius);
                        self.commmand_fly_primary_vehicle_to(start, radius)
                    },
                    None => no_actions(),
                }
            },
        }
    }
}

// ---------------------------------------------------------------------------
// Laws
// ---------------------------------------------------------------------------

/// A message of one vehicle tells nothing of another.
pub proof fn law_frame_leaves_others(
    s: Station,
    now: Instant,
    mav_id: MavlinkId,
    message: WireMessage,
    link_id: LinkId,
    other: MavlinkId,
)
    requires
        consistent(s),
        other != mav_id,
    ensures
        vehicle_of(after_frame(s, now, mav_id, message, link_id), other) == vehicle_of(s, other),
{
    law_with_entry(s.vehicles, mav_id, heard(s, now, mav_id, message, link_id));
    lemma_mavlink_rank(other, mav_id);
}

/// After a message its vehicle is known, and the first vehicle that is heard is the
/// primary one, whatever is heard later.
pub proof fn law_first_vehicle_is_primary(
    s: Station,
    now: Instant,
    mav_id: MavlinkId,
    message: WireMessage,
    link_id: LinkId,
)
    requires
        consistent(s),
    ensures
        ({
            let t = after_frame(s, now, mav_id, message, link_id);
            &&& vehicle_of(t, mav_id) == Some(heard(s, now, mav_id, message, link_id))
            &&& t.primary_vehicle == if s.vehicles.len() == 0 {
                Some(mav_id)
            } else {
                s.primary_vehicle
            }
            &&& t.vehicles.len() > 0
        }),
{
    law_with_entry(s.vehicles, mav_id, heard(s, now, mav_id, message, link_id));
    lemma_position_of(ranks(s.vehicles), mav_id.rank());
    lemma_slot_bounds(s.vehicles, mav_id.rank());
}

/// A link that can be opened, once typed in, is the link of the next run.
pub proof fn law_link_is_kept(s: Station, builder: Builder)
    requires
        built(builder) is Some,
    ensures
        ({
            let t = with_builder(s, builder);
            &&& booted(t.configuration).build == built(builder)
            &&& booted(t.configuration).build == t.build
            &&& variant_of(booted(t.configuration).builder) == variant_of(builder)
        }),
{
    law_builds_what_was_built(built(builder)->0);
}

/// An act that something goes out for.
pub open spec fn speaks(act: Act) -> bool {
    act is Send || act is Talk || act is StartHeartbeat
}

/// While no connection stands, nothing is sent, whatever happens, until one is made.
pub proof fn law_silent_without_connection<
    F: Fn(u32) -> String,
    N: Fn(&[u8; 16]) -> Option<Ident>,
>(
    real_text: F,
    wire_name: N,
    s: Station,
    now: Instant,
    message: Message,
    t: Station,
    called_for: Seq<Act>,
)
    requires
        happens(real_text, wire_name, s, now, message, t, called_for),
        !s.connected,
        !(message matches Message::Connection(ConnectionMessage::ConnectSuccess)),
    ensures
        forall|i: int| 0 <= i < called_for.len() ==> !speaks(#[trigger] called_for[i]),
        !t.connected,
{
}

/// No vehicle that was heard is forgotten, whatever happens.
pub proof fn law_vehicles_stay_known<
    F: Fn(u32) -> String,
    N: Fn(&[u8; 16]) -> Option<Ident>,
>(
    real_text: F,
    wire_name: N,
    s: Station,
    now: Instant,
    message: Message,
    t: Station,
    called_for: Seq<Act>,
    mav_id: MavlinkId,
)
    requires
        consistent(s),
        happens(real_text, wire_name, s, now, message, t, called_for),
        vehicle_of(s, mav_id) is Some,
    ensures
        vehicle_of(t, mav_id) is Some,
{
    assert forall|other: MavlinkId, v: VehicleState| vehicle_of(
        #[trigger] with_vehicle(s, other, v),
        mav_id,
    ) is Some by {
        law_with_entry(s.vehicles, other, v);
        lemma_mavlink_rank(other, mav_id);
    }
    match message {
        Message::Connection(ConnectionMessage::RecvFrame(frame, link_id)) => {
            let told = choose|told: Option<Telemetry>| #[trigger]
                frame_holds(wire_name, frame, told) && (t, called_for) == after_received(
                    s,
                    now,
                    frame,
                    told,
                    link_id,
                );
            match told {
                Some(content) => {
                    let message = WireMessage { payload: frame.payload, content };
                    law_with_entry(
                        s.vehicles,
                        frame.sender,
                        heard(s, now, frame.sender, message, link_id),
                    );
                    lemma_mavlink_rank(frame.sender, mav_id);
                },
                None => {},
            }
        },
        _ => {},
    }
}

/// A frame without a message in it changes nothing and calls for nothing.
pub proof fn law_frames_without_message_change_nothing<N: Fn(&[u8; 16]) -> Option<Ident>>(
    wire_name: N,
    s: Station,
    now: Instant,
    frame: RawFrame,
    link_id: LinkId,
    t: Station,
    called_for: Seq<Act>,
)
    requires
        connection_happens(
            wire_name,
            s,
            now,
            ConnectionMessage::RecvFrame(frame, link_id),
            t,
            called_for,
        ),
        frame_holds(wire_name, frame, None),
    ensures
        t == s,
        called_for == Seq::<Act>::empty(),
{
}

} // verus!
