//! What the station shows, and what the user can do with it.

use crate::application::{
    after_other, lemma_fleet, maybe_config, parameters_of, vehicle_of, Application,
    ConnectionMessage, Message, ParameterMessage, Station,
};
use crate::command::Geodetic;
use crate::ident::{Ident, MavlinkId};
use crate::link::{
    copied, maybe_text, texts, variant_of, with_address_text, with_baud_rate, with_port_text,
    Builder, LinkBuilder, LinkConfig, LinkVariant,
};
use crate::parameter_file::section_of;
use crate::parameters::{ParamState, Parameter, ParameterSet, Parameters};
use crate::telemetry::MavSeverity;
use crate::text::{push_text, same_text, split_once};
use crate::value::{name_of_type, value_as_string, value_type_name, writes_value, Value};
use crate::vehicle::{
    shown_name, Attitude, BatteryState, GlobalPosition, Status, Vehicle, VehicleState,
};
use vstd::prelude::*;

verus! {

// ---------------------------------------------------------------------------
// The list of parameters
// ---------------------------------------------------------------------------

/// How the field of a parameter is marked.
#[derive(Debug, Clone, Copy, PartialEq, Eq, Structural)]
pub enum FieldMark {
    Plain,
    Changed,
    Uploading,
}

/// A parameter in the list.
#[derive(Debug)]
pub struct ParamRow {
    /// The vehicle whose parameter it is.
    pub mav_id: MavlinkId,
    pub ident: Ident,
    /// The name of its type.
    pub kind: &'static str,
    /// The text in its field.
    pub text: String,
    pub mark: FieldMark,
    /// Whether what was typed in can be dropped.
    pub restore: bool,
    /// The value that can be uploaded.
    pub upload: Option<Value>,
}

/// What the button to drop what was typed in calls for, where it can be pressed.
pub open spec fn restore_call(row: ParamRow) -> Option<ParameterMessage> {
    if row.restore {
        Some(ParameterMessage::ValueReset(row.mav_id, row.ident))
    } else {
        None
    }
}

/// What the button to upload a parameter calls for, where it can be pressed.
pub open spec fn upload_call(row: ParamRow) -> Option<ParameterMessage> {
    match row.upload {
        Some(value) => Some(ParameterMessage::ValueUpload(row.mav_id, row.ident, value)),
        None => None,
    }
}

impl ParamRow {
    /// What the button to drop what was typed in calls for, where it can be pressed.
    pub fn restore_message(&self) -> (r: Option<ParameterMessage>)
        ensures
            r == restore_call(*self),
    {
        if self.restore {
            Some(ParameterMessage::ValueReset(self.mav_id, self.ident.clone()))
        } else {
            None
        }
    }

    /// What the button to upload the parameter calls for, where it can be pressed.
    pub fn upload_message(&self) -> (r: Option<ParameterMessage>)
        ensures
            r == upload_call(*self),
    {
        match self.upload {
            Some(value) => Some(
                ParameterMessage::ValueUpload(self.mav_id, self.ident.clone(), value),
            ),
            None => None,
        }
    }

    /// What a text that is typed in calls for. `number` is how it reads as a single.
    pub fn edit_message(&self, text: String, number: Option<u32>) -> (r: ParameterMessage)
        ensures
            r == ParameterMessage::BufferEdit(self.mav_id, self.ident, text, number),
    {
        ParameterMessage::BufferEdit(self.mav_id, self.ident.clone(), text, number)
    }
}

/// A line in the list of parameters.
#[derive(Debug)]
pub enum ParamLine {
    /// A rule between two sections.
    Rule,
    /// The name of a section.
    Header(String),
    Row(ParamRow),
}

/// A line in the list of parameters, a parameter by its index.
pub ghost enum Line {
    Rule,
    Header(Seq<char>),
    Row(int),
}

pub open spec fn mark_of(state: ParamState) -> FieldMark {
    match state {
        ParamState::Unchanged => FieldMark::Plain,
        ParamState::Changed(_) => FieldMark::Changed,
        ParamState::Uploading(_, _) => FieldMark::Uploading,
    }
}

/// The value that a parameter is changed to.
pub open spec fn changed_to(state: ParamState) -> Option<Value> {
    match state {
        ParamState::Changed(value) => Some(value),
        _ => None,
    }
}

/// `row` shows a parameter of a vehicle: by the text that was typed in for it, or else by its value.
pub open spec fn shows<F: Fn(u32) -> String>(
    real_text: F,
    mav_id: MavlinkId,
    entry: (Ident, Parameter),
    row: ParamRow,
) -> bool {
    &&& row.mav_id == mav_id
    &&& row.ident == entry.0
    &&& row.kind@ == name_of_type(entry.1.value)
    &&& row.mark == mark_of(entry.1.state)
    &&& row.restore == (entry.1.state is Changed)
    &&& row.upload == changed_to(entry.1.state)
    &&& match entry.1.editing {
        Some(buffer) => row.text == buffer,
        None => writes_value(real_text, entry.1.value, row.text),
    }
}

/// What stands between the parameters of two sections: a rule below a section, and the
/// name of a section above it.
pub open spec fn section_break(former: Option<Seq<char>>, section: Option<Seq<char>>) -> Seq<Line> {
    let rule = if former is Some {
        seq![Line::Rule]
    } else {
        Seq::empty()
    };
    let header = match section {
        Some(name) => seq![Line::Header(seq!['['] + name + seq![']'])],
        None => Seq::empty(),
    };
    if section == former {
        Seq::empty()
    } else {
        rule + header
    }
}

/// The section of the last of some parameters.
pub open spec fn last_section(entries: Seq<(Ident, Parameter)>, sep: char) -> Option<Seq<char>> {
    if entries.len() == 0 {
        None
    } else {
        section_of(entries.last().0@, sep)
    }
}

/// The lines of some parameters, whose names have `sep` behind their sections.
pub open spec fn list_of(entries: Seq<(Ident, Parameter)>, sep: char) -> Seq<Line>
    decreases entries.len(),
{
    if entries.len() == 0 {
        Seq::empty()
    } else {
        let rest = entries.drop_last();
        (list_of(rest, sep) + section_break(last_section(rest, sep), last_section(entries, sep)))
            .push(Line::Row(entries.len() - 1))
    }
}

/// `line` shows a line of the list.
pub open spec fn shows_line<F: Fn(u32) -> String>(
    real_text: F,
    mav_id: MavlinkId,
    entries: Seq<(Ident, Parameter)>,
    model: Line,
    line: ParamLine,
) -> bool {
    match model {
        Line::Rule => line is Rule,
        Line::Header(name) => line matches ParamLine::Header(text) && text@ == name,
        Line::Row(i) => line matches ParamLine::Row(row) && 0 <= i < entries.len() && shows(
            real_text,
            mav_id,
            entries[i],
            row,
        ),
    }
}

/// `all` shows the lines of the list.
pub open spec fn shows_list<F: Fn(u32) -> String>(
    real_text: F,
    mav_id: MavlinkId,
    entries: Seq<(Ident, Parameter)>,
    model: Seq<Line>,
    all: Seq<ParamLine>,
) -> bool {
    &&& all.len() == model.len()
    &&& forall|k: int|
        0 <= k < all.len() ==> shows_line(real_text, mav_id, entries, model[k], #[trigger] all[k])
}

/// The parameters that are listed: the filtered ones, or all of the primary vehicle.
pub open spec fn listed(s: Station) -> Option<ParameterSet> {
    match s.primary_vehicle {
        Some(mav_id) => match vehicle_of(s, mav_id) {
            Some(v) => match s.parameter_filtered {
                Some(filtered) => Some(filtered),
                None => Some(parameters_of(v)),
            },
            None => None,
        },
        None => None,
    }
}

fn row_of<F: Fn(u32) -> String>(
    mav_id: MavlinkId,
    ident: &Ident,
    parameter: &Parameter,
    real_text: &F,
) -> (r: ParamRow)
    requires
        forall|bits: u32| call_requires(*real_text, (bits,)),
    ensures
        shows(*real_text, mav_id, (*ident, *parameter), r),
{
    let text = match &parameter.editing {
        Some(buffer) => buffer.clone(),
        None => value_as_string(parameter.value, real_text),
    };
    let (mark, restore, upload) = match parameter.state {
        ParamState::Unchanged => (FieldMark::Plain, false, None),
        ParamState::Changed(value) => (FieldMark::Changed, true, Some(value)),
        ParamState::Uploading(_, _) => (FieldMark::Uploading, false, None),
    };
    ParamRow {
        mav_id,
        ident: ident.clone(),
        kind: value_type_name(parameter.value),
        text,
        mark,
        restore,
        upload,
    }
}

fn section_text(ident: &Ident, sep: char) -> (r: Option<String>)
    ensures
        maybe_text(r) == section_of(ident@, sep),
{
    match split_once(ident.as_str(), sep) {
        Some((section, _)) => Some(section),
        None => None,
    }
}

fn same_section(a: &Option<String>, b: &Option<String>) -> (r: bool)
    ensures
        r == (maybe_text(*a) == maybe_text(*b)),
{
    match (a, b) {
        (Some(x), Some(y)) => same_text(x.as_str(), y.as_str()),
        (None, None) => true,
        _ => false,
    }
}

proof fn lemma_shows_push<F: Fn(u32) -> String>(
    real_text: F,
    mav_id: MavlinkId,
    entries: Seq<(Ident, Parameter)>,
    model: Seq<Line>,
    all: Seq<ParamLine>,
    line: Line,
    shown: ParamLine,
)
    requires
        shows_list(real_text, mav_id, entries, model, all),
        shows_line(real_text, mav_id, entries, line, shown),
    ensures
        shows_list(real_text, mav_id, entries, model.push(line), all.push(shown)),
{
    let after = all.push(shown);
    assert forall|k: int| 0 <= k < after.len() implies shows_line(
        real_text,
        mav_id,
        entries,
        model.push(line)[k],
        #[trigger] after[k],
    ) by {
        if k < all.len() {
            assert(after[k] == all[k]);
        }
    }
}

/// Lists parameters of a vehicle, under the names of their sections. Singles are written
/// by `real_text`.
pub fn list_parameters<F: Fn(u32) -> String>(
    mav_id: MavlinkId,
    parameters: &Parameters,
    sep: char,
    real_text: &F,
) -> (r: Vec<ParamLine>)
    requires
        forall|bits: u32| call_requires(*real_text, (bits,)),
    ensures
        shows_list(
            *real_text,
            mav_id,
            parameters@.entries,
            list_of(parameters@.entries, sep),
            r@,
        ),
{
    let mut r: Vec<ParamLine> = Vec::new();
    let mut section: Option<String> = None;
    let ghost entries = parameters@.entries;
    let ghost mut model: Seq<Line> = Seq::empty();
    let mut i: usize = 0;
    assert(entries.take(0) =~= Seq::empty());
    while i < parameters.map.entries.len()
        invariant
            i <= entries.len(),
            entries == parameters.map.entries@,
            forall|bits: u32| call_requires(*real_text, (bits,)),
            maybe_text(section) == last_section(entries.take(i as int), sep),
            model == list_of(entries.take(i as int), sep),
            shows_list(*real_text, mav_id, entries, model, r@),
        decreases entries.len() - i,
    {
        let entry = &parameters.map.entries[i];
        let ghost now = entries.take(i as int + 1);
        let ghost former = model;
        assert(now.drop_last() =~= entries.take(i as int));
        let this_section = section_text(&entry.0, sep);
        let ghost between = section_break(maybe_text(section), maybe_text(this_section));
        assert(model + Seq::<Line>::empty() =~= model);
        if !same_section(&this_section, &section) {
            if section.is_some() {
                proof {
                    lemma_shows_push(
                        *real_text,
                        mav_id,
                        entries,
                        model,
                        r@,
                        Line::Rule,
                        ParamLine::Rule,
                    );
                    model = model.push(Line::Rule);
                }
                r.push(ParamLine::Rule);
            }
            match &this_section {
                Some(name) => {
                    let mut text = String::new();
                    text.push('[');
                    push_text(&mut text, name.as_str());
                    text.push(']');
                    let ghost shown = Line::Header(seq!['['] + name@ + seq![']']);
                    assert(text@ =~= seq!['['] + name@ + seq![']']);
                    let line = ParamLine::Header(text);
                    proof {
                        lemma_shows_push(*real_text, mav_id, entries, model, r@, shown, line);
                        model = model.push(shown);
                    }
                    r.push(line);
                },
                None => {},
            }
            section = this_section;
        }
        assert(model =~= former + between);
        let line = ParamLine::Row(row_of(mav_id, &entry.0, &entry.1, real_text));
        proof {
            lemma_shows_push(*real_text, mav_id, entries, model, r@, Line::Row(i as int), line);
            model = model.push(Line::Row(i as int));
        }
        r.push(line);
        i += 1;
    }
    assert(entries.take(entries.len() as int) =~= entries);
    r
}

impl Application {
    /// The list of parameters of the primary vehicle; `None` where it is not known.
    /// Singles are written by `real_text`.
    pub fn view_param_list<F: Fn(u32) -> String>(&self, real_text: &F) -> (r: Option<Vec<ParamLine>>)
        requires
            forall|bits: u32| call_requires(*real_text, (bits,)),
        ensures
            match r {
                Some(all) => {
                    &&& self@.primary_vehicle matches Some(mav_id)
                    &&& listed(self@) matches Some(p)
                    &&& shows_list(
                        *real_text,
                        mav_id,
                        p.entries,
                        list_of(p.entries, self@.parameter_namespace_sep),
                        all@,
                    )
                },
                None => listed(self@) is None,
            },
    {
        match self.primary_vehicle {
            Some(mav_id) => {
                proof {
                    lemma_fleet(self.vehicles.entries@, mav_id);
                }
                match self.vehicles.get(&mav_id) {
                    Some(vehicle) => {
                        let parameters = match &self.parameter_filtered {
                            Some(filtered) => filtered,
                            None => &vehicle.parameters,
                        };
                        let sep = self.parameter_namespace_sep;
                        Some(list_parameters(mav_id, parameters, sep, real_text))
                    },
                    None => None,
                }
            },
            None => None,
        }
    }
}

// ---------------------------------------------------------------------------
// The panel of parameters
// ---------------------------------------------------------------------------

/// The panel above the list of parameters: whose they are, and how many have come in.
#[derive(Debug, Clone, Copy, PartialEq, Eq, Structural)]
pub struct ParameterPanel {
    pub mav_id: MavlinkId,
    pub got: usize,
    pub expected: u16,
    /// Whether all have come in that the vehicle announced.
    pub complete: bool,
}

/// What the user asks for in the panel of parameters.
#[derive(Debug)]
pub enum ParameterRequest {
    Reload,
    Upload,
    Save,
    Load,
    /// A filter was typed in.
    Filter(String),
}

/// `message` is what a request calls for. All parameters of the vehicle are saved,
/// filtered or not.
pub open spec fn calls_for(
    mav_id: MavlinkId,
    v: VehicleState,
    request: ParameterRequest,
    message: ParameterMessage,
) -> bool {
    match request {
        ParameterRequest::Reload => message == ParameterMessage::ListReload(mav_id),
        ParameterRequest::Upload => message == ParameterMessage::UploadAll(mav_id),
        ParameterRequest::Save => message matches ParameterMessage::SaveDialog(p) && p@
            == parameters_of(v),
        ParameterRequest::Load => message == ParameterMessage::LoadDialog(mav_id),
        ParameterRequest::Filter(text) => message == ParameterMessage::FilterBuf(text),
    }
}

impl Application {
    /// The panel of parameters; `None` where the primary vehicle is not known.
    pub fn view_parameter_panel(&self) -> (r: Option<ParameterPanel>)
        ensures
            match r {
                Some(panel) => {
                    &&& self@.primary_vehicle == Some(panel.mav_id)
                    &&& vehicle_of(self@, panel.mav_id) matches Some(v) && {
                        &&& panel.got == v.has_loaded.len()
                        &&& panel.expected == v.expected_count
                        &&& panel.complete == (v.has_loaded.len() >= v.expected_count)
                    }
                },
                None => listed(self@) is None,
            },
    {
        broadcast use vstd::std_specs::hash::group_hash_axioms;

        match self.primary_vehicle {
            Some(mav_id) => {
                proof {
                    lemma_fleet(self.vehicles.entries@, mav_id);
                }
                match self.vehicles.get(&mav_id) {
                    Some(vehicle) => {
                        let got = vehicle.parameters.loading_state.has_loaded.len();
                        let expected = vehicle.parameters.loading_state.expected_count;
                        let complete = got >= expected as usize;
                        Some(ParameterPanel { mav_id, got, expected, complete })
                    },
                    None => None,
                }
            },
            None => None,
        }
    }

    /// What the user calls for in the panel of parameters; nothing where the primary
    /// vehicle is not known.
    pub fn parameter_panel_message(&self, request: ParameterRequest) -> (r: Option<
        ParameterMessage,
    >)
        ensures
            match (self@.primary_vehicle, primary_of(self@)) {
                (Some(mav_id), Some(v)) => r matches Some(message) && calls_for(
                    mav_id,
                    v,
                    request,
                    message,
                ),
                _ => r is None,
            },
    {
        match self.primary_vehicle {
            Some(mav_id) => {
                proof {
                    lemma_fleet(self.vehicles.entries@, mav_id);
                }
                match self.vehicles.get(&mav_id) {
                    Some(vehicle) => Some(
                        match request {
                            ParameterRequest::Reload => ParameterMessage::ListReload(mav_id),
                            ParameterRequest::Upload => ParameterMessage::UploadAll(mav_id),
                            ParameterRequest::Save => ParameterMessage::SaveDialog(
                                vehicle.parameters.clone(),
                            ),
                            ParameterRequest::Load => ParameterMessage::LoadDialog(mav_id),
                            ParameterRequest::Filter(text) => ParameterMessage::FilterBuf(text),
                        },
                    ),
                    None => None,
                }
            },
            None => None,
        }
    }
}

// ---------------------------------------------------------------------------
// The panel of the link
// ---------------------------------------------------------------------------

/// What stands in the place of a serial port that is not chosen.
pub open spec fn port_placeholder(ports: Seq<Seq<char>>) -> Seq<char> {
    if ports.len() == 0 {
        "No connection"@
    } else {
        "Select a port"@
    }
}

/// The fields that a link is typed in by.
#[derive(Debug)]
#[allow(inconsistent_fields)]
pub enum LinkFields {
    Network { addr: String, port: String },
    Serial { port: Option<String>, ports: Vec<String>, placeholder: &'static str, baud: u32 },
}

/// `fields` shows a link.
pub open spec fn shows_link(builder: Builder, fields: LinkFields) -> bool {
    match builder {
        Builder::Tcp { addr, port } => fields matches LinkFields::Network { addr: a, port: p } && a@
            == addr && p@ == port,
        Builder::Udp { addr, port } => fields matches LinkFields::Network { addr: a, port: p } && a@
            == addr && p@ == port,
        Builder::Serial { port, baud, available_ports } => fields matches LinkFields::Serial {
            port: p,
            ports,
            placeholder,
            baud: b,
        } && maybe_text(p) == port && texts(ports@) == available_ports && placeholder@
            == port_placeholder(available_ports) && b == baud,
    }
}

/// The button that connects or disconnects.
#[derive(Debug)]
pub enum LinkButton {
    /// Open the link; not to be pressed where it cannot be built.
    Connect(Option<LinkConfig>),
    Disconnect,
}

/// The panel of the link.
#[derive(Debug)]
pub struct TopPanel {
    pub variant: LinkVariant,
    pub fields: LinkFields,
    pub follow: bool,
    /// The vehicles to choose the primary one from, by their names; none where there is
    /// no choice.
    pub vehicles: Vec<(MavlinkId, String)>,
    pub primary: Option<MavlinkId>,
    pub button: LinkButton,
}

/// `names` shows vehicles.
pub open spec fn shows_vehicles(
    vehicles: Seq<(MavlinkId, VehicleState)>,
    names: Seq<(MavlinkId, String)>,
) -> bool {
    &&& names.len() == vehicles.len()
    &&& forall|i: int|
        0 <= i < names.len() ==> (#[trigger] names[i]).0 == vehicles[i].0 && names[i].1@
            == shown_name(vehicles[i].1)
}

impl Application {
    fn link_fields(&self) -> (r: LinkFields)
        ensures
            shows_link(self@.builder, r),
    {
        match &self.builder {
            LinkBuilder::Tcp { addr, port } => LinkFields::Network {
                addr: addr.clone(),
                port: port.clone(),
            },
            LinkBuilder::Udp { addr, port } => LinkFields::Network {
                addr: addr.clone(),
                port: port.clone(),
            },
            LinkBuilder::Serial { port, baud, available_ports } => {
                let placeholder = if available_ports.len() == 0 {
                    "No connection"
                } else {
                    "Select a port"
                };
                let port = match port {
                    Some(name) => Some(name.clone()),
                    None => None,
                };
                LinkFields::Serial { port, ports: copied(available_ports), placeholder, baud: *baud }
            },
        }
    }

    fn vehicle_names(&self) -> (r: Vec<(MavlinkId, String)>)
        ensures
            shows_vehicles(self@.vehicles, r@),
    {
        let mut r: Vec<(MavlinkId, String)> = Vec::new();
        let mut i: usize = 0;
        while i < self.vehicles.entries.len()
            invariant
                i <= self.vehicles.entries@.len(),
                r@.len() == i,
                forall|k: int|
                    0 <= k < i ==> (#[trigger] r@[k]).0 == self@.vehicles[k].0 && r@[k].1@
                        == shown_name(self@.vehicles[k].1),
            decreases self.vehicles.entries@.len() - i,
        {
            let entry = &self.vehicles.entries[i];
            r.push((entry.0, entry.1.pretty_name()));
            i += 1;
        }
        r
    }

    /// The panel of the link.
    pub fn view_top_panel(&self) -> (r: TopPanel)
        ensures
            r.variant == variant_of(self@.builder),
            shows_link(self@.builder, r.fields),
            r.follow == self@.follow_primary_vehicle,
            self@.vehicles.len() > 1 ==> shows_vehicles(self@.vehicles, r.vehicles@),
            self@.vehicles.len() <= 1 ==> r.vehicles@.len() == 0,
            r.primary == self@.primary_vehicle,
            match r.button {
                LinkButton::Connect(config) => !self@.connected && maybe_config(config)
                    == self@.build,
                LinkButton::Disconnect => self@.connected,
            },
    {
        let vehicles = if self.vehicles.len() > 1 {
            self.vehicle_names()
        } else {
            Vec::new()
        };
        let button = if self.connected {
            LinkButton::Disconnect
        } else {
            match &self.build {
                Some(config) => LinkButton::Connect(Some(config.clone())),
                None => LinkButton::Connect(None),
            }
        };
        TopPanel {
            variant: self.builder.to_variant(),
            fields: self.link_fields(),
            follow: self.follow_primary_vehicle,
            vehicles,
            primary: self.primary_vehicle,
            button,
        }
    }
}

/// What the user does in the panel of the link.
#[derive(Debug)]
pub enum LinkRequest {
    /// Another kind of link was chosen.
    Variant(LinkVariant),
    /// An address was typed in.
    Address(String),
    /// A port was typed in or chosen.
    Port(String),
    /// A baud rate was chosen.
    Baud(u32),
    /// The choice of serial ports or baud rates was opened.
    Opened,
    /// Following the primary vehicle was switched on or off.
    Follow(bool),
    /// Another vehicle was chosen.
    Primary(MavlinkId),
    /// The button was pressed.
    Press,
}

/// `message` is what a request calls for; nothing where the button cannot be pressed.
pub open spec fn link_calls_for(s: Station, request: LinkRequest, message: Option<Message>) -> bool {
    match request {
        LinkRequest::Variant(variant) => message == Some(
            Message::Connection(ConnectionMessage::ChangeLinkVariant(variant)),
        ),
        LinkRequest::Address(addr) => message matches Some(
            Message::Connection(ConnectionMessage::UpdateLinkBuilder(builder)),
        ) && builder@ == with_address_text(s.builder, addr@),
        LinkRequest::Port(port) => message matches Some(
            Message::Connection(ConnectionMessage::UpdateLinkBuilder(builder)),
        ) && builder@ == with_port_text(s.builder, port@),
        LinkRequest::Baud(baud) => message matches Some(
            Message::Connection(ConnectionMessage::UpdateLinkBuilder(builder)),
        ) && builder@ == with_baud_rate(s.builder, baud),
        LinkRequest::Opened => message == Some(
            Message::Connection(ConnectionMessage::DetectSerialPorts),
        ),
        LinkRequest::Follow(follow) => message == Some(Message::SetFollowPrimaryVehicle(follow)),
        LinkRequest::Primary(mav_id) => message == Some(Message::SetPrimaryVehicle(mav_id)),
        LinkRequest::Press => if s.connected {
            message == Some(Message::Connection(ConnectionMessage::DisconnectLink))
        } else {
            match s.build {
                Some(config) => message matches Some(
                    Message::Connection(ConnectionMessage::ConnectToLink(c)),
                ) && c@ == config,
                None => message is None,
            }
        },
    }
}

impl Application {
    /// What the user calls for in the panel of the link.
    pub fn top_panel_message(&self, request: LinkRequest) -> (r: Option<Message>)
        ensures
            link_calls_for(self@, request, r),
    {
        let message = match request {
            LinkRequest::Follow(follow) => return Some(Message::SetFollowPrimaryVehicle(follow)),
            LinkRequest::Primary(mav_id) => return Some(Message::SetPrimaryVehicle(mav_id)),
            LinkRequest::Variant(variant) => ConnectionMessage::ChangeLinkVariant(variant),
            LinkRequest::Address(addr) => ConnectionMessage::UpdateLinkBuilder(
                self.builder.with_addr(addr),
            ),
            LinkRequest::Port(port) => ConnectionMessage::UpdateLinkBuilder(
                self.builder.with_port(port),
            ),
            LinkRequest::Baud(baud) => ConnectionMessage::UpdateLinkBuilder(
                self.builder.with_baud(baud),
            ),
            LinkRequest::Opened => ConnectionMessage::DetectSerialPorts,
            LinkRequest::Press => {
                if self.connected {
                    ConnectionMessage::DisconnectLink
                } else {
                    match &self.build {
                        Some(config) => ConnectionMessage::ConnectToLink(config.clone()),
                        None => return None,
                    }
                }
            },
        };
        Some(Message::Connection(message))
    }
}

// ---------------------------------------------------------------------------
// The panel of the primary vehicle
// ---------------------------------------------------------------------------

/// The colours that status texts are told apart by.
#[derive(Debug, Clone, Copy, PartialEq, Eq, Structural)]
pub enum StatusColor {
    Danger,
    Warning,
    Primary,
    Secondary,
}

/// The colour of a severity.
pub open spec fn color_of(severity: MavSeverity) -> StatusColor {
    match severity {
        MavSeverity::Emergency => StatusColor::Danger,
        MavSeverity::Alert => StatusColor::Danger,
        MavSeverity::Critical => StatusColor::Danger,
        MavSeverity::Error => StatusColor::Danger,
        MavSeverity::Warning => StatusColor::Warning,
        MavSeverity::Notice => StatusColor::Warning,
        MavSeverity::Info => StatusColor::Primary,
        MavSeverity::Debug => StatusColor::Secondary,
    }
}

/// What stands before a status text.
pub open spec fn label_of(severity: MavSeverity) -> Seq<char> {
    match severity {
        MavSeverity::Emergency => "[Emergency]"@,
        MavSeverity::Alert => "[Alert]"@,
        MavSeverity::Critical => "[Critical]"@,
        MavSeverity::Error => "[Error]"@,
        MavSeverity::Warning => "[Warning]"@,
        MavSeverity::Notice => "[Notice]"@,
        MavSeverity::Info => "[Info]"@,
        MavSeverity::Debug => "[Debug]"@,
    }
}

/// A status text in the list.
#[derive(Debug)]
pub struct StatusLine {
    pub label: &'static str,
    pub color: StatusColor,
    pub text: String,
    /// Every other line is brighter.
    pub brighter: bool,
}

/// `all` shows status texts.
pub open spec fn shows_statuses(statuses: Seq<Status>, all: Seq<StatusLine>) -> bool {
    &&& all.len() == statuses.len()
    &&& forall|i: int|
        0 <= i < all.len() ==> {
            &&& (#[trigger] all[i]).label@ == label_of(statuses[i].severity)
            &&& all[i].color == color_of(statuses[i].severity)
            &&& all[i].text@ == statuses[i].text
            &&& all[i].brighter == (i % 2 == 1)
        }
}

/// The panel of the primary vehicle.
#[derive(Debug)]
pub struct SidePanel {
    /// The attitude and the battery, where they are known.
    pub attitude: Option<Attitude>,
    pub battery: Option<BatteryState>,
    /// The status texts; `None` where the vehicle is not known.
    pub statuses: Option<Vec<StatusLine>>,
}

/// What is known of the primary vehicle.
pub open spec fn primary_of(s: Station) -> Option<VehicleState> {
    match s.primary_vehicle {
        Some(mav_id) => vehicle_of(s, mav_id),
        None => None,
    }
}

fn status_label(severity: MavSeverity) -> (r: (&'static str, StatusColor))
    ensures
        r.0@ == label_of(severity),
        r.1 == color_of(severity),
{
    match severity {
        MavSeverity::Emergency => ("[Emergency]", StatusColor::Danger),
        MavSeverity::Alert => ("[Alert]", StatusColor::Danger),
        MavSeverity::Critical => ("[Critical]", StatusColor::Danger),
        MavSeverity::Error => ("[Error]", StatusColor::Danger),
        MavSeverity::Warning => ("[Warning]", StatusColor::Warning),
        MavSeverity::Notice => ("[Notice]", StatusColor::Warning),
        MavSeverity::Info => ("[Info]", StatusColor::Primary),
        MavSeverity::Debug => ("[Debug]", StatusColor::Secondary),
    }
}

/// Lists the status texts of a vehicle.
pub fn list_statuses(vehicle: &Vehicle) -> (r: Vec<StatusLine>)
    ensures
        shows_statuses(vehicle@.status_texts, r@),
{
    let mut r: Vec<StatusLine> = Vec::new();
    let mut i: usize = 0;
    while i < vehicle.status_texts.len()
        invariant
            i <= vehicle.status_texts@.len(),
            shows_statuses(vehicle@.status_texts.take(i as int), r@),
        decreases vehicle.status_texts@.len() - i,
    {
        let status = &vehicle.status_texts[i];
        let (label, color) = status_label(status.severity);
        let ghost former = r@;
        r.push(StatusLine { label, color, text: status.text.clone(), brighter: i % 2 == 1 });
        proof {
            let now = vehicle@.status_texts.take(i as int + 1);
            let was = vehicle@.status_texts.take(i as int);
            assert forall|k: int| 0 <= k < r@.len() implies {
                &&& (#[trigger] r@[k]).label@ == label_of(now[k].severity)
                &&& r@[k].color == color_of(now[k].severity)
                &&& r@[k].text@ == now[k].text
                &&& r@[k].brighter == (k % 2 == 1)
            } by {
                if k < i {
                    assert(r@[k] == former[k]);
                    assert(now[k] == was[k]);
                }
            }
        }
        i += 1;
    }
    assert(vehicle@.status_texts.take(vehicle.status_texts@.len() as int)
        =~= vehicle@.status_texts);
    r
}

impl Application {
    /// The panel of the primary vehicle.
    pub fn view_right_side_panel(&self) -> (r: SidePanel)
        ensures
            match primary_of(self@) {
                Some(v) => {
                    &&& r.attitude == v.attitude
                    &&& r.battery == v.battery_state
                    &&& r.statuses matches Some(all) && shows_statuses(v.status_texts, all@)
                },
                None => r.attitude is None && r.battery is None && r.statuses is None,
            },
    {
        match self.primary_vehicle {
            Some(mav_id) => {
                proof {
                    lemma_fleet(self.vehicles.entries@, mav_id);
                }
                match self.vehicles.get(&mav_id) {
                    Some(vehicle) => SidePanel {
                        attitude: vehicle.attitude,
                        battery: vehicle.battery_state,
                        statuses: Some(list_statuses(vehicle)),
                    },
                    None => SidePanel { attitude: None, battery: None, statuses: None },
                }
            },
            None => SidePanel { attitude: None, battery: None, statuses: None },
        }
    }
}

// ---------------------------------------------------------------------------
// The map
// ---------------------------------------------------------------------------

/// A vehicle on the map.
#[derive(Debug)]
pub struct Marker {
    pub position: GlobalPosition,
    /// Where it points, where that is known.
    pub attitude: Option<Attitude>,
    /// The pieces of its track, each from one position to the next.
    pub track: Vec<(GlobalPosition, GlobalPosition)>,
    /// The circle that is drawn, by its middle and a place on it.
    pub circle: Option<(Geodetic, Geodetic)>,
}

/// The pieces of a track.
pub open spec fn pieces(track: Seq<GlobalPosition>) -> Seq<(GlobalPosition, GlobalPosition)> {
    if track.len() < 2 {
        Seq::empty()
    } else {
        Seq::new((track.len() - 1) as nat, |i: int| (track[i], track[i + 1]))
    }
}

/// The circle that is drawn, once it has a middle and a place on it.
pub open spec fn circle_of(s: Station) -> Option<(Geodetic, Geodetic)> {
    match (s.fly_to_position.start, s.fly_to_position.end) {
        (Some(start), Some(end)) => Some((start, end)),
        _ => None,
    }
}

/// `marker` shows a vehicle whose position is known.
pub open spec fn marks(s: Station, v: VehicleState, marker: Marker) -> bool {
    &&& v.global_position == Some(marker.position)
    &&& marker.attitude == v.attitude
    &&& marker.track@ == pieces(v.global_positions)
    &&& marker.circle == circle_of(s)
}

/// The vehicles whose positions are known, in their order.
pub open spec fn located(vehicles: Seq<(MavlinkId, VehicleState)>) -> Seq<VehicleState>
    decreases vehicles.len(),
{
    if vehicles.len() == 0 {
        Seq::empty()
    } else if vehicles.last().1.global_position is Some {
        located(vehicles.drop_last()).push(vehicles.last().1)
    } else {
        located(vehicles.drop_last())
    }
}

/// `all` shows the vehicles whose positions are known.
pub open spec fn marks_all(s: Station, known: Seq<VehicleState>, all: Seq<Marker>) -> bool {
    &&& all.len() == known.len()
    &&& forall|i: int| 0 <= i < all.len() ==> marks(s, known[i], #[trigger] all[i])
}

fn track_pieces(vehicle: &Vehicle) -> (r: Vec<(GlobalPosition, GlobalPosition)>)
    ensures
        r@ == pieces(vehicle@.global_positions),
{
    let mut r: Vec<(GlobalPosition, GlobalPosition)> = Vec::new();
    let count = vehicle.global_positions.len();
    let ghost track = vehicle@.global_positions;
    if count < 2 {
        assert(r@ =~= pieces(track));
        return r;
    }
    let mut i: usize = 0;
    while i < count - 1
        invariant
            i < count,
            count == track.len(),
            track == vehicle.global_positions@,
            count >= 2,
            r@ == pieces(track).take(i as int),
        decreases count - i,
    {
        r.push((vehicle.global_positions[i], vehicle.global_positions[i + 1]));
        assert(r@ =~= pieces(track).take(i as int + 1));
        i += 1;
    }
    assert(r@ =~= pieces(track));
    r
}

/// What the pointer does on the map.
#[derive(Debug, Clone, Copy, PartialEq, Eq, Structural)]
pub enum PointerEvent {
    /// It moved.
    Moved,
    /// The right button went down.
    RightPressed,
    /// The right button went up.
    RightReleased,
    Other,
}

/// What becomes of the circle that is drawn, at the place where the pointer is.
#[derive(Debug, Clone, Copy, PartialEq, Eq, Structural)]
pub enum Gesture {
    /// It gets its middle there.
    Start(Geodetic),
    /// It goes through that place.
    Draw(Geodetic),
    /// It is drawn.
    Finish(Geodetic),
}

impl Gesture {
    /// What a gesture calls for. `radius` is that of the circle, a single.
    pub fn message(self, radius: u32) -> (r: Message)
        ensures
            r == match self {
                Gesture::Start(place) => Message::FlyToPositionStart(place),
                Gesture::Draw(place) => Message::FlyToPositionInProgress(place),
                Gesture::Finish(place) => Message::FlyToPositionFinalize(place, radius),
            },
    {
        match self {
            Gesture::Start(place) => Message::FlyToPositionStart(place),
            Gesture::Draw(place) => Message::FlyToPositionInProgress(place),
            Gesture::Finish(place) => Message::FlyToPositionFinalize(place, radius),
        }
    }
}

/// What becomes of the circle when the pointer does something: it is started and
/// finished by the right button, where the pointer is over the map, and drawn by the
/// pointer between.
pub open spec fn gesture(
    s: Station,
    event: PointerEvent,
    over_map: bool,
    place: Geodetic,
) -> Option<Gesture> {
    match event {
        PointerEvent::Moved => if s.fly_to_position.start is Some && s.fly_to_position.radius is None {
            Some(Gesture::Draw(place))
        } else {
            None
        },
        PointerEvent::RightPressed => if over_map {
            Some(Gesture::Start(place))
        } else {
            None
        },
        PointerEvent::RightReleased => if over_map {
            Some(Gesture::Finish(place))
        } else {
            None
        },
        PointerEvent::Other => None,
    }
}

impl Application {
    /// The vehicles on the map.
    pub fn view_osm_map(&self) -> (r: Vec<Marker>)
        ensures
            marks_all(self@, located(self@.vehicles), r@),
    {
        let mut r: Vec<Marker> = Vec::new();
        let circle = match (self.fly_to_position.start, self.fly_to_position.end) {
            (Some(start), Some(end)) => Some((start, end)),
            _ => None,
        };
        let ghost s = self@;
        let mut i: usize = 0;
        assert(s.vehicles.take(0) =~= Seq::empty());
        while i < self.vehicles.entries.len()
            invariant
                i <= self.vehicles.entries@.len(),
                s == self@,
                circle == circle_of(s),
                marks_all(s, located(s.vehicles.take(i as int)), r@),
            decreases self.vehicles.entries@.len() - i,
        {
            let vehicle = &self.vehicles.entries[i].1;
            let ghost known = located(s.vehicles.take(i as int));
            let ghost former = r@;
            assert(s.vehicles.take(i as int + 1).drop_last() =~= s.vehicles.take(i as int));
            assert(s.vehicles.take(i as int + 1).last().1 == vehicle@);
            match vehicle.global_position {
                Some(position) => {
                    r.push(
                        Marker {
                            position,
                            attitude: vehicle.attitude,
                            track: track_pieces(vehicle),
                            circle,
                        },
                    );
                    assert forall|k: int| 0 <= k < r@.len() implies marks(
                        s,
                        known.push(vehicle@)[k],
                        #[trigger] r@[k],
                    ) by {
                        if k < former.len() {
                            assert(r@[k] == former[k]);
                        }
                    }
                },
                None => {},
            }
            i += 1;
        }
        assert(s.vehicles.take(s.vehicles.len() as int) =~= s.vehicles);
        r
    }

    /// What becomes of the circle when the pointer does something at a place. `over_map`
    /// tells whether the pointer is over the map.
    pub fn map_gesture(&self, event: PointerEvent, over_map: bool, place: Geodetic) -> (r: Option<
        Gesture,
    >)
        ensures
            r == gesture(self@, event, over_map, place),
    {
        match event {
            PointerEvent::Moved => {
                if self.fly_to_position.start.is_some() && self.fly_to_position.radius.is_none() {
                    Some(Gesture::Draw(place))
                } else {
                    None
                }
            },
            PointerEvent::RightPressed => {
                if over_map {
                    Some(Gesture::Start(place))
                } else {
                    None
                }
            },
            PointerEvent::RightReleased => {
                if over_map {
                    Some(Gesture::Finish(place))
                } else {
                    None
                }
            },
            PointerEvent::Other => None,
        }
    }
}

// ---------------------------------------------------------------------------
// Laws
// ---------------------------------------------------------------------------

/// Pressing, moving and releasing draw a circle: it is drawn by the pointer once it is
/// started, and no longer once it is finished.
pub proof fn law_circle(s: Station, start: Geodetic, end: Geodetic, radius: u32)
    ensures
        ({
            let (pressed, _) = after_other(s, Message::FlyToPositionStart(start));
            let (moved, _) = after_other(pressed, Message::FlyToPositionInProgress(end));
            let (released, _) = after_other(moved, Message::FlyToPositionFinalize(end, radius));
            &&& gesture(s, PointerEvent::RightPressed, true, start) == Some(Gesture::Start(start))
            &&& gesture(pressed, PointerEvent::Moved, true, end) == Some(Gesture::Draw(end))
            &&& gesture(moved, PointerEvent::Moved, true, end) == Some(Gesture::Draw(end))
            &&& gesture(moved, PointerEvent::RightReleased, true, end) == Some(Gesture::Finish(end))
            &&& gesture(released, PointerEvent::Moved, true, end) is None
            &&& circle_of(pressed) is None
            &&& circle_of(moved) == Some((start, end))
            &&& circle_of(released) == Some((start, end))
        }),
{
}

/// The buttons of a row can be pressed just where its parameter is changed, and then call
/// for that parameter of that vehicle, and for the value that it is changed to.
pub proof fn law_rows_call_for_their_parameter<F: Fn(u32) -> String>(
    real_text: F,
    mav_id: MavlinkId,
    entry: (Ident, Parameter),
    row: ParamRow,
)
    requires
        shows(real_text, mav_id, entry, row),
    ensures
        restore_call(row) == match entry.1.state {
            ParamState::Changed(_) => Some(ParameterMessage::ValueReset(mav_id, entry.0)),
            _ => None,
        },
        upload_call(row) == match entry.1.state {
            ParamState::Changed(value) => Some(
                ParameterMessage::ValueUpload(mav_id, entry.0, value),
            ),
            _ => None,
        },
{
}

/// Each listed parameter has one row, in the order of the parameters.
pub proof fn law_one_row_each(entries: Seq<(Ident, Parameter)>, sep: char)
    ensures
        rows_of(list_of(entries, sep)) == Seq::new(entries.len(), |i: int| i),
    decreases entries.len(),
{
    if entries.len() > 0 {
        let rest = entries.drop_last();
        law_one_row_each(rest, sep);
        let between = section_break(last_section(rest, sep), last_section(entries, sep));
        lemma_rows_append(list_of(rest, sep), between);
        let lines = list_of(rest, sep) + between;
        assert(lines.push(Line::Row(entries.len() - 1)).drop_last() =~= lines);
        assert(rows_of(between) =~= Seq::empty()) by {
            lemma_no_rows(between);
        }
        assert(rows_of(list_of(entries, sep)) =~= Seq::new(entries.len(), |i: int| i));
    } else {
        assert(rows_of(list_of(entries, sep)) =~= Seq::new(entries.len(), |i: int| i));
    }
}

/// The indices of the parameters among some lines.
pub open spec fn rows_of(lines: Seq<Line>) -> Seq<int>
    decreases lines.len(),
{
    if lines.len() == 0 {
        Seq::empty()
    } else {
        match lines.last() {
            Line::Row(i) => rows_of(lines.drop_last()).push(i),
            _ => rows_of(lines.drop_last()),
        }
    }
}

proof fn lemma_rows_append(a: Seq<Line>, b: Seq<Line>)
    ensures
        rows_of(a + b) == rows_of(a) + rows_of(b),
    decreases b.len(),
{
    if b.len() == 0 {
        assert(a + b =~= a);
        assert(rows_of(a) + rows_of(b) =~= rows_of(a));
    } else {
        lemma_rows_append(a, b.drop_last());
        assert((a + b).drop_last() =~= a + b.drop_last());
        assert(rows_of(a + b) =~= rows_of(a) + rows_of(b));
    }
}

proof fn lemma_no_rows(lines: Seq<Line>)
    requires
        forall|i: int| 0 <= i < lines.len() ==> !(#[trigger] lines[i] is Row),
    ensures
        rows_of(lines).len() == 0,
    decreases lines.len(),
{
    if lines.len() > 0 {
        assert forall|i: int| 0 <= i < lines.drop_last().len() implies !(
            #[trigger] lines.drop_last()[i] is Row) by {
            assert(lines.drop_last()[i] == lines[i]);
        }
        lemma_no_rows(lines.drop_last());
        assert(!(lines[lines.len() - 1] is Row));
    }
}

} // verus!
