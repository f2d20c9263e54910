//! Functions of the smaller parts, and of the panels, by what they take and what they give.

use crate::application::{
    acts, after_frame, frame_acts, refreshed, vehicle_of, Action, Application, Message,
    ParameterMessage,
};
use crate::command::Geodetic;
use crate::file_text::{
    loads_file, parameters_from_bytes, parameters_to_text, writes_file, FileError,
};
use crate::ident::{Ident, MavlinkId};
use crate::link::{variant_of, LinkId};
use crate::panel::{
    gesture, link_calls_for, list_of, listed, located, marks_all, shows_link, shows_list, Gesture,
    LinkButton, LinkRequest, Marker, ParamLine, ParamRow, ParameterPanel, ParameterRequest,
    PointerEvent, SidePanel, TopPanel,
};
use crate::parameter_file::{
    holds_value, ini_sections, load_parameters_from_ini, loads_sections, parse_line,
    save_parameters_to_ini, saves,
};
use crate::parameter_update::{load_choice, picked_directory, save_choice};
use crate::parameters::{matching, merges_all, ParamState, Parameter, Parameters, TimerId};
use crate::sorted::{lemma_key_once, ranks, Key};
use crate::text::{
    contains, cstring_text, decimal, decimal_text, has_part, parse_signed, parse_unsigned,
    position_of, signed_decimal, signed_decimal_text, signed_reading, split_at_first, split_once,
    string_from_cstring, trim, trimmed, unsigned_reading,
};
use crate::value::{
    bytewise_bits, bytewise_value, c_cast_bits, c_cast_value, equal_values, from_value,
    mavio_into_value, packed, param_type, same_value, unpacked, value_as_string,
    value_from_bytewise, value_from_c_cast, value_into_bytewise, value_into_c_cast, value_parse_as,
    value_reading, value_type_matches, writes_value, MavParamType, Value,
};
use crate::vehicle::{shown_name, Vehicle, VehicleState};
use crate::wire::WireMessage;
use std::path::PathBuf;
use std::time::Instant;
use vstd::prelude::*;

verus! {

// ---------------------------------------------------------------------------
// Texts and values
// ---------------------------------------------------------------------------

/// Numbers are read and written as numerals.
pub proof fn law_numerals(
    s: &str,
    max: u32,
    half: i32,
    n: u64,
    m: i64,
    a: Option<u32>,
    b: Option<i32>,
    c: String,
    d: String,
)
    requires
        half >= 0,
        m > i64::MIN,
        call_ensures(parse_unsigned, (s, max), a),
        call_ensures(parse_signed, (s, half), b),
        call_ensures(decimal_text, (n,), c),
        call_ensures(signed_decimal_text, (m,), d),
    ensures
        a matches Some(x) ==> unsigned_reading(s@, max as nat) == Some(x as nat),
        a is None ==> unsigned_reading(s@, max as nat) is None,
        b matches Some(x) ==> signed_reading(s@, half as nat) == Some(x as int),
        b is None ==> signed_reading(s@, half as nat) is None,
        c@ == decimal(n as nat),
        d@ == signed_decimal(m as int),
{
}

/// Texts are split, trimmed and searched.
pub proof fn law_texts(
    s: &str,
    part: &str,
    c: char,
    bytes: &[u8],
    a: Option<(String, String)>,
    b: String,
    d: bool,
    e: Option<String>,
)
    requires
        call_ensures(split_once, (s, c), a),
        call_ensures(trim, (s,), b),
        call_ensures(contains, (s, part), d),
        call_ensures(string_from_cstring, (bytes,), e),
    ensures
        a matches Some((x, y)) ==> split_at_first(s@, c) == Some((x@, y@)),
        a is None ==> split_at_first(s@, c) is None,
        b@ == trimmed(s@),
        d == has_part(s@, part@),
        e matches Some(t) ==> cstring_text(bytes@) == Some(t@),
        e is None ==> cstring_text(bytes@) is None,
{
}

/// Values are packed and unpacked.
pub proof fn law_packing(
    cap: u64,
    value: Value,
    bits: u32,
    ty: MavParamType,
    a: Option<Value>,
    b: (u32, MavParamType),
    c: Option<Value>,
    d: (u32, MavParamType),
    e: Option<(u32, MavParamType)>,
    f: Option<Value>,
)
    requires
        call_ensures(value_from_bytewise, (bits, ty), a),
        call_ensures(value_into_bytewise, (value,), b),
        call_ensures(value_from_c_cast, (bits, ty), c),
        call_ensures(value_into_c_cast, (value,), d),
        call_ensures(from_value, (cap, value), e),
        call_ensures(mavio_into_value, (cap, bits, ty), f),
    ensures
        a == bytewise_value(bits, ty),
        b.0 == bytewise_bits(value) && b.1 == param_type(value),
        c == c_cast_value(bits, ty),
        d.0 == c_cast_bits(value) && d.1 == param_type(value),
        cap & 16 == 16 ==> e == Some(b) && f == a,
        cap & 16 != 16 && cap & 131072 == 131072 ==> e == Some(d) && f == c,
        cap & 16 != 16 && cap & 131072 != 131072 ==> e is None && f is None,
{
}

/// Values are compared, written and read as values of their type.
pub proof fn law_values<F: Fn(u32) -> String, G: Fn(&str) -> Option<u32>>(
    real_text: F,
    read_real: G,
    x: Value,
    y: Value,
    s: &str,
    a: bool,
    b: bool,
    c: String,
    d: Option<Value>,
)
    requires
        forall|bits: u32| call_requires(real_text, (bits,)),
        forall|t: &str| call_requires(read_real, (t,)),
        call_ensures(value_type_matches, (x, y), a),
        call_ensures(same_value, (x, y), b),
        call_ensures(value_as_string::<F>, (x, real_text), c),
        call_ensures(value_parse_as::<G>, (x, s, read_real), d),
    ensures
        a == (param_type(x) == param_type(y)),
        b == equal_values(x, y),
        writes_value(real_text, x, c),
        !(x is F32) ==> d == value_reading(x, s@, None),
        x is F32 ==> exists|number: Option<u32>| #[trigger]
            call_ensures(read_real, (s,), number) && d == match number {
                Some(bits) => Some(Value::F32(bits)),
                None => None,
            },
{
    if x is F32 {
        let number = choose|number: Option<u32>| #[trigger]
            call_ensures(read_real, (s,), number) && d == value_reading(x, s@, number);
        assert(call_ensures(read_real, (s,), number));
    }
}

/// A name is made of every text that fits, and of no other, and is that text.
pub proof fn law_idents(text: &str, a: Option<Ident>)
    requires
        call_ensures(Ident::new, (text,), a),
    ensures
        a is Some <==> vstd::utf8::encode_utf8(text@).len() <= 16,
        a matches Some(ident) ==> ident@ == text@,
{
}

// ---------------------------------------------------------------------------
// Parameters
// ---------------------------------------------------------------------------

/// `i` is the place of a parameter.
pub open spec fn place_of(entries: Seq<(Ident, Parameter)>, ident: Ident, i: int) -> bool {
    0 <= i < entries.len() && entries[i].0@ == ident@
}

/// What is done to a parameter of a name is done to it alone, wherever it stands.
pub proof fn law_one_parameter(
    i: int,
    ident: Ident,
    buffer: String,
    number: Option<u32>,
    timer: TimerId,
)
    ensures
        forall|p: &mut Parameters, r: bool| #[trigger]
            call_ensures(Parameters::edit, (p, &ident, buffer, number), r) && p.wf() && place_of(
                p@.entries,
                ident,
                i,
            ) ==> {
                let was = p@.entries;
                let now = final(p)@.entries;
                &&& r
                &&& now == was.update(i, now[i])
                &&& now[i].0 == was[i].0
                &&& now[i].1.value == was[i].1.value
                &&& now[i].1.editing == Some(buffer)
                &&& match value_reading(was[i].1.value, buffer@, number) {
                    Some(value) => if equal_values(value, was[i].1.value) {
                        now[i].1.state is Unchanged
                    } else {
                        now[i].1.state == ParamState::Changed(value)
                    },
                    None => now[i].1.state is Unchanged,
                }
                &&& final(p)@.has_loaded == p@.has_loaded
                &&& final(p)@.expected_count == p@.expected_count
            },
        forall|p: &mut Parameters, r: bool| #[trigger]
            call_ensures(Parameters::reset, (p, &ident), r) && p.wf() && place_of(
                p@.entries,
                ident,
                i,
            ) ==> {
                let was = p@.entries;
                let now = final(p)@.entries;
                &&& r
                &&& now == was.update(i, now[i])
                &&& now[i].0 == was[i].0
                &&& now[i].1.value == was[i].1.value
                &&& now[i].1.state is Unchanged
                &&& now[i].1.editing is None
            },
        forall|p: &mut Parameters, r: bool| #[trigger]
            call_ensures(Parameters::start_upload, (p, &ident, timer), r) && p.wf() && place_of(
                p@.entries,
                ident,
                i,
            ) ==> {
                let was = p@.entries;
                let now = final(p)@.entries;
                &&& r
                &&& now == was.update(i, now[i])
                &&& now[i].0 == was[i].0
                &&& now[i].1.value == was[i].1.value
                &&& now[i].1.state == ParamState::Uploading(timer, was[i].1.value)
                &&& now[i].1.editing == was[i].1.editing
            },
{
    assert forall|p: &mut Parameters| #[trigger]
        place_of(p@.entries, ident, i) && p.wf() implies position_of(
        ranks(p@.entries),
        ident.rank(),
    ) == i by {
        lemma_key_once(p@.entries, i, ident.rank());
    }
}

/// Filtering keeps the parameters that match, and how many came in.
pub proof fn law_filtered(parameters: Parameters, filter: &str, r: Parameters)
    requires
        parameters.wf(),
        call_ensures(Parameters::filtered, (&parameters, filter), r),
    ensures
        r@.entries == matching(parameters@.entries, filter@),
        r@.has_loaded == parameters@.has_loaded,
        r@.expected_count == parameters@.expected_count,
{
}

/// A file is merged into the parameters of a vehicle.
pub proof fn law_merge<F: Fn(u32) -> String>(real_text: F, loaded: Parameters)
    requires
        forall|bits: u32| call_requires(real_text, (bits,)),
    ensures
        forall|p: &mut Parameters| #[trigger]
            call_ensures(Parameters::merge::<F>, (p, &loaded, real_text), ()) && p.wf() ==> {
                &&& merges_all(real_text, p@.entries, loaded@.entries, final(p)@.entries)
                &&& final(p)@.has_loaded == p@.has_loaded
                &&& final(p)@.expected_count == p@.expected_count
            },
{
}

// ---------------------------------------------------------------------------
// Files
// ---------------------------------------------------------------------------

/// Parameters are put into documents and files, and taken out of them.
pub proof fn law_saving_and_loading<
    F: Fn(u32) -> String,
    G: Fn(&str) -> Option<u32>,
    H: Fn(&str) -> Ident,
>(
    real_text: F,
    read_real: G,
    ident_of: H,
    parameters: Parameters,
    sep: char,
    conf: ini::Ini,
    bytes: &[u8],
    line: &str,
    a: ini::Ini,
    b: Parameters,
    c: String,
    d: Result<Parameters, FileError>,
    e: Option<Value>,
)
    requires
        forall|bits: u32| call_requires(real_text, (bits,)),
        forall|t: &str| call_requires(read_real, (t,)),
        forall|t: &str| call_requires(ident_of, (t,)),
        call_ensures(save_parameters_to_ini::<F>, (&parameters, sep, real_text), a),
        call_ensures(load_parameters_from_ini::<H, G>, (&conf, ident_of, read_real), b),
        call_ensures(parameters_to_text::<F>, (&parameters, sep, real_text), c),
        call_ensures(parameters_from_bytes::<H, G>, (bytes, ident_of, read_real), d),
        call_ensures(parse_line::<G>, (line, &read_real), e),
    ensures
        saves(real_text, parameters@.entries, sep, ini_sections(a)),
        loads_sections(ident_of, read_real, ini_sections(conf), b),
        writes_file(real_text, parameters@.entries, sep, c@),
        loads_file(ident_of, read_real, bytes@, d),
        holds_value(read_real, line@, e),
{
}

/// The choice of a file leads to it, and the directory of a file is its parent.
pub proof fn law_choices(
    choice: Option<PathBuf>,
    parameters: Parameters,
    mav_id: MavlinkId,
    path: PathBuf,
    is_dir: bool,
    parent: Option<PathBuf>,
    a: Option<ParameterMessage>,
    b: Option<ParameterMessage>,
    c: Option<PathBuf>,
)
    requires
        call_ensures(save_choice, (choice, parameters), a),
        call_ensures(load_choice, (choice, mav_id), b),
        call_ensures(picked_directory, (path, is_dir, parent), c),
    ensures
        choice is None ==> a is None && b is None,
        choice matches Some(file) ==> a == Some(ParameterMessage::SaveToFile(file, parameters)) && b
            == Some(ParameterMessage::LoadFromFile(file, mav_id)),
        is_dir ==> c == Some(path),
        !is_dir ==> c == parent,
{
}

// ---------------------------------------------------------------------------
// The station and its panels
// ---------------------------------------------------------------------------

/// Messages of vehicles are taken over, and the filtered parameters are kept up to date.
pub proof fn law_receiving(
    now: Instant,
    mav_id: MavlinkId,
    message: WireMessage,
    link_id: LinkId,
)
    ensures
        forall|app: &mut Application, r: Vec<Action>| #[trigger]
            call_ensures(Application::receive_frame, (app, now, mav_id, message, link_id), r)
                && app.wf() ==> {
                &&& final(app)@ == after_frame(app@, now, mav_id, message, link_id)
                &&& acts(r@) == frame_acts(app@, now, mav_id, message, link_id)
            },
        forall|app: &mut Application| #[trigger]
            call_ensures(Application::refresh_filtered_parameter, (app,), ()) && app.wf() ==> final(app)@ == refreshed(app@),
{
}

/// A vehicle is shown by its names.
pub proof fn law_pretty_name(vehicle: Vehicle, r: String)
    requires
        call_ensures(Vehicle::pretty_name, (&vehicle,), r),
    ensures
        r@ == shown_name(vehicle@),
{
}

/// The list shows the parameters that are listed, as those of the primary vehicle.
pub proof fn law_param_list<F: Fn(u32) -> String>(
    real_text: F,
    app: Application,
    r: Option<Vec<ParamLine>>,
)
    requires
        forall|bits: u32| call_requires(real_text, (bits,)),
        call_ensures(Application::view_param_list::<F>, (&app, &real_text), r),
    ensures
        r is None <==> listed(app@) is None,
        r matches Some(all) ==> shows_list(
            real_text,
            app@.primary_vehicle->0,
            listed(app@)->0.entries,
            list_of(listed(app@)->0.entries, app@.parameter_namespace_sep),
            all@,
        ),
{
}

/// The panel of parameters tells how many parameters of the primary vehicle have come in,
/// how many it announced, and whether that is all.
pub proof fn law_parameter_panel(app: Application, v: VehicleState, r: Option<ParameterPanel>)
    requires
        call_ensures(Application::view_parameter_panel, (&app,), r),
    ensures
        r is None <==> listed(app@) is None,
        r matches Some(panel) ==> {
            &&& app@.primary_vehicle == Some(panel.mav_id)
            &&& vehicle_of(app@, panel.mav_id) == Some(v) ==> {
                &&& panel.got == v.has_loaded.len()
                &&& panel.expected == v.expected_count
                &&& panel.complete <==> v.has_loaded.len() >= v.expected_count
            }
        },
{
}

/// The panel of the link shows the link, whether the primary vehicle is followed, the
/// vehicles once there are two, and the button that connects or disconnects.
pub proof fn law_top_panel(app: Application, r: TopPanel)
    requires
        call_ensures(Application::view_top_panel, (&app,), r),
    ensures
        r.variant == variant_of(app@.builder),
        shows_link(app@.builder, r.fields),
        r.follow == app@.follow_primary_vehicle,
        r.primary == app@.primary_vehicle,
        app@.vehicles.len() < 2 ==> r.vehicles@.len() == 0,
        app@.vehicles.len() >= 2 ==> {
            &&& r.vehicles@.len() == app@.vehicles.len()
            &&& forall|i: int|
                0 <= i < r.vehicles@.len() ==> (#[trigger] r.vehicles@[i]).0 == app@.vehicles[i].0
                    && r.vehicles@[i].1@ == shown_name(app@.vehicles[i].1)
        },
        app@.connected ==> r.button is Disconnect,
        !app@.connected ==> (r.button matches LinkButton::Connect(config) && match app@.build {
            Some(built) => config matches Some(c) && c@ == built,
            None => config is None,
        }),
{
}

/// The side panel shows the attitude, the battery and the status texts of the primary
/// vehicle, each as it is.
pub proof fn law_side_panel(app: Application, mav_id: MavlinkId, v: VehicleState, r: SidePanel)
    requires
        call_ensures(Application::view_right_side_panel, (&app,), r),
    ensures
        app@.primary_vehicle == Some(mav_id) && vehicle_of(app@, mav_id) == Some(v) ==> {
            &&& r.attitude == v.attitude
            &&& r.battery == v.battery_state
            &&& r.statuses matches Some(all) && all@.len() == v.status_texts.len() && forall|i: int|
                0 <= i < all@.len() ==> (#[trigger] all@[i]).text@ == v.status_texts[i].text
                    && all@[i].brighter == (i % 2 == 1)
        },
        app@.primary_vehicle is None || vehicle_of(app@, app@.primary_vehicle->0) is None
            ==> r.attitude is None && r.battery is None && r.statuses is None,
{
}

/// The map has a marker for each vehicle whose position is known, and gestures draw on it.
pub proof fn law_map(
    app: Application,
    event: PointerEvent,
    over_map: bool,
    place: Geodetic,
    drawn: Gesture,
    radius: u32,
    a: Vec<Marker>,
    b: Option<Gesture>,
    c: Message,
)
    requires
        call_ensures(Application::view_osm_map, (&app,), a),
        call_ensures(Application::map_gesture, (&app, event, over_map, place), b),
        call_ensures(Gesture::message, (drawn, radius), c),
    ensures
        marks_all(app@, located(app@.vehicles), a@),
        b == gesture(app@, event, over_map, place),
        drawn matches Gesture::Start(p) ==> c == Message::FlyToPositionStart(p),
        drawn matches Gesture::Draw(p) ==> c == Message::FlyToPositionInProgress(p),
        drawn matches Gesture::Finish(p) ==> c == Message::FlyToPositionFinalize(p, radius),
{
}

/// What the user asks for in the panels is what happens.
pub proof fn law_requests(
    app: Application,
    request: LinkRequest,
    asked: ParameterRequest,
    a: Option<Message>,
    b: Option<ParameterMessage>,
    mav_id: MavlinkId,
    v: VehicleState,
)
    requires
        call_ensures(Application::top_panel_message, (&app, request), a),
        call_ensures(Application::parameter_panel_message, (&app, asked), b),
    ensures
        link_calls_for(app@, request, a),
        listed(app@) is None ==> b is None,
        app@.primary_vehicle == Some(mav_id) && vehicle_of(app@, mav_id) == Some(v) ==> {
            &&& asked is Reload ==> b == Some(ParameterMessage::ListReload(mav_id))
            &&& asked is Upload ==> b == Some(ParameterMessage::UploadAll(mav_id))
            &&& asked is Load ==> b == Some(ParameterMessage::LoadDialog(mav_id))
            &&& asked is Save ==> (b matches Some(ParameterMessage::SaveDialog(p)) && p@.entries
                == v.parameters && p@.has_loaded == v.has_loaded && p@.expected_count
                == v.expected_count)
            &&& asked matches ParameterRequest::Filter(text) ==> b == Some(
                ParameterMessage::FilterBuf(text),
            )
        },
{
}

/// A row calls for its parameter.
pub proof fn law_row_messages(
    row: ParamRow,
    text: String,
    number: Option<u32>,
    a: Option<ParameterMessage>,
    b: Option<ParameterMessage>,
    c: ParameterMessage,
)
    requires
        call_ensures(ParamRow::restore_message, (&row,), a),
        call_ensures(ParamRow::upload_message, (&row,), b),
        call_ensures(ParamRow::edit_message, (&row, text, number), c),
    ensures
        row.restore ==> a == Some(ParameterMessage::ValueReset(row.mav_id, row.ident)),
        !row.restore ==> a is None,
        row.upload matches Some(value) ==> b == Some(
            ParameterMessage::ValueUpload(row.mav_id, row.ident, value),
        ),
        row.upload is None ==> b is None,
        c == ParameterMessage::BufferEdit(row.mav_id, row.ident, text, number),
{
}

} // verus!
