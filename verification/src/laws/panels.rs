//! What the station shows.

use crate::application::Station;
use crate::command::Geodetic;
use crate::ident::{Ident, MavlinkId};
use crate::panel::{
    gesture, last_section, list_of, listed, located, marks, pieces, section_break, shows,
    shows_link, FieldMark, Gesture, Line, LinkFields, Marker, ParamRow, PointerEvent,
};
use crate::laws::parameters::{lemma_stands_at, lemma_stranger, stands_at, stranger};
use crate::link::{maybe_text, texts, Builder};
use crate::parameter_file::section_of;
use crate::parameters::{ParamState, Parameter};
use crate::value::{name_of_type, writes_value};
use crate::vehicle::{GlobalPosition, VehicleState};
use vstd::prelude::*;

verus! {

/// The list has each parameter once, in order, and the name of a section in brackets where
/// it begins, with a rule before it where a section ends.
pub proof fn law_lists_grow_by_one(
    entries: Seq<(Ident, Parameter)>,
    entry: (Ident, Parameter),
    sep: char,
)
    ensures
        list_of(Seq::<(Ident, Parameter)>::empty(), sep).len() == 0,
        ({
            let former = if entries.len() == 0 {
                None
            } else {
                section_of(entries.last().0@, sep)
            };
            let section = section_of(entry.0@, sep);
            let was = list_of(entries, sep);
            let now = list_of(entries.push(entry), sep);
            let row = Line::Row(entries.len() as int);
            &&& section == former ==> now == was.push(row)
            &&& section != former ==> match (former, section) {
                (Some(_), Some(name)) => now == was.push(Line::Rule).push(
                    Line::Header(seq!['['] + name + seq![']']),
                ).push(row),
                (Some(_), None) => now == was.push(Line::Rule).push(row),
                (None, Some(name)) => now == was.push(
                    Line::Header(seq!['['] + name + seq![']']),
                ).push(row),
                (None, None) => true,
            }
        }),
{
    let now = entries.push(entry);
    assert(now.drop_last() =~= entries);
    let was = list_of(entries, sep);
    let former = last_section(entries, sep);
    let section = section_of(entry.0@, sep);
    let row = Line::Row(entries.len() as int);
    assert(last_section(now, sep) == section);
    let between = section_break(former, section);
    assert(list_of(now, sep) == (was + between).push(row));
    if section == former {
        assert(was + between =~= was);
    } else {
        match (former, section) {
            (Some(_), Some(name)) => {
                assert(was + between =~= was.push(Line::Rule).push(
                    Line::Header(seq!['['] + name + seq![']']),
                ));
            },
            (Some(_), None) => {
                assert(was + between =~= was.push(Line::Rule));
            },
            (None, Some(name)) => {
                assert(was + between =~= was.push(Line::Header(seq!['['] + name + seq![']'])));
            },
            (None, None) => {},
        }
    }
}

/// A row shows its parameter: its name, its type, the text that was typed in or else the
/// text of its value, and whether it is changed or on its way. It can be restored and
/// uploaded just where it is changed, and is uploaded with the value that it is changed to.
pub proof fn law_rows<F: Fn(u32) -> String>(
    real_text: F,
    mav_id: MavlinkId,
    entry: (Ident, Parameter),
    row: ParamRow,
)
    requires
        shows(real_text, mav_id, entry, row),
    ensures
        row.mav_id == mav_id,
        row.ident == entry.0,
        row.kind@ == name_of_type(entry.1.value),
        entry.1.editing matches Some(text) ==> row.text == text,
        entry.1.editing is None ==> writes_value(real_text, entry.1.value, row.text),
        match entry.1.state {
            ParamState::Unchanged => row.mark == FieldMark::Plain && !row.restore
                && row.upload is None,
            ParamState::Changed(value) => row.mark == FieldMark::Changed && row.restore
                && row.upload == Some(value),
            ParamState::Uploading(_, _) => row.mark == FieldMark::Uploading && !row.restore
                && row.upload is None,
        },
{
}

/// The filtered parameters are listed where there are some filtered, else all parameters of
/// the primary vehicle; none where it is not known.
pub proof fn law_listed(s: Station, k: int, mav_id: MavlinkId, v: VehicleState)
    requires
        crate::application::consistent(s),
    ensures
        s.primary_vehicle == Some(mav_id) && stands_at(s, k, mav_id, v) ==> (listed(s) matches Some(
            p,
        ) && match s.parameter_filtered {
            Some(filtered) => p == filtered,
            None => p.entries == v.parameters && p.has_loaded == v.has_loaded && p.expected_count
                == v.expected_count,
        }),
        s.primary_vehicle is None ==> listed(s) is None,
        s.primary_vehicle == Some(mav_id) && stranger(s, mav_id) ==> listed(s) is None,
{
    if stands_at(s, k, mav_id, v) {
        lemma_stands_at(s, k, mav_id, v);
    }
    if stranger(s, mav_id) {
        lemma_stranger(s, mav_id);
    }
}

/// The fields of a link show what is typed in, each in its place, and the ports that are
/// offered.
pub proof fn law_fields(builder: Builder, fields: LinkFields)
    requires
        shows_link(builder, fields),
    ensures
        match builder {
            Builder::Tcp { addr, port } => fields matches LinkFields::Network { addr: a, port: p }
                && a@ == addr && p@ == port,
            Builder::Udp { addr, port } => fields matches LinkFields::Network { addr: a, port: p }
                && a@ == addr && p@ == port,
            Builder::Serial { port, baud, available_ports } => fields matches LinkFields::Serial {
                port: p,
                ports,
                placeholder,
                baud: b,
            } && maybe_text(p) == port && b == baud && ports@.len() == available_ports.len() && (
            forall|i: int|
                0 <= i < available_ports.len() ==> #[trigger] ports@[i]@ == available_ports[i]) && (
            if available_ports.len() == 0 {
                placeholder@ == "No connection"@
            } else {
                placeholder@ == "Select a port"@
            }),
        },
{
    match (builder, fields) {
        (
            Builder::Serial { available_ports, .. },
            LinkFields::Serial { ports, .. },
        ) => {
            assert forall|i: int| 0 <= i < available_ports.len() implies #[trigger] ports@[i]@
                == available_ports[i] by {
                assert(texts(ports@)[i] == ports@[i]@);
            }
        },
        _ => {},
    }
}

/// A track is drawn in pieces from each position to the next.
pub proof fn law_tracks(track: Seq<GlobalPosition>, i: int)
    ensures
        track.len() == 0 ==> pieces(track).len() == 0,
        track.len() > 0 ==> pieces(track).len() == track.len() - 1,
        0 <= i && i + 1 < track.len() ==> pieces(track)[i] == (track[i], track[i + 1]),
{
}

/// The vehicles whose position is known are on the map, in order, and no others.
pub proof fn law_located(
    vehicles: Seq<(MavlinkId, VehicleState)>,
    mav_id: MavlinkId,
    v: VehicleState,
)
    ensures
        located(Seq::<(MavlinkId, VehicleState)>::empty()).len() == 0,
        v.global_position is Some ==> located(vehicles.push((mav_id, v))) == located(vehicles).push(
            v,
        ),
        v.global_position is None ==> located(vehicles.push((mav_id, v))) == located(vehicles),
{
    assert(vehicles.push((mav_id, v)).drop_last() =~= vehicles);
}

/// A marker stands at the position of its vehicle, points where it points, and has its track
/// and the circle that is drawn, once that has a middle and a place on it.
pub proof fn law_markers(s: Station, v: VehicleState, marker: Marker)
    requires
        marks(s, v, marker),
    ensures
        v.global_position == Some(marker.position),
        marker.attitude == v.attitude,
        marker.track@ == pieces(v.global_positions),
        match (s.fly_to_position.start, s.fly_to_position.end) {
            (Some(middle), Some(edge)) => marker.circle == Some((middle, edge)),
            _ => marker.circle is None,
        },
{
}

/// The right button starts a circle where it goes down over the map and finishes it where it
/// goes up; the pointer draws it between, and nothing else does.
pub proof fn law_gestures(s: Station, over_map: bool, place: Geodetic)
    ensures
        gesture(s, PointerEvent::RightPressed, true, place) == Some(Gesture::Start(place)),
        gesture(s, PointerEvent::RightReleased, true, place) == Some(Gesture::Finish(place)),
        gesture(s, PointerEvent::RightPressed, false, place) is None,
        gesture(s, PointerEvent::RightReleased, false, place) is None,
        gesture(s, PointerEvent::Other, over_map, place) is None,
        s.fly_to_position.start is Some && s.fly_to_position.radius is None ==> gesture(
            s,
            PointerEvent::Moved,
            over_map,
            place,
        ) == Some(Gesture::Draw(place)),
        s.fly_to_position.start is None || s.fly_to_position.radius is Some ==> gesture(
            s,
            PointerEvent::Moved,
            over_map,
            place,
        ) is None,
{
}

} // verus!
