//! Parameters at the station: editing, uploading, reloading, files.

use crate::application::{
    consistent, lemma_vehicle_valid, vehicle_of, with_vehicle, Act, ParameterMessage, Station,
};
use crate::command::{MavCmd, Outgoing, Step};
use crate::ident::{lemma_mavlink_rank, lemma_text_rank, Ident, MavlinkId};
use crate::laws::vehicles::law_parameters_are_asked_for;
use crate::parameter_update::{all_upload_acts, setting, updates, upload_acts};
use crate::parameters::{
    changed_count, edited, first_changed, fresh, lemma_first_changed, merges_all, replaced,
    timed_out, timer_behind, uploading, uploads, ParamState, Parameter, Parameters, TimerId, Upload,
};
use crate::sorted::{lemma_key_once, ranks, sorted, value_at, Key};
use crate::text::lemma_position_is;
use crate::value::{
    bytewise_bits, c_cast_bits, equal_values, param_type, value_reading, writes_value, Value,
};
use crate::vehicle::VehicleState;
use std::path::PathBuf;
use vstd::prelude::*;

verus! {

// ---------------------------------------------------------------------------
// Where things stand
// ---------------------------------------------------------------------------

/// A vehicle stands at a place of the station.
pub open spec fn stands_at(s: Station, k: int, mav_id: MavlinkId, v: VehicleState) -> bool {
    0 <= k < s.vehicles.len() && s.vehicles[k] == (mav_id, v)
}

/// A vehicle is not known.
pub open spec fn stranger(s: Station, mav_id: MavlinkId) -> bool {
    forall|k: int| 0 <= k < s.vehicles.len() ==> (#[trigger] s.vehicles[k]).0 != mav_id
}

/// A parameter stands at a place among others.
pub open spec fn holds_at(
    entries: Seq<(Ident, Parameter)>,
    i: int,
    ident: Ident,
    p: Parameter,
) -> bool {
    0 <= i < entries.len() && entries[i].0@ == ident@ && entries[i].1 == p
}

/// There is no parameter of a name.
pub open spec fn nameless(entries: Seq<(Ident, Parameter)>, ident: Ident) -> bool {
    forall|i: int| 0 <= i < entries.len() ==> (#[trigger] entries[i]).0@ != ident@
}

/// The station with the parameters of a vehicle replaced.
pub open spec fn reparametered(
    s: Station,
    k: int,
    entries: Seq<(Ident, Parameter)>,
) -> Seq<(MavlinkId, VehicleState)> {
    s.vehicles.update(
        k,
        (s.vehicles[k].0, VehicleState { parameters: entries, ..s.vehicles[k].1 }),
    )
}

/// A vehicle at a place is what is known under its id, and something else known of it goes
/// to that place.
pub proof fn lemma_stands_at(s: Station, k: int, mav_id: MavlinkId, v: VehicleState)
    requires
        consistent(s),
        stands_at(s, k, mav_id, v),
    ensures
        vehicle_of(s, mav_id) == Some(v),
        sorted(v.parameters),
        forall|w: VehicleState| #[trigger]
            with_vehicle(s, mav_id, w) == (Station {
                vehicles: s.vehicles.update(k, (mav_id, w)),
                ..s
            }),
{
    lemma_key_once(s.vehicles, k, mav_id.rank());
    lemma_vehicle_valid(s, mav_id);
}

pub proof fn lemma_stranger(s: Station, mav_id: MavlinkId)
    requires
        stranger(s, mav_id),
    ensures
        vehicle_of(s, mav_id) is None,
{
    assert forall|k: int| 0 <= k < s.vehicles.len() implies #[trigger] ranks(s.vehicles)[k]
        != mav_id.rank() by {
        assert(s.vehicles[k].0 != mav_id);
        lemma_mavlink_rank(s.vehicles[k].0, mav_id);
    }
    lemma_position_is(ranks(s.vehicles), mav_id.rank(), s.vehicles.len() as int);
}

pub proof fn lemma_holds_at(
    entries: Seq<(Ident, Parameter)>,
    i: int,
    ident: Ident,
    p: Parameter,
    change: spec_fn(Parameter) -> Parameter,
)
    requires
        sorted(entries),
        holds_at(entries, i, ident, p),
    ensures
        value_at(entries, ident.rank()) == Some(p),
        replaced(entries, ident, change) == entries.update(i, (entries[i].0, change(p))),
{
    lemma_key_once(entries, i, ident.rank());
}

pub proof fn lemma_nameless(
    entries: Seq<(Ident, Parameter)>,
    ident: Ident,
    change: spec_fn(Parameter) -> Parameter,
)
    requires
        nameless(entries, ident),
    ensures
        value_at(entries, ident.rank()) is None,
        replaced(entries, ident, change) == entries,
{
    assert forall|i: int| 0 <= i < entries.len() implies #[trigger] ranks(entries)[i]
        != ident.rank() by {
        assert(entries[i].0@ != ident@);
        lemma_text_rank(entries[i].0@, ident@);
    }
    lemma_position_is(ranks(entries), ident.rank(), entries.len() as int);
}

// ---------------------------------------------------------------------------
// Uploading
// ---------------------------------------------------------------------------

/// The places of the changed parameters, in order.
pub open spec fn changed_places(entries: Seq<(Ident, Parameter)>) -> Seq<int>
    decreases entries.len(),
{
    if entries.len() == 0 {
        Seq::empty()
    } else if entries[entries.len() - 1].1.state is Changed {
        changed_places(entries.drop_last()).push(entries.len() - 1)
    } else {
        changed_places(entries.drop_last())
    }
}

/// Each changed parameter has its place once, in order, and no other parameter has one.
pub proof fn lemma_changed_places(entries: Seq<(Ident, Parameter)>)
    ensures
        forall|m: int|
            0 <= m < changed_places(entries).len() ==> {
                &&& 0 <= #[trigger] changed_places(entries)[m] < entries.len()
                &&& entries[changed_places(entries)[m]].1.state is Changed
            },
        forall|m: int, n: int|
            0 <= m < n < changed_places(entries).len() ==> #[trigger] changed_places(entries)[m]
                < #[trigger] changed_places(entries)[n],
        forall|i: int|
            0 <= i < entries.len() && (#[trigger] entries[i]).1.state is Changed
                ==> changed_places(entries).contains(i),
    decreases entries.len(),
{
    if entries.len() > 0 {
        let rest = entries.drop_last();
        let was = changed_places(rest);
        let now = changed_places(entries);
        lemma_changed_places(rest);
        assert forall|m: int| 0 <= m < now.len() implies {
            &&& 0 <= #[trigger] now[m] < entries.len()
            &&& entries[now[m]].1.state is Changed
        } by {
            if m < was.len() {
                assert(now[m] == was[m]);
                assert(rest[was[m]] == entries[was[m]]);
            }
        }
        assert forall|m: int, n: int| 0 <= m < n < now.len() implies #[trigger] now[m]
            < #[trigger] now[n] by {
            assert(now[m] == was[m]);
            if n < was.len() {
                assert(now[n] == was[n]);
            }
        }
        assert forall|i: int|
            0 <= i < entries.len() && (#[trigger] entries[i]).1.state is Changed implies now.contains(
            i,
        ) by {
            if i < rest.len() {
                assert(rest[i] == entries[i]);
                assert(was.contains(i));
                let m = choose|m: int| 0 <= m < was.len() && was[m] == i;
                assert(now[m] == i);
            } else {
                assert(now[was.len() as int] == i);
            }
        }
    }
}

proof fn lemma_uploads(entries: Seq<(Ident, Parameter)>, first: u64)
    ensures
        changed_count(entries) == changed_places(entries).len(),
        uploads(entries, first).len() == changed_places(entries).len(),
        forall|m: int|
            0 <= m < changed_places(entries).len() ==> {
                let i = changed_places(entries)[m];
                &&& (#[trigger] uploads(entries, first)[m]).ident == entries[i].0
                &&& entries[i].1.state == ParamState::Changed(uploads(entries, first)[m].value)
                &&& uploads(entries, first)[m].timer == TimerId(timer_behind(first, m))
                &&& changed_count(entries.take(i)) == m
            },
    decreases entries.len(),
{
    if entries.len() > 0 {
        let rest = entries.drop_last();
        let was = changed_places(rest);
        lemma_uploads(rest, first);
        lemma_changed_places(rest);
        assert forall|m: int| 0 <= m < changed_places(entries).len() implies {
            let i = changed_places(entries)[m];
            &&& (#[trigger] uploads(entries, first)[m]).ident == entries[i].0
            &&& entries[i].1.state == ParamState::Changed(uploads(entries, first)[m].value)
            &&& uploads(entries, first)[m].timer == TimerId(timer_behind(first, m))
            &&& changed_count(entries.take(i)) == m
        } by {
            let i = changed_places(entries)[m];
            if m < was.len() {
                assert(i == was[m]);
                assert(uploads(entries, first)[m] == uploads(rest, first)[m]);
                assert(rest[i] == entries[i]);
                assert(rest.take(i) =~= entries.take(i));
            } else {
                assert(entries.take(i) =~= rest);
            }
        }
    }
}

proof fn lemma_upload_acts(mav_id: MavlinkId, cap: u64, all: Seq<Upload>)
    ensures
        all_upload_acts(mav_id, cap, all).len() == 2 * all.len(),
        forall|m: int|
            0 <= m < all.len() ==> {
                let acts = all_upload_acts(mav_id, cap, all);
                let upload = #[trigger] all[m];
                &&& acts[2 * m] == Act::Send(setting(mav_id, upload.ident, cap, upload.value))
                &&& acts[2 * m + 1] == (Act::StartTimer {
                    timer: upload.timer,
                    mav_id,
                    ident: upload.ident,
                })
            },
    decreases all.len(),
{
    if all.len() > 0 {
        let rest = all.drop_last();
        lemma_upload_acts(mav_id, cap, rest);
        let acts = all_upload_acts(mav_id, cap, all);
        let was = all_upload_acts(mav_id, cap, rest);
        assert forall|m: int| 0 <= m < all.len() implies {
            let upload = #[trigger] all[m];
            &&& acts[2 * m] == Act::Send(setting(mav_id, upload.ident, cap, upload.value))
            &&& acts[2 * m + 1] == (Act::StartTimer {
                timer: upload.timer,
                mav_id,
                ident: upload.ident,
            })
        } by {
            if m < rest.len() {
                assert(rest[m] == all[m]);
                assert(acts[2 * m] == was[2 * m]);
                assert(acts[2 * m + 1] == was[2 * m + 1]);
            } else {
                let last = upload_acts(mav_id, cap, all.last());
                assert(acts[2 * m] == last[0]);
                assert(acts[2 * m + 1] == last[1]);
            }
        }
    }
}

/// `message` sets a parameter of a vehicle to a value, packed bytewise where the
/// capability bits say that, and else by a cast.
pub open spec fn sets(
    message: Outgoing,
    mav_id: MavlinkId,
    ident: Ident,
    cap: u64,
    value: Value,
) -> bool {
    message matches Outgoing::ParamSet { target, param_id, param_value, param_type: ty } && {
        &&& target == mav_id
        &&& param_id == ident
        &&& ty == param_type(value)
        &&& cap & 16 == 16 ==> param_value == bytewise_bits(value) as u32
        &&& cap & 16 != 16 ==> param_value == c_cast_bits(value) as u32
    }
}

/// Over a connection to a vehicle that packs values bytewise or by casts, uploading all sends
/// one message for each changed parameter, in order, which sets it to the value that it is
/// changed to, and starts a timer of its own for each. No parameter is changed then: those are on their
/// way, each with its timer and the value of the vehicle, and the others are as they were.
pub proof fn law_upload_all<F: Fn(u32) -> String>(
    real_text: F,
    s: Station,
    k: int,
    mav_id: MavlinkId,
    v: VehicleState,
    cap: u64,
    t: Station,
    called_for: Seq<Act>,
)
    requires
        consistent(s),
        stands_at(s, k, mav_id, v),
        s.connected,
        v.capabilities == Some(cap),
        cap & 16 == 16 || cap & 131072 == 131072,
        updates(real_text, s, ParameterMessage::UploadAll(mav_id), t, called_for),
    ensures
        ({
            let places = changed_places(v.parameters);
            let after = t.vehicles[k].1.parameters;
            &&& called_for.len() == 2 * places.len()
            &&& forall|m: int|
                0 <= m < places.len() ==> {
                    let entry = v.parameters[#[trigger] places[m]];
                    &&& entry.1.state matches ParamState::Changed(value)
                        && called_for[2 * m] matches Act::Send(message) && sets(
                        message,
                        mav_id,
                        entry.0,
                        cap,
                        value,
                    )
                    &&& called_for[2 * m + 1] matches Act::StartTimer {
                        timer,
                        mav_id: id,
                        ident,
                    } && id == mav_id && ident == entry.0 && after[places[m]].1.state
                        == ParamState::Uploading(timer, entry.1.value) && timer.0 == (s.next_timer
                        + m) % 0x1_0000_0000_0000_0000
                }
            &&& t.next_timer == (s.next_timer + places.len()) % 0x1_0000_0000_0000_0000
            &&& after.len() == v.parameters.len()
            &&& forall|i: int|
                0 <= i < after.len() ==> {
                    &&& (#[trigger] after[i]).0 == v.parameters[i].0
                    &&& after[i].1.value == v.parameters[i].1.value
                    &&& after[i].1.editing == v.parameters[i].1.editing
                    &&& !(after[i].1.state is Changed)
                    &&& !(v.parameters[i].1.state is Changed) ==> after[i] == v.parameters[i]
                }
            &&& t.vehicles == reparametered(s, k, after)
            &&& t == (Station { vehicles: t.vehicles, next_timer: t.next_timer, ..s })
        }),
{
    lemma_stands_at(s, k, mav_id, v);
    let entries = v.parameters;
    let first = s.next_timer;
    let all = uploads(entries, first);
    lemma_changed_places(entries);
    lemma_uploads(entries, first);
    lemma_upload_acts(mav_id, cap, all);
    let places = changed_places(entries);
    assert forall|m: int| 0 <= m < places.len() implies {
        let entry = v.parameters[#[trigger] places[m]];
        &&& entry.1.state matches ParamState::Changed(value)
            && called_for[2 * m] matches Act::Send(message) && sets(
            message,
            mav_id,
            entry.0,
            cap,
            value,
        )
        &&& called_for[2 * m + 1] matches Act::StartTimer { timer, mav_id: id, ident } && id
            == mav_id && ident == entry.0 && t.vehicles[k].1.parameters[places[m]].1.state
            == ParamState::Uploading(timer, entry.1.value) && timer.0 == (s.next_timer + m)
            % 0x1_0000_0000_0000_0000
    } by {
        let upload = all[m];
        let i = places[m];
        assert(uploads(entries, first)[m] == upload);
        assert(called_for[2 * m] == Act::Send(setting(mav_id, upload.ident, cap, upload.value)));
        assert(entries[i].1.state is Changed);
    }
}

/// Where no connection stands, or the vehicle is not known, uploading all does nothing.
pub proof fn law_upload_all_needs_a_connection<F: Fn(u32) -> String>(
    real_text: F,
    s: Station,
    mav_id: MavlinkId,
    t: Station,
    called_for: Seq<Act>,
)
    requires
        !s.connected || stranger(s, mav_id),
        updates(real_text, s, ParameterMessage::UploadAll(mav_id), t, called_for),
    ensures
        t == s,
        called_for.len() == 0,
{
    if stranger(s, mav_id) {
        lemma_stranger(s, mav_id);
    }
}

/// Where it is not known how the vehicle packs values, uploading all sends nothing and
/// starts no timer; the first changed parameter alone is marked as on its way.
pub proof fn law_upload_all_needs_a_packing<F: Fn(u32) -> String>(
    real_text: F,
    s: Station,
    k: int,
    mav_id: MavlinkId,
    v: VehicleState,
    t: Station,
    called_for: Seq<Act>,
    i: int,
)
    requires
        consistent(s),
        stands_at(s, k, mav_id, v),
        s.connected,
        v.capabilities matches Some(cap) ==> cap & 16 != 16 && cap & 131072 != 131072,
        updates(real_text, s, ParameterMessage::UploadAll(mav_id), t, called_for),
        0 <= i < v.parameters.len(),
    ensures
        called_for.len() == 0,
        t.vehicles == reparametered(s, k, t.vehicles[k].1.parameters),
        t == (Station { vehicles: t.vehicles, next_timer: t.next_timer, ..s }),
        ({
            let after = t.vehicles[k].1.parameters;
            let first = v.parameters[i].1.state is Changed && forall|j: int|
                0 <= j < i ==> !((#[trigger] v.parameters[j]).1.state is Changed);
            &&& first ==> t.next_timer == (s.next_timer + 1) % 0x1_0000_0000_0000_0000
            &&& after.len() == v.parameters.len()
            &&& first ==> after[i] == (
                v.parameters[i].0,
                Parameter {
                    state: ParamState::Uploading(TimerId(s.next_timer), v.parameters[i].1.value),
                    ..v.parameters[i].1
                },
            )
            &&& !first ==> after[i] == v.parameters[i]
        }),
{
    lemma_stands_at(s, k, mav_id, v);
    lemma_first_changed(v.parameters);
    lemma_first_is_first(v.parameters);
    lemma_uploads(v.parameters, 0);
    lemma_changed_places(v.parameters);
    if v.parameters[i].1.state is Changed {
        assert(changed_places(v.parameters).contains(i));
    }
}

proof fn lemma_first_is_first(entries: Seq<(Ident, Parameter)>)
    ensures
        ({
            let n = first_changed(entries);
            &&& forall|j: int| 0 <= j < n ==> !((#[trigger] entries[j]).1.state is Changed)
            &&& n < entries.len() ==> entries[n].1.state is Changed
        }),
    decreases entries.len(),
{
    if entries.len() > 0 && !(entries[0].1.state is Changed) {
        let rest = entries.skip(1);
        lemma_first_is_first(rest);
        lemma_first_changed(rest);
        let n = first_changed(entries);
        assert forall|j: int| 0 <= j < n implies !((#[trigger] entries[j]).1.state is Changed) by {
            if j > 0 {
                assert(rest[j - 1] == entries[j]);
            }
        }
        if n < entries.len() {
            assert(rest[n - 1] == entries[n]);
        }
    }
}

/// Uploading a value of one parameter sends it, packed as the vehicle packs values, starts
/// a timer, and marks that parameter as on its way with that timer; where the packing is
/// not known it is marked and nothing is sent. The other parameters stay, and so does all
/// else.
pub proof fn law_upload_one<F: Fn(u32) -> String>(
    real_text: F,
    s: Station,
    k: int,
    mav_id: MavlinkId,
    v: VehicleState,
    i: int,
    ident: Ident,
    p: Parameter,
    value: Value,
    t: Station,
    called_for: Seq<Act>,
)
    requires
        consistent(s),
        stands_at(s, k, mav_id, v),
        s.connected,
        holds_at(v.parameters, i, ident, p),
        updates(real_text, s, ParameterMessage::ValueUpload(mav_id, ident, value), t, called_for),
    ensures
        t.vehicles == reparametered(
            s,
            k,
            v.parameters.update(
                i,
                (
                    v.parameters[i].0,
                    Parameter {
                        state: ParamState::Uploading(TimerId(s.next_timer), p.value),
                        ..p
                    },
                ),
            ),
        ),
        t == (Station { vehicles: t.vehicles, next_timer: t.next_timer, ..s }),
        t.next_timer == (s.next_timer + 1) % 0x1_0000_0000_0000_0000,
        v.capabilities matches Some(cap) && (cap & 16 == 16 || cap & 131072 == 131072) ==> {
            &&& called_for.len() == 2
            &&& called_for[0] matches Act::Send(message) && sets(
                message,
                mav_id,
                ident,
                v.capabilities->0,
                value,
            )
            &&& called_for[1] == (Act::StartTimer { timer: TimerId(s.next_timer), mav_id, ident })
        },
        !(v.capabilities matches Some(cap) && (cap & 16 == 16 || cap & 131072 == 131072))
            ==> called_for.len() == 0,
{
    lemma_stands_at(s, k, mav_id, v);
    let timer = TimerId(s.next_timer);
    let change = |q: Parameter| uploading(q, timer);
    lemma_holds_at(v.parameters, i, ident, p, change);
}

/// Where no connection stands, or the parameter is not known, uploading a value does
/// nothing.
pub proof fn law_upload_one_needs_a_parameter<F: Fn(u32) -> String>(
    real_text: F,
    s: Station,
    k: int,
    mav_id: MavlinkId,
    v: VehicleState,
    ident: Ident,
    value: Value,
    t: Station,
    called_for: Seq<Act>,
)
    requires
        consistent(s),
        !s.connected || stranger(s, mav_id) || (stands_at(s, k, mav_id, v) && nameless(
            v.parameters,
            ident,
        )),
        updates(real_text, s, ParameterMessage::ValueUpload(mav_id, ident, value), t, called_for),
    ensures
        t == s,
        called_for.len() == 0,
{
    if stranger(s, mav_id) {
        lemma_stranger(s, mav_id);
    } else if s.connected {
        lemma_stands_at(s, k, mav_id, v);
        lemma_nameless(v.parameters, ident, |q: Parameter| q);
    }
}

/// An upload that takes too long is given up on: its timer is stopped, and its parameter is
/// changed to the value that the upload started from. A parameter that is not on its way
/// stays as it is.
pub proof fn law_uploads_time_out<F: Fn(u32) -> String>(
    real_text: F,
    s: Station,
    k: int,
    mav_id: MavlinkId,
    v: VehicleState,
    i: int,
    ident: Ident,
    p: Parameter,
    t: Station,
    called_for: Seq<Act>,
)
    requires
        consistent(s),
        stands_at(s, k, mav_id, v),
        holds_at(v.parameters, i, ident, p),
        updates(real_text, s, ParameterMessage::ValueUploadTimeout(mav_id, ident), t, called_for),
    ensures
        match p.state {
            ParamState::Uploading(timer, value) => {
                &&& called_for == seq![Act::AbortTimer(timer)]
                &&& t == (Station {
                    vehicles: reparametered(
                        s,
                        k,
                        v.parameters.update(
                            i,
                            (
                                v.parameters[i].0,
                                Parameter { state: ParamState::Changed(value), ..p },
                            ),
                        ),
                    ),
                    ..s
                })
            },
            _ => {
                &&& called_for.len() == 0
                &&& t.vehicles =~= s.vehicles
                &&& t == (Station { vehicles: t.vehicles, ..s })
            },
        },
{
    lemma_stands_at(s, k, mav_id, v);
    let change = |q: Parameter| timed_out(q);
    lemma_holds_at(v.parameters, i, ident, p, change);
    if !(p.state is Uploading) {
        assert(v.parameters.update(i, (v.parameters[i].0, p)) =~= v.parameters);
    }
}

// ---------------------------------------------------------------------------
// Editing
// ---------------------------------------------------------------------------

/// A text that is typed in stands in the field of its parameter, whatever it is. The
/// parameter is changed to the value that the text reads as, where it reads as one of its
/// type that differs from the value of the vehicle, and is unchanged otherwise, whatever it
/// was before. The other parameters stay, and nothing is sent.
pub proof fn law_typing_in<F: Fn(u32) -> String>(
    real_text: F,
    s: Station,
    k: int,
    mav_id: MavlinkId,
    v: VehicleState,
    i: int,
    ident: Ident,
    p: Parameter,
    text: String,
    number: Option<u32>,
    t: Station,
    called_for: Seq<Act>,
)
    requires
        consistent(s),
        stands_at(s, k, mav_id, v),
        holds_at(v.parameters, i, ident, p),
        updates(
            real_text,
            s,
            ParameterMessage::BufferEdit(mav_id, ident, text, number),
            t,
            called_for,
        ),
    ensures
        called_for.len() == 0,
        t == (Station { vehicles: t.vehicles, ..s }),
        t.vehicles == reparametered(s, k, t.vehicles[k].1.parameters),
        ({
            let after = t.vehicles[k].1.parameters;
            &&& after == v.parameters.update(i, after[i])
            &&& after[i].0 == v.parameters[i].0
            &&& after[i].1.value == p.value
            &&& after[i].1.editing == Some(text)
            &&& match value_reading(p.value, text@, number) {
                Some(value) => if equal_values(value, p.value) {
                    after[i].1.state is Unchanged
                } else {
                    after[i].1.state == ParamState::Changed(value)
                },
                None => after[i].1.state is Unchanged,
            }
        }),
{
    lemma_stands_at(s, k, mav_id, v);
    let change = |q: Parameter| edited(q, text, number);
    lemma_holds_at(v.parameters, i, ident, p, change);
}

/// Dropping what was typed in leaves a parameter as the vehicle reported it, whatever its
/// state was, with nothing in its field; the other parameters stay, and nothing is sent.
pub proof fn law_dropping<F: Fn(u32) -> String>(
    real_text: F,
    s: Station,
    k: int,
    mav_id: MavlinkId,
    v: VehicleState,
    i: int,
    ident: Ident,
    p: Parameter,
    t: Station,
    called_for: Seq<Act>,
)
    requires
        consistent(s),
        stands_at(s, k, mav_id, v),
        holds_at(v.parameters, i, ident, p),
        updates(real_text, s, ParameterMessage::ValueReset(mav_id, ident), t, called_for),
    ensures
        called_for.len() == 0,
        t == (Station { vehicles: t.vehicles, ..s }),
        t.vehicles == reparametered(
            s,
            k,
            v.parameters.update(
                i,
                (
                    v.parameters[i].0,
                    Parameter { value: p.value, state: ParamState::Unchanged, editing: None },
                ),
            ),
        ),
{
    lemma_stands_at(s, k, mav_id, v);
    let change = |q: Parameter| fresh(q.value);
    lemma_holds_at(v.parameters, i, ident, p, change);
}

/// Of a vehicle or a parameter that is not known nothing is edited, dropped or given up on.
pub proof fn law_unknown_parameters_stay_unknown<F: Fn(u32) -> String>(
    real_text: F,
    s: Station,
    k: int,
    mav_id: MavlinkId,
    v: VehicleState,
    ident: Ident,
    text: String,
    number: Option<u32>,
    message: ParameterMessage,
    t: Station,
    called_for: Seq<Act>,
)
    requires
        consistent(s),
        stranger(s, mav_id) || (stands_at(s, k, mav_id, v) && nameless(v.parameters, ident)),
        message == ParameterMessage::BufferEdit(mav_id, ident, text, number) || message
            == ParameterMessage::ValueReset(mav_id, ident) || message
            == ParameterMessage::ValueUploadTimeout(mav_id, ident),
        updates(real_text, s, message, t, called_for),
    ensures
        called_for.len() == 0,
        t.vehicles =~= s.vehicles,
        t == (Station { vehicles: t.vehicles, ..s }),
{
    if stranger(s, mav_id) {
        lemma_stranger(s, mav_id);
    } else {
        lemma_stands_at(s, k, mav_id, v);
        lemma_nameless(v.parameters, ident, |q: Parameter| edited(q, text, number));
        lemma_nameless(v.parameters, ident, |q: Parameter| fresh(q.value));
        lemma_nameless(v.parameters, ident, |q: Parameter| timed_out(q));
    }
}

// ---------------------------------------------------------------------------
// Reloading
// ---------------------------------------------------------------------------

/// Over a connection, a vehicle is asked for its parameters, and those that came in are
/// counted from none again. Where its capabilities are not known, it is asked for message
/// 148 first, in the same conversation; where they are known, for its parameters alone.
pub proof fn law_reloading<F: Fn(u32) -> String>(
    real_text: F,
    s: Station,
    k: int,
    mav_id: MavlinkId,
    v: VehicleState,
    t: Station,
    called_for: Seq<Act>,
)
    requires
        consistent(s),
        stands_at(s, k, mav_id, v),
        s.connected,
        updates(real_text, s, ParameterMessage::ListReload(mav_id), t, called_for),
    ensures
        t == (Station {
            vehicles: s.vehicles.update(
                k,
                (mav_id, VehicleState { has_loaded: Set::empty(), ..v }),
            ),
            ..s
        }),
        called_for.len() == 1,
        called_for[0] matches Act::Talk(steps) && {
            let list = Step::Send(Outgoing::ParamRequestList { target: mav_id });
            &&& v.capabilities is Some ==> steps == seq![list]
            &&& v.capabilities is None ==> {
                &&& steps.len() == 3
                &&& steps[0] matches Step::Send(
                    Outgoing::CommandInt { target, command, param1, .. },
                ) && target == mav_id && command == MavCmd::RequestMessage && param1 == 0x4314_0000
                &&& steps[1] == (Step::Sleep { millis: 100 })
                &&& steps[2] == list
            }
        },
{
    lemma_stands_at(s, k, mav_id, v);
    law_parameters_are_asked_for(mav_id);
}

/// Where no connection stands, or the vehicle is not known, reloading does nothing.
pub proof fn law_reloading_needs_a_connection<F: Fn(u32) -> String>(
    real_text: F,
    s: Station,
    mav_id: MavlinkId,
    t: Station,
    called_for: Seq<Act>,
)
    requires
        !s.connected || stranger(s, mav_id),
        updates(real_text, s, ParameterMessage::ListReload(mav_id), t, called_for),
    ensures
        t == s,
        called_for.len() == 0,
{
    if stranger(s, mav_id) {
        lemma_stranger(s, mav_id);
    }
}

// ---------------------------------------------------------------------------
// Files
// ---------------------------------------------------------------------------

/// `q` is what is in a file for a parameter of a name.
pub open spec fn filed(loaded: Seq<(Ident, Parameter)>, ident: Ident, q: Parameter) -> bool {
    exists|j: int| #[trigger] holds_at(loaded, j, ident, q)
}

/// A parameter next to what is in a file for it. Where the file has another value of the
/// same type, the parameter is changed to that value and shows its text, whatever its state
/// and its text were before; else it stays as it is.
pub proof fn law_merging<F: Fn(u32) -> String>(
    real_text: F,
    before: Seq<(Ident, Parameter)>,
    loaded: Seq<(Ident, Parameter)>,
    after: Seq<(Ident, Parameter)>,
    i: int,
    q: Parameter,
)
    requires
        sorted(loaded),
        merges_all(real_text, before, loaded, after),
        0 <= i < before.len(),
    ensures
        after.len() == before.len(),
        after[i].0 == before[i].0,
        after[i].1.value == before[i].1.value,
        filed(loaded, before[i].0, q) && param_type(q.value) == param_type(before[i].1.value)
            && !equal_values(before[i].1.value, q.value) ==> {
            &&& after[i].1.state == ParamState::Changed(q.value)
            &&& after[i].1.editing matches Some(text) && writes_value(real_text, q.value, text)
        },
        filed(loaded, before[i].0, q) && (param_type(q.value) != param_type(before[i].1.value)
            || equal_values(before[i].1.value, q.value)) ==> after[i] == before[i],
        nameless(loaded, before[i].0) ==> after[i] == before[i],
{
    let ident = before[i].0;
    assert(after[i].0 == before[i].0);
    if filed(loaded, ident, q) {
        let j = choose|j: int| #[trigger] holds_at(loaded, j, ident, q);
        lemma_holds_at(loaded, j, ident, q, |x: Parameter| x);
    }
    if nameless(loaded, ident) {
        lemma_nameless(loaded, ident, |x: Parameter| x);
    }
}

/// Loading a file for a vehicle changes its parameters as the file has them, keeps the
/// directory of the file, and leaves all else alone. A file that could not be read, or for
/// a vehicle that is not known, changes nothing.
pub proof fn law_loading<F: Fn(u32) -> String>(
    real_text: F,
    s: Station,
    k: int,
    mav_id: MavlinkId,
    v: VehicleState,
    loaded: Parameters,
    directory: Option<PathBuf>,
    t: Station,
    called_for: Seq<Act>,
)
    requires
        consistent(s),
        stands_at(s, k, mav_id, v),
        updates(
            real_text,
            s,
            ParameterMessage::Loaded(mav_id, Some(loaded), directory),
            t,
            called_for,
        ),
    ensures
        merges_all(real_text, v.parameters, loaded@.entries, t.vehicles[k].1.parameters),
        t.vehicles == reparametered(s, k, t.vehicles[k].1.parameters),
        directory is Some ==> t.configuration.file_picker_path == directory && called_for
            == seq![Act::WriteConfiguration],
        directory is None ==> t.configuration == s.configuration && called_for.len() == 0,
        t.configuration.link_config == s.configuration.link_config,
        t == (Station { vehicles: t.vehicles, configuration: t.configuration, ..s }),
{
    lemma_stands_at(s, k, mav_id, v);
}

/// A file that could not be read, or for a vehicle that is not known, changes nothing.
pub proof fn law_nothing_is_loaded<F: Fn(u32) -> String>(
    real_text: F,
    s: Station,
    mav_id: MavlinkId,
    loaded: Option<Parameters>,
    directory: Option<PathBuf>,
    t: Station,
    called_for: Seq<Act>,
)
    requires
        loaded is None || stranger(s, mav_id),
        updates(real_text, s, ParameterMessage::Loaded(mav_id, loaded, directory), t, called_for),
    ensures
        t == s,
        called_for.len() == 0,
{
    if stranger(s, mav_id) {
        lemma_stranger(s, mav_id);
    }
}

/// Dialogs are opened for what they are asked for, files are saved and loaded as they are
/// asked for, and nothing changes with that. A file is loaded for a vehicle only where it
/// is known.
pub proof fn law_files_are_asked_for<F: Fn(u32) -> String>(
    real_text: F,
    s: Station,
    k: int,
    v: VehicleState,
    mav_id: MavlinkId,
    path: PathBuf,
    parameters: Parameters,
    message: ParameterMessage,
    t: Station,
    called_for: Seq<Act>,
)
    requires
        consistent(s),
        updates(real_text, s, message, t, called_for),
    ensures
        message == ParameterMessage::SaveDialog(parameters) ==> t == s && called_for
            == seq![Act::OpenSaveDialog(parameters@)],
        message == ParameterMessage::SaveToFile(path, parameters) ==> t == s && called_for
            == seq![Act::SaveFile(path, parameters@)],
        message == ParameterMessage::LoadDialog(mav_id) ==> t == s && called_for
            == seq![Act::OpenLoadDialog(mav_id)],
        message == ParameterMessage::LoadFromFile(path, mav_id) && stands_at(s, k, mav_id, v) ==> t
            == s && called_for == seq![Act::LoadFile(path, mav_id)],
        message == ParameterMessage::LoadFromFile(path, mav_id) && stranger(s, mav_id) ==> t == s
            && called_for.len() == 0,
{
    if stands_at(s, k, mav_id, v) {
        lemma_stands_at(s, k, mav_id, v);
    }
    if stranger(s, mav_id) {
        lemma_stranger(s, mav_id);
    }
}

/// The directory that a file was saved to is kept in the configuration, which is written;
/// all else stays.
pub proof fn law_directories_are_kept<F: Fn(u32) -> String>(
    real_text: F,
    s: Station,
    directory: Option<PathBuf>,
    t: Station,
    called_for: Seq<Act>,
)
    requires
        updates(real_text, s, ParameterMessage::Saved(directory), t, called_for),
    ensures
        directory is Some ==> t.configuration.file_picker_path == directory && called_for
            == seq![Act::WriteConfiguration],
        directory is None ==> t == s && called_for.len() == 0,
        t.configuration.link_config == s.configuration.link_config,
        t == (Station { configuration: t.configuration, ..s }),
{
}

} // verus!
