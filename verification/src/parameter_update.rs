//! What happens to the parameters of vehicles.

use crate::application::{
    acts, consistent, lemma_fleet, lemma_same_vehicle, lemma_vehicle_valid, lemma_with_vehicle,
    no_actions, one_action, push_action, refreshed, vehicle_of, with_vehicle, Act, Action,
    Application, ParameterMessage, Settings, Station,
};
use crate::command::{reload, request_parameters, Outgoing};
use crate::file_text::{
    law_saved_file_loads, loads_file, plain_ident, writes_file, writes_plainly, FileError,
};
use crate::ident::{fits_ident, lemma_mavlink_rank, Ident, MavlinkId};
use crate::parameter_file::{
    faithful, law_file_round_trip, lines, loaded, reads_lines, saved, writes_all,
};
use crate::parameters::{
    all_uploading, changed_count, edited, first_uploading, fresh, law_own_file_is_no_change,
    lemma_first_changed, merges_all, next_timer, replaced, same_values, timed_out, timer_behind,
    uploading, uploads, ParamState, Parameter, Parameters, TimerId, Upload,
};
use crate::sorted::{law_with_entry, lemma_key_once, ranks, sorted, value_at, Key};
use crate::text::{has_text, lemma_position_of};
use crate::value::{equal_values, from_value, packed_bits, packing_known, packs, param_type, Value};
use crate::vehicle::VehicleState;
use std::path::PathBuf;
use vstd::prelude::*;
use vstd::utf8::encode_utf8;

verus! {

// ---------------------------------------------------------------------------
// What becomes of the station
// ---------------------------------------------------------------------------

/// The message that sets a parameter to a value, packed for a vehicle with the
/// capability bits `cap`.
pub open spec fn setting(mav_id: MavlinkId, ident: Ident, cap: u64, value: Value) -> Outgoing {
    Outgoing::ParamSet {
        target: mav_id,
        param_id: ident,
        param_value: packed_bits(cap, value) as u32,
        param_type: param_type(value),
    }
}

/// What an upload calls for.
pub open spec fn upload_acts(mav_id: MavlinkId, cap: u64, upload: Upload) -> Seq<Act> {
    seq![
        Act::Send(setting(mav_id, upload.ident, cap, upload.value)),
        Act::StartTimer { timer: upload.timer, mav_id, ident: upload.ident },
    ]
}

/// What some uploads call for.
pub open spec fn all_upload_acts(mav_id: MavlinkId, cap: u64, all: Seq<Upload>) -> Seq<Act>
    decreases all.len(),
{
    if all.len() == 0 {
        Seq::empty()
    } else {
        all_upload_acts(mav_id, cap, all.drop_last()) + upload_acts(mav_id, cap, all.last())
    }
}

/// The capability bits of a vehicle, where they are known and say how values are
/// packed.
pub open spec fn packing_of(v: VehicleState) -> Option<u64> {
    match v.capabilities {
        Some(cap) => if packing_known(cap) {
            Some(cap)
        } else {
            None
        },
        None => None,
    }
}

/// The station with one parameter of a vehicle replaced, where there is one.
pub open spec fn with_change(
    s: Station,
    mav_id: MavlinkId,
    ident: Ident,
    change: spec_fn(Parameter) -> Parameter,
) -> Station {
    match vehicle_of(s, mav_id) {
        Some(v) => with_vehicle(
            s,
            mav_id,
            VehicleState { parameters: replaced(v.parameters, ident, change), ..v },
        ),
        None => s,
    }
}

/// A parameter of a vehicle.
pub open spec fn parameter_of(s: Station, mav_id: MavlinkId, ident: Ident) -> Option<Parameter> {
    match vehicle_of(s, mav_id) {
        Some(v) => value_at(v.parameters, ident.rank()),
        None => None,
    }
}

/// A vehicle is asked for its parameters, where a connection stands.
pub open spec fn after_reload(s: Station, mav_id: MavlinkId) -> (Station, Seq<Act>) {
    match vehicle_of(s, mav_id) {
        Some(v) => if s.connected {
            (
                with_vehicle(s, mav_id, VehicleState { has_loaded: Set::empty(), ..v }),
                seq![Act::Talk(reload(mav_id, v.capabilities is None))],
            )
        } else {
            (s, Seq::empty())
        },
        None => (s, Seq::empty()),
    }
}

/// All changed parameters are on their way, where a connection stands and it is known
/// how to pack them. Where that is not known, the first one is marked as on its way,
/// with a timer that is never started, and nothing is sent.
pub open spec fn after_upload_all(s: Station, mav_id: MavlinkId) -> (Station, Seq<Act>) {
    match vehicle_of(s, mav_id) {
        Some(v) => if !s.connected {
            (s, Seq::empty())
        } else {
            match packing_of(v) {
                Some(cap) => (
                    Station {
                        next_timer: timer_behind(s.next_timer, changed_count(v.parameters)),
                        ..with_vehicle(
                            s,
                            mav_id,
                            VehicleState {
                                parameters: all_uploading(v.parameters, s.next_timer),
                                ..v
                            },
                        )
                    },
                    all_upload_acts(mav_id, cap, uploads(v.parameters, s.next_timer)),
                ),
                None => (
                    Station {
                        next_timer: if changed_count(v.parameters) > 0 {
                            timer_behind(s.next_timer, 1)
                        } else {
                            s.next_timer
                        },
                        ..with_vehicle(
                            s,
                            mav_id,
                            VehicleState {
                                parameters: first_uploading(v.parameters, s.next_timer),
                                ..v
                            },
                        )
                    },
                    Seq::empty(),
                ),
            }
        },
        None => (s, Seq::empty()),
    }
}

/// A parameter is on its way with a value, where a connection stands. Where it is not
/// known how to pack the value, the parameter is marked all the same, with a timer
/// that is never started, and nothing is sent.
pub open spec fn after_upload(s: Station, mav_id: MavlinkId, ident: Ident, value: Value) -> (
    Station,
    Seq<Act>,
) {
    if s.connected && parameter_of(s, mav_id, ident) is Some {
        let timer = TimerId(s.next_timer);
        let v = vehicle_of(s, mav_id)->0;
        (
            Station {
                next_timer: timer_behind(s.next_timer, 1),
                ..with_change(s, mav_id, ident, |p: Parameter| uploading(p, timer))
            },
            match packing_of(v) {
                Some(cap) => upload_acts(mav_id, cap, Upload { ident, value, timer }),
                None => Seq::empty(),
            },
        )
    } else {
        (s, Seq::empty())
    }
}

/// An upload that is under way is given up on, and its timer stopped.
pub open spec fn after_timeout(s: Station, mav_id: MavlinkId, ident: Ident) -> (Station, Seq<Act>) {
    (
        with_change(s, mav_id, ident, |p: Parameter| timed_out(p)),
        match parameter_of(s, mav_id, ident) {
            Some(p) => match p.state {
                ParamState::Uploading(timer, _) => seq![Act::AbortTimer(timer)],
                _ => Seq::empty(),
            },
            None => Seq::empty(),
        },
    )
}

/// The station after something happened to parameters, and what that calls for. The
/// one thing that is not told here is what becomes of a file that was loaded: see
/// `after_loaded`.
pub open spec fn after_parameter(s: Station, message: ParameterMessage) -> (Station, Seq<Act>) {
    match message {
        ParameterMessage::FilterBuf(buffer) => (
            refreshed(Station { parameter_filter: buffer@, ..s }),
            Seq::empty(),
        ),
        ParameterMessage::ListReload(mav_id) => after_reload(s, mav_id),
        ParameterMessage::UploadAll(mav_id) => after_upload_all(s, mav_id),
        ParameterMessage::BufferEdit(mav_id, ident, buffer, number) => (
            with_change(s, mav_id, ident, |p: Parameter| edited(p, buffer, number)),
            Seq::empty(),
        ),
        ParameterMessage::ValueReset(mav_id, ident) => (
            with_change(s, mav_id, ident, |p: Parameter| fresh(p.value)),
            Seq::empty(),
        ),
        ParameterMessage::ValueUpload(mav_id, ident, value) => after_upload(
            s,
            mav_id,
            ident,
            value,
        ),
        ParameterMessage::ValueUploadTimeout(mav_id, ident) => after_timeout(s, mav_id, ident),
        ParameterMessage::SaveDialog(parameters) => (s, seq![Act::OpenSaveDialog(parameters@)]),
        ParameterMessage::SaveToFile(path, parameters) => (
            s,
            seq![Act::SaveFile(path, parameters@)],
        ),
        ParameterMessage::LoadDialog(mav_id) => (s, seq![Act::OpenLoadDialog(mav_id)]),
        ParameterMessage::LoadFromFile(path, mav_id) => (
            s,
            if vehicle_of(s, mav_id) is Some {
                seq![Act::LoadFile(path, mav_id)]
            } else {
                Seq::empty()
            },
        ),
        ParameterMessage::Saved(directory) => (
            with_directory(s, directory),
            directory_acts(directory),
        ),
        ParameterMessage::Loaded(_, _, _) => (s, Seq::empty()),
    }
}

/// The station with the directory that a file was picked from.
pub open spec fn with_directory(s: Station, directory: Option<PathBuf>) -> Station {
    if directory is Some {
        Station {
            configuration: Settings { file_picker_path: directory, ..s.configuration },
            ..s
        }
    } else {
        s
    }
}

pub open spec fn directory_acts(directory: Option<PathBuf>) -> Seq<Act> {
    if directory is Some {
        seq![Act::WriteConfiguration]
    } else {
        Seq::empty()
    }
}

/// `t` is the station after a file with parameters was loaded for a vehicle: those
/// parameters of the vehicle are changed of which the file has other values.
pub open spec fn after_loaded<F: Fn(u32) -> String>(
    real_text: F,
    s: Station,
    mav_id: MavlinkId,
    loaded: Seq<(Ident, Parameter)>,
    directory: Option<PathBuf>,
    t: Station,
) -> bool {
    match vehicle_of(s, mav_id) {
        Some(v) => exists|merged: Seq<(Ident, Parameter)>| #[trigger]
            merges_all(real_text, v.parameters, loaded, merged) && t == with_directory(
                with_vehicle(s, mav_id, VehicleState { parameters: merged, ..v }),
                directory,
            ),
        None => t == s,
    }
}

/// `t` is the station after something happened to parameters, and `called_for` is what
/// that calls for.
pub open spec fn updates<F: Fn(u32) -> String>(
    real_text: F,
    s: Station,
    message: ParameterMessage,
    t: Station,
    called_for: Seq<Act>,
) -> bool {
    match message {
        ParameterMessage::Loaded(mav_id, Some(loaded), directory) => {
            &&& after_loaded(real_text, s, mav_id, loaded@.entries, directory, t)
            &&& called_for == if vehicle_of(s, mav_id) is Some {
                directory_acts(directory)
            } else {
                Seq::empty()
            }
        },
        _ => (t, called_for) == after_parameter(s, message),
    }
}

// ---------------------------------------------------------------------------
// The station at work
// ---------------------------------------------------------------------------

/// The directory that a picked path stands for: the path itself where it is a
/// directory, else its parent.
pub fn picked_directory(path: PathBuf, is_dir: bool, parent: Option<PathBuf>) -> (r: Option<PathBuf>)
    ensures
        r == if is_dir {
            Some(path)
        } else {
            parent
        },
{
    if is_dir {
        Some(path)
    } else {
        parent
    }
}

/// What the choice of a file to save parameters to calls for: nothing where the choice was
/// called off.
pub fn save_choice(choice: Option<PathBuf>, parameters: Parameters) -> (r: Option<ParameterMessage>)
    ensures
        r == match choice {
            Some(path) => Some(ParameterMessage::SaveToFile(path, parameters)),
            None => None,
        },
{
    match choice {
        Some(path) => Some(ParameterMessage::SaveToFile(path, parameters)),
        None => None,
    }
}

/// What the choice of a file to load for a vehicle calls for: nothing where the choice was
/// called off.
pub fn load_choice(choice: Option<PathBuf>, mav_id: MavlinkId) -> (r: Option<ParameterMessage>)
    ensures
        r == match choice {
            Some(path) => Some(ParameterMessage::LoadFromFile(path, mav_id)),
            None => None,
        },
{
    match choice {
        Some(path) => Some(ParameterMessage::LoadFromFile(path, mav_id)),
        None => None,
    }
}

impl Application {
    /// Keeps the directory that a file was picked from.
    pub fn set_file_picker_path_config(&mut self, directory: Option<PathBuf>) -> (r: Vec<Action>)
        requires
            old(self).wf(),
        ensures
            final(self).wf(),
            final(self)@ == with_directory(old(self)@, directory),
            acts(r@) == directory_acts(directory),
    {
        match directory {
            Some(path) => {
                self.configuration.file_picker_path = Some(path);
                assert(self@ =~= with_directory(old(self)@, directory));
                one_action(Action::WriteConfiguration)
            },
            None => no_actions(),
        }
    }

    fn reload_list(&mut self, mav_id: MavlinkId) -> (r: Vec<Action>)
        requires
            old(self).wf(),
        ensures
            final(self).wf(),
            (final(self)@, acts(r@)) == after_reload(old(self)@, mav_id),
    {
        if !self.connected {
            return no_actions();
        }
        let ghost s = self@;
        match self.vehicle_mut(mav_id) {
            Some(vehicle) => {
                let get_capabilities = vehicle.capabilities.is_none();
                vehicle.parameters.begin_loading();
                proof {
                    lemma_with_vehicle(
                        s,
                        mav_id,
                        VehicleState { has_loaded: Set::empty(), ..vehicle_of(s, mav_id)->0 },
                    );
                }
                one_action(Action::Talk(request_parameters(mav_id, get_capabilities)))
            },
            None => no_actions(),
        }
    }

    /// Adds what an upload calls for.
    fn push_upload(
        actions: &mut Vec<Action>,
        mav_id: MavlinkId,
        cap: u64,
        ident: &Ident,
        value: Value,
        timer: TimerId,
    )
        requires
            packing_known(cap),
        ensures
            acts(final(actions)@) == acts(old(actions)@) + upload_acts(
                mav_id,
                cap,
                (Upload { ident: *ident, value, timer }),
            ),
    {
        match from_value(cap, value) {
            Some((param_value, param_type)) => {
                push_action(
                    actions,
                    Action::Send(
                        Outgoing::ParamSet {
                            target: mav_id,
                            param_id: ident.clone(),
                            param_value,
                            param_type,
                        },
                    ),
                );
                push_action(actions, Action::StartTimer { timer, mav_id, ident: ident.clone() });
                assert(acts(actions@) =~= acts(old(actions)@) + upload_acts(
                    mav_id,
                    cap,
                    Upload { ident: *ident, value, timer },
                ));
            },
            None => {},
        }
    }

    fn upload_all(&mut self, mav_id: MavlinkId) -> (r: Vec<Action>)
        requires
            old(self).wf(),
        ensures
            final(self).wf(),
            (final(self)@, acts(r@)) == after_upload_all(old(self)@, mav_id),
    {
        if !self.connected {
            return no_actions();
        }
        let ghost s = self@;
        let first = self.next_timer;
        let mut timer: u64 = first;
        let mut actions = no_actions();
        match self.vehicle_mut(mav_id) {
            Some(vehicle) => {
                let ghost v = vehicle@;
                let known: Option<u64> = match vehicle.capabilities {
                    Some(cap) => if packs(cap) {
                        Some(cap)
                    } else {
                        None
                    },
                    None => None,
                };
                match known {
                    Some(cap) => {
                        let all = vehicle.parameters.start_uploads(first);
                        let mut i: usize = 0;
                        assert(all@.take(0) =~= Seq::empty());
                        while i < all.len()
                            invariant
                                i <= all@.len(),
                                packing_known(cap),
                                acts(actions@) == all_upload_acts(mav_id, cap, all@.take(i as int)),
                                timer == timer_behind(first, i as int),
                            decreases all@.len() - i,
                        {
                            let upload = &all[i];
                            assert(all@.take(i as int + 1).drop_last() =~= all@.take(i as int));
                            Self::push_upload(
                                &mut actions,
                                mav_id,
                                cap,
                                &upload.ident,
                                upload.value,
                                upload.timer,
                            );
                            timer = next_timer(timer);
                            i += 1;
                        }
                        assert(all@.take(all@.len() as int) =~= all@);
                        proof {
                            lemma_with_vehicle(
                                s,
                                mav_id,
                                VehicleState { parameters: all_uploading(v.parameters, first), ..v },
                            );
                        }
                    },
                    None => {
                        if vehicle.parameters.start_first_upload(first) {
                            timer = next_timer(first);
                        }
                        proof {
                            lemma_with_vehicle(
                                s,
                                mav_id,
                                VehicleState { parameters: first_uploading(v.parameters, first), ..v },
                            );
                        }
                    },
                }
            },
            None => {},
        }
        self.next_timer = timer;
        assert(self@ =~= after_upload_all(s, mav_id).0);
        actions
    }

    fn upload(&mut self, mav_id: MavlinkId, ident: Ident, value: Value) -> (r: Vec<Action>)
        requires
            old(self).wf(),
        ensures
            final(self).wf(),
            (final(self)@, acts(r@)) == after_upload(old(self)@, mav_id, ident, value),
    {
        if !self.connected {
            return no_actions();
        }
        let ghost s = self@;
        let timer = TimerId(self.next_timer);
        let mut actions = no_actions();
        let mut found = false;
        match self.vehicle_mut(mav_id) {
            Some(vehicle) => {
                let ghost v = vehicle@;
                proof {
                    lemma_same_vehicle(s, mav_id);
                }
                found = vehicle.parameters.start_upload(&ident, timer);
                if found {
                    match vehicle.capabilities {
                        Some(cap) => {
                            if packs(cap) {
                                Self::push_upload(&mut actions, mav_id, cap, &ident, value, timer);
                            }
                        },
                        None => {},
                    }
                }
                proof {
                    lemma_with_vehicle(
                        s,
                        mav_id,
                        VehicleState {
                            parameters: replaced(
                                v.parameters,
                                ident,
                                |p: Parameter| uploading(p, timer),
                            ),
                            ..v
                        },
                    );
                }
            },
            None => {},
        }
        if found {
            self.next_timer = next_timer(self.next_timer);
        }
        actions
    }

    fn edit(&mut self, mav_id: MavlinkId, ident: Ident, buffer: String, number: Option<u32>)
        requires
            old(self).wf(),
        ensures
            final(self).wf(),
            final(self)@ == with_change(
                old(self)@,
                mav_id,
                ident,
                |p: Parameter| edited(p, buffer, number),
            ),
    {
        let ghost s = self@;
        match self.vehicle_mut(mav_id) {
            Some(vehicle) => {
                let ghost v = vehicle@;
                vehicle.parameters.edit(&ident, buffer, number);
                proof {
                    let change = |p: Parameter| edited(p, buffer, number);
                    let entries = replaced(v.parameters, ident, change);
                    lemma_with_vehicle(s, mav_id, VehicleState { parameters: entries, ..v });
                }
            },
            None => {},
        }
    }

    fn reset(&mut self, mav_id: MavlinkId, ident: Ident)
        requires
            old(self).wf(),
        ensures
            final(self).wf(),
            final(self)@ == with_change(old(self)@, mav_id, ident, |p: Parameter| fresh(p.value)),
    {
        let ghost s = self@;
        match self.vehicle_mut(mav_id) {
            Some(vehicle) => {
                let ghost v = vehicle@;
                vehicle.parameters.reset(&ident);
                proof {
                    let change = |p: Parameter| fresh(p.value);
                    let entries = replaced(v.parameters, ident, change);
                    lemma_with_vehicle(s, mav_id, VehicleState { parameters: entries, ..v });
                }
            },
            None => {},
        }
    }

    fn time_out(&mut self, mav_id: MavlinkId, ident: Ident) -> (r: Vec<Action>)
        requires
            old(self).wf(),
        ensures
            final(self).wf(),
            (final(self)@, acts(r@)) == after_timeout(old(self)@, mav_id, ident),
    {
        let ghost s = self@;
        match self.vehicle_mut(mav_id) {
            Some(vehicle) => {
                let ghost v = vehicle@;
                let timer = vehicle.parameters.time_out(&ident);
                proof {
                    let change = |p: Parameter| timed_out(p);
                    let entries = replaced(v.parameters, ident, change);
                    lemma_with_vehicle(s, mav_id, VehicleState { parameters: entries, ..v });
                }
                match timer {
                    Some(timer) => one_action(Action::AbortTimer(timer)),
                    None => no_actions(),
                }
            },
            None => no_actions(),
        }
    }

    fn take_loaded<F: Fn(u32) -> String>(
        &mut self,
        mav_id: MavlinkId,
        loaded: Parameters,
        directory: Option<PathBuf>,
        real_text: &F,
    ) -> (r: Vec<Action>)
        requires
            old(self).wf(),
            forall|bits: u32| call_requires(*real_text, (bits,)),
        ensures
            final(self).wf(),
            after_loaded(
                *real_text,
                old(self)@,
                mav_id,
                loaded@.entries,
                directory,
                final(self)@,
            ),
            acts(r@) == if vehicle_of(old(self)@, mav_id) is Some {
                directory_acts(directory)
            } else {
                Seq::empty()
            },
    {
        let ghost s = self@;
        match self.vehicle_mut(mav_id) {
            Some(vehicle) => {
                let ghost v = vehicle@;
                vehicle.parameters.merge(&loaded, real_text);
                let ghost merged = vehicle@.parameters;
                proof {
                    lemma_with_vehicle(s, mav_id, VehicleState { parameters: merged, ..v });
                }
                assert(merges_all(*real_text, v.parameters, loaded@.entries, merged));
                self.set_file_picker_path_config(directory)
            },
            None => no_actions(),
        }
    }

    /// Takes over what happened to parameters. Singles are written by `real_text`.
    pub fn parameter_message_update<F: Fn(u32) -> String>(
        &mut self,
        message: ParameterMessage,
        real_text: &F,
    ) -> (r: Vec<Action>)
        requires
            old(self).wf(),
            forall|bits: u32| call_requires(*real_text, (bits,)),
        ensures
            final(self).wf(),
            updates(*real_text, old(self)@, message, final(self)@, acts(r@)),
    {
        match message {
            ParameterMessage::FilterBuf(buffer) => {
                if !has_text(buffer.as_str()) {
                    self.parameter_filtered = None;
                }
                self.parameter_filter = buffer;
                self.refresh_filtered_parameter();
                assert(self@ =~= after_parameter(old(self)@, message).0);
                no_actions()
            },
            ParameterMessage::ListReload(mav_id) => self.reload_list(mav_id),
            ParameterMessage::UploadAll(mav_id) => self.upload_all(mav_id),
            ParameterMessage::BufferEdit(mav_id, ident, buffer, number) => {
                self.edit(mav_id, ident, buffer, number);
                no_actions()
            },
            ParameterMessage::ValueReset(mav_id, ident) => {
                self.reset(mav_id, ident);
                no_actions()
            },
            ParameterMessage::ValueUpload(mav_id, ident, value) => self.upload(mav_id, ident, value),
            ParameterMessage::ValueUploadTimeout(mav_id, ident) => self.time_out(mav_id, ident),
            ParameterMessage::SaveDialog(parameters) => one_action(
                Action::OpenSaveDialog(parameters),
            ),
            ParameterMessage::SaveToFile(path, parameters) => one_action(
                Action::SaveFile(path, parameters),
            ),
            ParameterMessage::Saved(directory) => self.set_file_picker_path_config(directory),
            ParameterMessage::LoadDialog(mav_id) => one_action(Action::OpenLoadDialog(mav_id)),
            ParameterMessage::LoadFromFile(path, mav_id) => {
                proof {
                    lemma_fleet(self.vehicles.entries@, mav_id);
                }
                if self.vehicles.contains_key(&mav_id) {
                    one_action(Action::LoadFile(path, mav_id))
                } else {
                    no_actions()
                }
            },
            ParameterMessage::Loaded(mav_id, loaded, directory) => match loaded {
                Some(loaded) => self.take_loaded(mav_id, loaded, directory, real_text),
                None => no_actions(),
            },
        }
    }
}

// ---------------------------------------------------------------------------
// Laws
// ---------------------------------------------------------------------------

/// Saving the parameters of a vehicle and loading the file for that vehicle changes
/// nothing, but for values that do not equal themselves.
pub proof fn law_save_and_load<
    F: Fn(u32) -> String,
    G: Fn(&str) -> Option<u32>,
    H: Fn(&str) -> Ident,
>(
    real_text: F,
    read_real: G,
    ident_of: H,
    entries: Seq<(Ident, Parameter)>,
    texts: Seq<String>,
    idents: Seq<Ident>,
    values: Seq<Option<Value>>,
    file: Seq<(Ident, Parameter)>,
    after: Seq<(Ident, Parameter)>,
)
    requires
        sorted(entries),
        forall|j: int| 0 <= j < entries.len() ==> fits_ident(#[trigger] entries[j].0@),
        forall|j: int|
            0 <= j < entries.len() ==> equal_values(
                (#[trigger] entries[j]).1.value,
                entries[j].1.value,
            ),
        faithful(real_text, read_real, ident_of, entries),
        writes_all(real_text, entries, texts),
        reads_lines(ident_of, read_real, lines(saved(entries, texts, '.')), idents, values),
        forall|key: Seq<int>| #[trigger] value_at(file, key) == loaded(idents, values, key),
        merges_all(real_text, entries, file, after),
    ensures
        after == entries,
{
    assert forall|j: int| 0 <= j < entries.len() implies (value_at(
        file,
        (#[trigger] entries[j]).0.rank(),
    ) matches Some(p) ==> p.value == entries[j].1.value) && equal_values(
        entries[j].1.value,
        entries[j].1.value,
    ) by {
        let key = entries[j].0.rank();
        law_file_round_trip(
            real_text,
            read_real,
            ident_of,
            entries,
            texts,
            idents,
            values,
            key,
        );
        lemma_key_once(entries, j, key);
    }
    law_own_file_is_no_change(real_text, entries, file, after);
}

/// Saving the parameters of a vehicle to a file and loading that file for the vehicle
/// changes nothing, but for values that do not equal themselves. The names are plain, as
/// are the texts of singles.
pub proof fn law_own_file_changes_nothing<
    F: Fn(u32) -> String,
    G: Fn(&str) -> Option<u32>,
    H: Fn(&str) -> Ident,
>(
    real_text: F,
    read_real: G,
    ident_of: H,
    entries: Seq<(Ident, Parameter)>,
    text: Seq<char>,
    r: Result<Parameters, FileError>,
    after: Seq<(Ident, Parameter)>,
)
    requires
        sorted(entries),
        forall|j: int| 0 <= j < entries.len() ==> fits_ident(#[trigger] entries[j].0@),
        forall|j: int| 0 <= j < entries.len() ==> plain_ident(#[trigger] entries[j].0@, '.'),
        forall|j: int|
            0 <= j < entries.len() ==> equal_values(
                (#[trigger] entries[j]).1.value,
                entries[j].1.value,
            ),
        faithful(real_text, read_real, ident_of, entries),
        writes_plainly(real_text, entries),
        writes_file(real_text, entries, '.', text),
        loads_file(ident_of, read_real, encode_utf8(text), r),
        r matches Ok(p) ==> merges_all(real_text, entries, p.map.entries@, after),
    ensures
        r is Ok,
        after == entries,
{
    law_saved_file_loads(real_text, read_real, ident_of, entries, text, r);
    let p = r->Ok_0;
    let file = p.map.entries@;
    assert forall|j: int| 0 <= j < entries.len() implies (value_at(
        file,
        (#[trigger] entries[j]).0.rank(),
    ) matches Some(p) ==> p.value == entries[j].1.value) && equal_values(
        entries[j].1.value,
        entries[j].1.value,
    ) by {
        let key = entries[j].0.rank();
        assert(p.map.at(key) == value_at(file, key));
        lemma_key_once(entries, j, key);
    }
    law_own_file_is_no_change(real_text, entries, file, after);
}

/// An upload that times out leaves the parameter changed to the value that the vehicle
/// had, and stops the timer that the upload started.
pub proof fn law_upload_times_out(s: Station, mav_id: MavlinkId, ident: Ident, value: Value)
    requires
        consistent(s),
        s.connected,
        parameter_of(s, mav_id, ident) is Some,
    ensures
        ({
            let p = parameter_of(s, mav_id, ident)->0;
            let (t, _) = after_upload(s, mav_id, ident, value);
            let (u, stopped) = after_timeout(t, mav_id, ident);
            &&& parameter_of(t, mav_id, ident) == Some(uploading(p, TimerId(s.next_timer)))
            &&& parameter_of(u, mav_id, ident) == Some(
                Parameter { state: ParamState::Changed(p.value), ..p },
            )
            &&& stopped == seq![Act::AbortTimer(TimerId(s.next_timer))]
        }),
{
    let (t, _) = after_upload(s, mav_id, ident, value);
    let timer = TimerId(s.next_timer);
    lemma_vehicle_valid(s, mav_id);
    lemma_change(s, mav_id, ident, |p: Parameter| uploading(p, timer));
    lemma_vehicle_valid(t, mav_id);
    lemma_change(t, mav_id, ident, |p: Parameter| timed_out(p));
}

/// A change to a parameter is what the parameter becomes, and keeps the station
/// consistent.
proof fn lemma_change(
    s: Station,
    mav_id: MavlinkId,
    ident: Ident,
    change: spec_fn(Parameter) -> Parameter,
)
    requires
        consistent(s),
        parameter_of(s, mav_id, ident) is Some,
    ensures
        consistent(with_change(s, mav_id, ident, change)),
        parameter_of(with_change(s, mav_id, ident, change), mav_id, ident) == Some(
            change(parameter_of(s, mav_id, ident)->0),
        ),
{
    let v = vehicle_of(s, mav_id)->0;
    let p = parameter_of(s, mav_id, ident)->0;
    lemma_vehicle_valid(s, mav_id);
    law_with_entry(v.parameters, ident, change(p));
    lemma_with_vehicle(
        s,
        mav_id,
        VehicleState { parameters: replaced(v.parameters, ident, change), ..v },
    );
}

/// Dropping what was typed in for a parameter undoes the typing.
pub proof fn law_reset_after_edit(
    s: Station,
    mav_id: MavlinkId,
    ident: Ident,
    buffer: String,
    number: Option<u32>,
)
    requires
        consistent(s),
        parameter_of(s, mav_id, ident) is Some,
    ensures
        ({
            let edit = |p: Parameter| edited(p, buffer, number);
            let reset = |p: Parameter| fresh(p.value);
            let t = with_change(s, mav_id, ident, edit);
            parameter_of(with_change(t, mav_id, ident, reset), mav_id, ident) == parameter_of(
                with_change(s, mav_id, ident, reset),
                mav_id,
                ident,
            )
        }),
{
    let edit = |p: Parameter| edited(p, buffer, number);
    let reset = |p: Parameter| fresh(p.value);
    let t = with_change(s, mav_id, ident, edit);
    lemma_change(s, mav_id, ident, edit);
    lemma_change(t, mav_id, ident, reset);
    lemma_change(s, mav_id, ident, reset);
}

/// The vehicle that a message about parameters is about.
pub open spec fn vehicle_in(message: ParameterMessage) -> Option<MavlinkId> {
    match message {
        ParameterMessage::ListReload(mav_id) => Some(mav_id),
        ParameterMessage::UploadAll(mav_id) => Some(mav_id),
        ParameterMessage::ValueReset(mav_id, _) => Some(mav_id),
        ParameterMessage::ValueUpload(mav_id, _, _) => Some(mav_id),
        ParameterMessage::ValueUploadTimeout(mav_id, _) => Some(mav_id),
        ParameterMessage::BufferEdit(mav_id, _, _, _) => Some(mav_id),
        ParameterMessage::LoadDialog(mav_id) => Some(mav_id),
        ParameterMessage::LoadFromFile(_, mav_id) => Some(mav_id),
        ParameterMessage::Loaded(mav_id, _, _) => Some(mav_id),
        ParameterMessage::FilterBuf(_) => None,
        ParameterMessage::SaveDialog(_) => None,
        ParameterMessage::SaveToFile(_, _) => None,
        ParameterMessage::Saved(_) => None,
    }
}

/// What happens to the parameters of one vehicle leaves the other vehicles alone.
pub proof fn law_parameters_leave_other_vehicles<F: Fn(u32) -> String>(
    real_text: F,
    s: Station,
    message: ParameterMessage,
    t: Station,
    called_for: Seq<Act>,
    other: MavlinkId,
)
    requires
        consistent(s),
        updates(real_text, s, message, t, called_for),
        vehicle_in(message) != Some(other),
    ensures
        vehicle_of(t, other) == vehicle_of(s, other),
{
    assert forall|mav_id: MavlinkId, v: VehicleState| mav_id != other implies vehicle_of(
        #[trigger] with_vehicle(s, mav_id, v),
        other,
    ) == vehicle_of(s, other) by {
        law_with_entry(s.vehicles, mav_id, v);
        lemma_mavlink_rank(mav_id, other);
    }
}

proof fn lemma_replaced_keeps_values(
    entries: Seq<(Ident, Parameter)>,
    ident: Ident,
    change: spec_fn(Parameter) -> Parameter,
)
    requires
        forall|p: Parameter| (#[trigger] change(p)).value == p.value,
    ensures
        same_values(entries, replaced(entries, ident, change)),
{
    lemma_position_of(ranks(entries), ident.rank());
}

/// What the vehicle reported does not change by what happens to parameters here: which
/// parameters there are, and their values, stay.
pub proof fn law_reported_values_stay<F: Fn(u32) -> String>(
    real_text: F,
    s: Station,
    message: ParameterMessage,
    t: Station,
    called_for: Seq<Act>,
    mav_id: MavlinkId,
)
    requires
        consistent(s),
        updates(real_text, s, message, t, called_for),
    ensures
        match vehicle_of(s, mav_id) {
            Some(v) => vehicle_of(t, mav_id) matches Some(w) && same_values(
                v.parameters,
                w.parameters,
            ),
            None => vehicle_of(t, mav_id) is None,
        },
{
    if vehicle_in(message) != Some(mav_id) {
        law_parameters_leave_other_vehicles(real_text, s, message, t, called_for, mav_id);
    } else {
        match vehicle_of(s, mav_id) {
            Some(v) => {
                assert forall|w: VehicleState| vehicle_of(
                    #[trigger] with_vehicle(s, mav_id, w),
                    mav_id,
                ) == Some(w) by {
                    law_with_entry(s.vehicles, mav_id, w);
                }
                match message {
                    ParameterMessage::UploadAll(_) => {
                        lemma_first_changed(v.parameters);
                    },
                    ParameterMessage::BufferEdit(_, ident, buffer, number) => {
                        let change = |p: Parameter| edited(p, buffer, number);
                        lemma_replaced_keeps_values(v.parameters, ident, change);
                    },
                    ParameterMessage::ValueReset(_, ident) => {
                        let change = |p: Parameter| fresh(p.value);
                        lemma_replaced_keeps_values(v.parameters, ident, change);
                    },
                    ParameterMessage::ValueUpload(_, ident, _) => {
                        let timer = TimerId(s.next_timer);
                        let change = |p: Parameter| uploading(p, timer);
                        lemma_replaced_keeps_values(v.parameters, ident, change);
                    },
                    ParameterMessage::ValueUploadTimeout(_, ident) => {
                        let change = |p: Parameter| timed_out(p);
                        lemma_replaced_keeps_values(v.parameters, ident, change);
                    },
                    _ => {},
                }
            },
            None => {},
        }
    }
}

/// Saving writes the parameters that are asked for, changes no vehicle, and keeps the
/// directory of the file, in this run and the next ones.
pub proof fn law_saving_keeps_the_directory<F: Fn(u32) -> String>(
    real_text: F,
    s: Station,
    path: PathBuf,
    parameters: Parameters,
    t: Station,
    first: Seq<Act>,
    directory: PathBuf,
    u: Station,
    second: Seq<Act>,
)
    requires
        updates(real_text, s, ParameterMessage::SaveToFile(path, parameters), t, first),
        updates(real_text, t, ParameterMessage::Saved(Some(directory)), u, second),
    ensures
        first == seq![Act::SaveFile(path, parameters@)],
        t == s,
        u.vehicles == s.vehicles,
        u.configuration.file_picker_path == Some(directory),
        second == seq![Act::WriteConfiguration],
{
}

} // verus!
