//! The parameters of a vehicle, as far as they are known and edited.

use crate::ident::Ident;
use crate::sorted::{before, lemma_replaced, ranks, sorted, value_at, with_entry, Key, SortedMap};
use crate::text::{contains, has_part, lemma_position_of, lowercase, position_of};
use crate::value::{
    equal_values, law_text_round_trip, param_type, same_value, value_as_string, value_parse_as,
    value_reading, value_type_matches, writes_value, Value,
};
use std::collections::HashSet;
use vstd::prelude::*;

verus! {

/// A running timer of the surroundings, by the number that it was asked for with.
#[derive(Clone, Copy, Debug, PartialEq, Eq, Structural)]
pub struct TimerId(pub u64);

/// Where a parameter stands between the vehicle and the user.
#[derive(Clone, Copy, Debug, PartialEq, Eq, Structural)]
pub enum ParamState {
    /// As the vehicle reported it.
    Unchanged,
    /// Edited to another value.
    Changed(Value),
    /// On its way to the vehicle, with the timer that gives up on it and the value
    /// that the vehicle had.
    Uploading(TimerId, Value),
}

/// A parameter: what the vehicle reported, and what the user makes of it.
#[derive(Debug)]
pub struct Parameter {
    pub value: Value,
    pub state: ParamState,
    pub editing: Option<String>,
}

/// A parameter as the vehicle reported it.
pub open spec fn fresh(value: Value) -> Parameter {
    Parameter { value, state: ParamState::Unchanged, editing: None }
}

impl Parameter {
    /// A parameter as the vehicle reported it.
    pub fn new(value: Value) -> (r: Self)
        ensures
            r == fresh(value),
    {
        Parameter { value, state: ParamState::Unchanged, editing: None }
    }
}

impl Clone for Parameter {
    fn clone(&self) -> (r: Self)
        ensures
            r == *self,
    {
        let editing = match &self.editing {
            Some(buffer) => Some(buffer.clone()),
            None => None,
        };
        Parameter { value: self.value, state: self.state, editing }
    }
}

/// How far the list of parameters has come in.
#[derive(Debug)]
pub struct LoadingState {
    /// The indices that came in.
    pub has_loaded: HashSet<u16>,
    /// How many the vehicle announced.
    pub expected_count: u16,
}

impl LoadingState {
    /// Nothing announced, nothing in.
    pub fn new() -> (r: LoadingState)
        ensures
            r.has_loaded@ == Set::<u16>::empty(),
            r.expected_count == 0,
    {
        LoadingState { has_loaded: HashSet::new(), expected_count: 0 }
    }
}

impl Clone for LoadingState {
    fn clone(&self) -> (r: Self)
        ensures
            r.has_loaded@ == self.has_loaded@,
            r.expected_count == self.expected_count,
    {
        broadcast use vstd::std_specs::hash::group_hash_axioms;

        let mut has_loaded: HashSet<u16> = HashSet::new();
        let ghost all = self.has_loaded@;
        for index in it: self.has_loaded.iter()
            invariant
                it.seq().unref().to_set() == all,
                has_loaded@ == it.seq().unref().take(it.index() as int).to_set(),
                it.index() == it.seq().len() ==> has_loaded@ == all,
        {
            let ghost seen = it.seq().unref();
            assert(seen.take(seen.len() as int) =~= seen);
            has_loaded.insert(*index);
            assert(seen.take(it.index() as int + 1) =~= seen.take(it.index() as int).push(*index));
            assert(seen.take(it.index() as int).push(*index).to_set() =~= seen.take(
                it.index() as int,
            ).to_set().insert(*index)) by {
                let s = seen.take(it.index() as int);
                assert forall|x: u16| #[trigger]
                    s.push(*index).to_set().contains(x) <==> s.to_set().insert(*index).contains(
                        x,
                    ) by {
                    if s.push(*index).contains(x) {
                        let k = choose|k: int|
                            0 <= k < s.push(*index).len() && s.push(*index)[k] == x;
                        if k < s.len() {
                            assert(s[k] == x);
                        }
                    }
                    if s.contains(x) {
                        let k = choose|k: int| 0 <= k < s.len() && s[k] == x;
                        assert(s.push(*index)[k] == x);
                    }
                    if x == *index {
                        assert(s.push(*index)[s.len() as int] == x);
                    }
                }
            }
        }
        LoadingState { has_loaded, expected_count: self.expected_count }
    }
}

/// The parameters of a vehicle, by their names.
#[derive(Debug)]
pub struct Parameters {
    pub map: SortedMap<Ident, Parameter>,
    pub loading_state: LoadingState,
}

/// What some parameters hold.
#[verifier::ext_equal]
pub ghost struct ParameterSet {
    pub entries: Seq<(Ident, Parameter)>,
    pub has_loaded: Set<u16>,
    pub expected_count: u16,
}

impl View for Parameters {
    type V = ParameterSet;

    open spec fn view(&self) -> ParameterSet {
        ParameterSet {
            entries: self.map.entries@,
            has_loaded: self.loading_state.has_loaded@,
            expected_count: self.loading_state.expected_count,
        }
    }
}

impl Parameters {
    /// The parameters stand in the order of their names.
    pub open spec fn wf(&self) -> bool {
        self.map.wf()
    }

    /// No parameters.
    pub fn new() -> (r: Self)
        ensures
            r.wf(),
            r.map.entries@ == Seq::<(Ident, Parameter)>::empty(),
            r.loading_state.has_loaded@ == Set::<u16>::empty(),
            r.loading_state.expected_count == 0,
    {
        Parameters { map: SortedMap::new(), loading_state: LoadingState::new() }
    }

    /// The parameters whose names hold `filter`, whatever the case of the letters.
    pub fn filtered(&self, filter: &str) -> (r: Parameters)
        requires
            self.wf(),
        ensures
            r.wf(),
            r@ == (ParameterSet { entries: matching(self@.entries, filter@), ..self@ }),
    {
        let wanted = filter.to_lowercase();
        let mut entries: Vec<(Ident, Parameter)> = Vec::new();
        let ghost all = self.map.entries@;
        let ghost pred = name_holds(filter@);
        let mut i: usize = 0;
        assert(all.take(0).filter(pred) =~= Seq::<(Ident, Parameter)>::empty()) by {
            reveal(Seq::filter);
        }
        while i < self.map.entries.len()
            invariant
                i <= all.len(),
                all == self.map.entries@,
                pred == name_holds(filter@),
                wanted@ == lowercase(filter@),
                entries@ == all.take(i as int).filter(pred),
            decreases all.len() - i,
        {
            let entry = &self.map.entries[i];
            let name = entry.0.as_str().to_lowercase();
            assert(all.take(i as int + 1).drop_last() =~= all.take(i as int));
            assert(all.take(i as int + 1).filter(pred) == if pred(all[i as int]) {
                all.take(i as int).filter(pred).push(all[i as int])
            } else {
                all.take(i as int).filter(pred)
            }) by {
                reveal(Seq::filter);
            }
            if contains(name.as_str(), wanted.as_str()) {
                let ident = entry.0.clone();
                let parameter = entry.1.clone();
                entries.push((ident, parameter));
            }
            i += 1;
        }
        assert(all.take(all.len() as int) =~= all);
        proof {
            lemma_filter_sorted(all, pred);
        }
        Parameters { map: SortedMap { entries }, loading_state: self.loading_state.clone() }
    }
}

impl Clone for Parameters {
    fn clone(&self) -> (r: Self)
        ensures
            r@ == self@,
    {
        let mut entries: Vec<(Ident, Parameter)> = Vec::new();
        let mut i: usize = 0;
        while i < self.map.entries.len()
            invariant
                i <= self.map.entries@.len(),
                entries@ == self.map.entries@.take(i as int),
            decreases self.map.entries@.len() - i,
        {
            let ident = self.map.entries[i].0.clone();
            let parameter = self.map.entries[i].1.clone();
            entries.push((ident, parameter));
            assert(entries@ =~= self.map.entries@.take(i as int + 1));
            i += 1;
        }
        assert(entries@ =~= self.map.entries@);
        Parameters { map: SortedMap { entries }, loading_state: self.loading_state.clone() }
    }
}

/// A parameter whose name holds `filter`, whatever the case of the letters.
pub open spec fn name_holds(filter: Seq<char>) -> spec_fn((Ident, Parameter)) -> bool {
    |entry: (Ident, Parameter)| has_part(lowercase(entry.0@), lowercase(filter))
}

/// The entries whose names hold `filter`, in their order.
pub open spec fn matching(entries: Seq<(Ident, Parameter)>, filter: Seq<char>) -> Seq<
    (Ident, Parameter),
> {
    entries.filter(name_holds(filter))
}

proof fn lemma_filter_sorted(
    entries: Seq<(Ident, Parameter)>,
    pred: spec_fn((Ident, Parameter)) -> bool,
)
    requires
        sorted(entries),
    ensures
        sorted(entries.filter(pred)),
        forall|i: int|
            0 <= i < entries.filter(pred).len() ==> exists|k: int|
                0 <= k < entries.len() && #[trigger] entries[k] == #[trigger] entries.filter(
                    pred,
                )[i],
    decreases entries.len(),
{
    reveal(Seq::filter);
    if entries.len() > 0 {
        let rest = entries.drop_last();
        assert forall|i: int, j: int| 0 <= i < j < rest.len() implies before(
            #[trigger] rest[i].0.rank(),
            #[trigger] rest[j].0.rank(),
        ) by {
            assert(rest[i] == entries[i] && rest[j] == entries[j]);
        }
        lemma_filter_sorted(rest, pred);
        let kept = rest.filter(pred);
        let all = entries.filter(pred);
        assert forall|i: int| 0 <= i < all.len() implies exists|k: int|
            0 <= k < entries.len() && #[trigger] entries[k] == #[trigger] all[i] by {
            if i < kept.len() {
                assert(all[i] == kept[i]);
                let k = choose|k: int|
                    0 <= k < rest.len() && #[trigger] rest[k] == kept[i];
                assert(entries[k] == all[i]);
            } else {
                assert(entries[entries.len() - 1] == all[i]);
            }
        }
        assert forall|i: int, j: int| 0 <= i < j < all.len() implies before(
            #[trigger] all[i].0.rank(),
            #[trigger] all[j].0.rank(),
        ) by {
            assert(all[i] == kept[i]);
            if j < kept.len() {
                assert(before(kept[i].0.rank(), kept[j].0.rank()));
                assert(all[j] == kept[j]);
            } else {
                let k = choose|k: int|
                    0 <= k < rest.len() && #[trigger] rest[k] == kept[i];
                assert(entries[k] == all[i]);
                assert(entries[entries.len() - 1] == all[j]);
                assert(before(entries[k].0.rank(), entries[entries.len() - 1].0.rank()));
            }
        }
    }
}

// ---------------------------------------------------------------------------
// Editing and uploading
// ---------------------------------------------------------------------------

/// A parameter with a text typed in for it: changed where the text reads as another
/// value of its type. `number` is how the text reads as a single.
pub open spec fn edited(parameter: Parameter, buffer: String, number: Option<u32>) -> Parameter {
    Parameter {
        state: match value_reading(parameter.value, buffer@, number) {
            Some(value) => if equal_values(value, parameter.value) {
                ParamState::Unchanged
            } else {
                ParamState::Changed(value)
            },
            None => ParamState::Unchanged,
        },
        editing: Some(buffer),
        ..parameter
    }
}

/// A parameter on its way to the vehicle.
pub open spec fn uploading(parameter: Parameter, timer: TimerId) -> Parameter {
    Parameter { state: ParamState::Uploading(timer, parameter.value), ..parameter }
}

/// A parameter whose upload was given up on.
pub open spec fn timed_out(parameter: Parameter) -> Parameter {
    match parameter.state {
        ParamState::Uploading(_, value) => Parameter {
            state: ParamState::Changed(value),
            ..parameter
        },
        _ => parameter,
    }
}

/// The entries with the parameter of a name replaced, where there is one.
pub open spec fn replaced(
    entries: Seq<(Ident, Parameter)>,
    ident: Ident,
    change: spec_fn(Parameter) -> Parameter,
) -> Seq<(Ident, Parameter)> {
    match value_at(entries, ident.rank()) {
        Some(parameter) => with_entry(entries, ident, change(parameter)),
        None => entries,
    }
}

/// Parameters of the same names and values, whatever their states.
pub open spec fn same_values(a: Seq<(Ident, Parameter)>, b: Seq<(Ident, Parameter)>) -> bool {
    &&& b.len() == a.len()
    &&& forall|i: int|
        0 <= i < a.len() ==> (#[trigger] b[i]).0 == a[i].0 && b[i].1.value == a[i].1.value
}

/// A timer `n` timers behind `first`.
pub open spec fn timer_behind(first: u64, n: int) -> u64 {
    ((first + n) % 0x1_0000_0000_0000_0000) as u64
}

/// The timer behind `timer`.
pub fn next_timer(timer: u64) -> (r: u64)
    ensures
        r == timer_behind(timer, 1),
{
    if timer == u64::MAX {
        0
    } else {
        timer + 1
    }
}

/// How many of the parameters are changed.
pub open spec fn changed_count(entries: Seq<(Ident, Parameter)>) -> int
    decreases entries.len(),
{
    if entries.len() == 0 {
        0
    } else if entries.last().1.state is Changed {
        changed_count(entries.drop_last()) + 1
    } else {
        changed_count(entries.drop_last())
    }
}

/// All changed parameters on their way, with one timer each from `first` on.
pub open spec fn all_uploading(entries: Seq<(Ident, Parameter)>, first: u64) -> Seq<
    (Ident, Parameter),
> {
    Seq::new(
        entries.len(),
        |i: int|
            if entries[i].1.state is Changed {
                let timer = timer_behind(first, changed_count(entries.take(i)));
                (entries[i].0, uploading(entries[i].1, TimerId(timer)))
            } else {
                entries[i]
            },
    )
}

/// The index of the first changed parameter, or the number of parameters.
pub open spec fn first_changed(entries: Seq<(Ident, Parameter)>) -> int
    decreases entries.len(),
{
    if entries.len() == 0 || entries[0].1.state is Changed {
        0
    } else {
        1 + first_changed(entries.skip(1))
    }
}

/// The first changed parameter on its way, the others left alone.
pub open spec fn first_uploading(entries: Seq<(Ident, Parameter)>, timer: u64) -> Seq<
    (Ident, Parameter),
> {
    let i = first_changed(entries);
    if i < entries.len() {
        entries.update(i, (entries[i].0, uploading(entries[i].1, TimerId(timer))))
    } else {
        entries
    }
}

/// An upload that is asked for.
#[derive(Debug)]
pub struct Upload {
    pub ident: Ident,
    pub value: Value,
    pub timer: TimerId,
}

/// The uploads that all changed parameters ask for.
pub open spec fn uploads(entries: Seq<(Ident, Parameter)>, first: u64) -> Seq<Upload>
    decreases entries.len(),
{
    if entries.len() == 0 {
        Seq::empty()
    } else {
        let rest = entries.drop_last();
        match entries.last().1.state {
            ParamState::Changed(value) => uploads(rest, first).push(
                Upload {
                    ident: entries.last().0,
                    value,
                    timer: TimerId(timer_behind(first, changed_count(rest))),
                },
            ),
            _ => uploads(rest, first),
        }
    }
}

/// A parameter next to one of its name that was loaded: changed where that one has
/// another value of the same type.
pub open spec fn merges<F: Fn(u32) -> String>(
    real_text: F,
    before: Parameter,
    loaded: Option<Parameter>,
    after: Parameter,
) -> bool {
    match loaded {
        Some(new) => if param_type(new.value) == param_type(before.value) && !equal_values(
            before.value,
            new.value,
        ) {
            &&& after.value == before.value
            &&& after.state == ParamState::Changed(new.value)
            &&& after.editing matches Some(text) && writes_value(real_text, new.value, text)
        } else {
            after == before
        },
        None => after == before,
    }
}

/// Parameters next to those that were loaded.
pub open spec fn merges_all<F: Fn(u32) -> String>(
    real_text: F,
    before: Seq<(Ident, Parameter)>,
    loaded: Seq<(Ident, Parameter)>,
    after: Seq<(Ident, Parameter)>,
) -> bool {
    &&& after.len() == before.len()
    &&& forall|i: int|
        0 <= i < before.len() ==> (#[trigger] after[i]).0 == before[i].0 && merges(
            real_text,
            before[i].1,
            value_at(loaded, before[i].0.rank()),
            after[i].1,
        )
}

impl Parameters {
    /// Takes over the text that was typed in for a parameter; `number` is how it reads
    /// as a single. Tells whether there is such a parameter.
    pub fn edit(&mut self, ident: &Ident, buffer: String, number: Option<u32>) -> (r: bool)
        requires
            old(self).wf(),
        ensures
            final(self).wf(),
            final(self).map.entries@ == replaced(
                old(self).map.entries@,
                *ident,
                |p: Parameter| edited(p, buffer, number),
            ),
            final(self).loading_state == old(self).loading_state,
            r == old(self).map.has(ident.rank()),
    {
        let ghost entries = self.map.entries@;
        let ghost i = position_of(ranks(entries), ident.rank());
        proof {
            lemma_place(entries, *ident);
        }
        match self.map.get_mut(ident) {
            Some(parameter) => {
                let kind = parameter.value;
                let read_real = |_s: &str| -> (n: Option<u32>)
                    ensures
                        n == number,
                    { number };
                let state = match value_parse_as(kind, buffer.as_str(), read_real) {
                    Some(value) => if same_value(value, kind) {
                        ParamState::Unchanged
                    } else {
                        ParamState::Changed(value)
                    },
                    None => ParamState::Unchanged,
                };
                parameter.state = state;
                parameter.editing = Some(buffer);
                proof {
                    lemma_replaced(entries, i, ident.rank(), edited(entries[i].1, buffer, number));
                }
                true
            },
            None => false,
        }
    }

    /// Drops what was typed in for a parameter. Tells whether there is such a
    /// parameter.
    pub fn reset(&mut self, ident: &Ident) -> (r: bool)
        requires
            old(self).wf(),
        ensures
            final(self).wf(),
            final(self).map.entries@ == replaced(
                old(self).map.entries@,
                *ident,
                |p: Parameter| fresh(p.value),
            ),
            final(self).loading_state == old(self).loading_state,
            r == old(self).map.has(ident.rank()),
    {
        let ghost entries = self.map.entries@;
        let ghost i = position_of(ranks(entries), ident.rank());
        proof {
            lemma_place(entries, *ident);
        }
        match self.map.get_mut(ident) {
            Some(parameter) => {
                parameter.editing = None;
                parameter.state = ParamState::Unchanged;
                proof {
                    lemma_replaced(entries, i, ident.rank(), fresh(entries[i].1.value));
                }
                true
            },
            None => false,
        }
    }

    /// Sends a parameter on its way. Tells whether there is such a parameter.
    pub fn start_upload(&mut self, ident: &Ident, timer: TimerId) -> (r: bool)
        requires
            old(self).wf(),
        ensures
            final(self).wf(),
            final(self).map.entries@ == replaced(
                old(self).map.entries@,
                *ident,
                |p: Parameter| uploading(p, timer),
            ),
            final(self).loading_state == old(self).loading_state,
            r == old(self).map.has(ident.rank()),
    {
        let ghost entries = self.map.entries@;
        let ghost i = position_of(ranks(entries), ident.rank());
        proof {
            lemma_place(entries, *ident);
        }
        match self.map.get_mut(ident) {
            Some(parameter) => {
                parameter.state = ParamState::Uploading(timer, parameter.value);
                proof {
                    lemma_replaced(entries, i, ident.rank(), uploading(entries[i].1, timer));
                }
                true
            },
            None => false,
        }
    }

    /// Gives up on the upload of a parameter. Gives the timer of the upload, where one
    /// was under way.
    pub fn time_out(&mut self, ident: &Ident) -> (r: Option<TimerId>)
        requires
            old(self).wf(),
        ensures
            final(self).wf(),
            final(self).map.entries@ == replaced(
                old(self).map.entries@,
                *ident,
                |p: Parameter| timed_out(p),
            ),
            final(self).loading_state == old(self).loading_state,
            r == match old(self).map.at(ident.rank()) {
                Some(p) => match p.state {
                    ParamState::Uploading(timer, _) => Some(timer),
                    _ => None,
                },
                None => None,
            },
    {
        let ghost entries = self.map.entries@;
        let ghost i = position_of(ranks(entries), ident.rank());
        proof {
            lemma_place(entries, *ident);
        }
        match self.map.get_mut(ident) {
            Some(parameter) => {
                proof {
                    lemma_replaced(entries, i, ident.rank(), timed_out(entries[i].1));
                }
                match parameter.state {
                    ParamState::Uploading(timer, value) => {
                        parameter.state = ParamState::Changed(value);
                        Some(timer)
                    },
                    _ => None,
                }
            },
            None => None,
        }
    }
}

/// Where a name stands.
proof fn lemma_place(entries: Seq<(Ident, Parameter)>, ident: Ident)
    ensures
        ({
            let i = position_of(ranks(entries), ident.rank());
            &&& 0 <= i <= entries.len()
            &&& i < entries.len() ==> entries[i].0.rank() == ident.rank()
        }),
{
    lemma_position_of(ranks(entries), ident.rank());
}

/// Changing values in place keeps the order.
proof fn lemma_same_keys(a: Seq<(Ident, Parameter)>, b: Seq<(Ident, Parameter)>)
    requires
        sorted(a),
        b.len() == a.len(),
        forall|i: int| 0 <= i < a.len() ==> (#[trigger] b[i]).0 == a[i].0,
    ensures
        sorted(b),
{
    assert forall|i: int, j: int| 0 <= i < j < b.len() implies before(
        #[trigger] b[i].0.rank(),
        #[trigger] b[j].0.rank(),
    ) by {
        assert(before(a[i].0.rank(), a[j].0.rank()));
    }
}

/// The first changed parameter is one of the parameters, or behind them.
pub proof fn lemma_first_changed(entries: Seq<(Ident, Parameter)>)
    ensures
        0 <= first_changed(entries) <= entries.len(),
    decreases entries.len(),
{
    if entries.len() > 0 {
        lemma_first_changed(entries.skip(1));
    }
}

/// The first changed parameter has no changed one before it.
proof fn lemma_first_changed_is(entries: Seq<(Ident, Parameter)>, i: int)
    requires
        0 <= i <= entries.len(),
        forall|k: int| 0 <= k < i ==> !((#[trigger] entries[k]).1.state is Changed),
        i < entries.len() ==> entries[i].1.state is Changed,
    ensures
        first_changed(entries) == i,
    decreases i,
{
    if i > 0 {
        let rest = entries.skip(1);
        assert(!(entries[0].1.state is Changed));
        assert forall|k: int| 0 <= k < i - 1 implies !((#[trigger] rest[k]).1.state is Changed) by {
            assert(rest[k] == entries[k + 1]);
        }
        lemma_first_changed_is(rest, i - 1);
    }
}

impl Parameters {
    /// Sends all changed parameters on their way, with one timer each from `first` on.
    /// Gives the uploads to be made.
    pub fn start_uploads(&mut self, first: u64) -> (r: Vec<Upload>)
        requires
            old(self).wf(),
        ensures
            final(self).wf(),
            final(self).map.entries@ == all_uploading(old(self).map.entries@, first),
            final(self).loading_state == old(self).loading_state,
            r@ == uploads(old(self).map.entries@, first),
            r@.len() == changed_count(old(self).map.entries@),
    {
        let mut r: Vec<Upload> = Vec::new();
        let mut timer: u64 = first;
        let ghost entries = self.map.entries@;
        let ghost goal = all_uploading(entries, first);
        let mut i: usize = 0;
        assert(entries.take(0) =~= Seq::empty());
        while i < self.map.entries.len()
            invariant
                i <= entries.len(),
                entries == old(self).map.entries@,
                goal == all_uploading(entries, first),
                self.map.entries@.len() == entries.len(),
                self.loading_state == old(self).loading_state,
                forall|k: int| 0 <= k < i ==> self.map.entries@[k] == #[trigger] goal[k],
                forall|k: int|
                    i <= k < entries.len() ==> self.map.entries@[k] == #[trigger] entries[k],
                r@ == uploads(entries.take(i as int), first),
                r@.len() == changed_count(entries.take(i as int)),
                timer == timer_behind(first, changed_count(entries.take(i as int))),
            decreases entries.len() - i,
        {
            let ghost rest = entries.take(i as int);
            assert(entries.take(i as int + 1).drop_last() =~= rest);
            assert(entries.take(i as int + 1).last() == entries[i as int]);
            assert(self.map.entries@[i as int] == entries[i as int]);
            match self.map.entries[i].1.state {
                ParamState::Changed(value) => {
                    let ident = self.map.entries[i].0.clone();
                    let held = self.map.entries[i].1.value;
                    self.map.entries[i].1.state = ParamState::Uploading(TimerId(timer), held);
                    r.push(Upload { ident, value, timer: TimerId(timer) });
                    timer = next_timer(timer);
                },
                _ => {},
            }
            assert(self.map.entries@[i as int] == goal[i as int]);
            i += 1;
        }
        assert(self.map.entries@ =~= goal);
        assert(entries.take(entries.len() as int) =~= entries);
        proof {
            lemma_same_keys(entries, goal);
        }
        r
    }

    /// Sends the first changed parameter on its way, where there is one.
    pub fn start_first_upload(&mut self, timer: u64) -> (r: bool)
        requires
            old(self).wf(),
        ensures
            final(self).wf(),
            final(self).map.entries@ == first_uploading(old(self).map.entries@, timer),
            final(self).loading_state == old(self).loading_state,
            r == (changed_count(old(self).map.entries@) > 0),
    {
        let ghost entries = self.map.entries@;
        let mut i: usize = 0;
        assert(entries.take(0) =~= Seq::empty());
        while i < self.map.entries.len()
            invariant
                i <= entries.len(),
                *self == *old(self),
                entries == self.map.entries@,
                self.wf(),
                forall|k: int| 0 <= k < i ==> !((#[trigger] entries[k]).1.state is Changed),
                changed_count(entries.take(i as int)) == 0,
            decreases entries.len() - i,
        {
            assert(entries.take(i as int + 1).drop_last() =~= entries.take(i as int));
            match self.map.entries[i].1.state {
                ParamState::Changed(_) => {
                    proof {
                        lemma_first_changed_is(entries, i as int);
                        lemma_changed_count_grows(entries, i as int + 1);
                        lemma_same_keys(entries, first_uploading(entries, timer));
                    }
                    let held = self.map.entries[i].1.value;
                    self.map.entries[i].1.state = ParamState::Uploading(TimerId(timer), held);
                    assert(self.map.entries@ =~= first_uploading(entries, timer));
                    return true;
                },
                _ => {},
            }
            i += 1;
        }
        assert(entries.take(entries.len() as int) =~= entries);
        proof {
            lemma_first_changed_is(entries, i as int);
        }
        false
    }

    /// Marks the parameters as changed of which others were loaded.
    pub fn merge<F: Fn(u32) -> String>(&mut self, loaded: &Parameters, real_text: F)
        requires
            old(self).wf(),
            forall|bits: u32| call_requires(real_text, (bits,)),
        ensures
            final(self).wf(),
            merges_all(
                real_text,
                old(self).map.entries@,
                loaded.map.entries@,
                final(self).map.entries@,
            ),
            final(self).loading_state == old(self).loading_state,
    {
        let ghost entries = self.map.entries@;
        let mut i: usize = 0;
        while i < self.map.entries.len()
            invariant
                i <= entries.len(),
                entries == old(self).map.entries@,
                self.map.entries@.len() == entries.len(),
                self.loading_state == old(self).loading_state,
                forall|bits: u32| call_requires(real_text, (bits,)),
                forall|k: int|
                    0 <= k < i ==> (#[trigger] self.map.entries@[k]).0 == entries[k].0 && merges(
                        real_text,
                        entries[k].1,
                        value_at(loaded.map.entries@, entries[k].0.rank()),
                        self.map.entries@[k].1,
                    ),
                forall|k: int|
                    i <= k < entries.len() ==> #[trigger] self.map.entries@[k] == entries[k],
            decreases entries.len() - i,
        {
            let ghost earlier = self.map.entries@;
            assert(earlier[i as int] == entries[i as int]);
            match loaded.map.get(&self.map.entries[i].0) {
                Some(new) => {
                    let held = self.map.entries[i].1.value;
                    if value_type_matches(held, new.value) && !same_value(held, new.value) {
                        let text = value_as_string(new.value, &real_text);
                        self.map.entries[i].1.state = ParamState::Changed(new.value);
                        self.map.entries[i].1.editing = Some(text);
                    }
                },
                None => {},
            }
            proof {
                let now = self.map.entries@;
                assert(now[i as int].0 == entries[i as int].0 && merges(
                    real_text,
                    entries[i as int].1,
                    value_at(loaded.map.entries@, entries[i as int].0.rank()),
                    now[i as int].1,
                ));
                assert(forall|k: int| 0 <= k < entries.len() && k != i ==> now[k] == earlier[k]);
            }
            i += 1;
        }
        proof {
            lemma_same_keys(entries, self.map.entries@);
        }
    }

    /// Forgets which parameters came in.
    pub fn begin_loading(&mut self)
        ensures
            final(self).map == old(self).map,
            final(self).loading_state.has_loaded@ == Set::<u16>::empty(),
            final(self).loading_state.expected_count == old(self).loading_state.expected_count,
    {
        self.loading_state.has_loaded.clear();
    }
}

/// Fewer parameters have no more changed ones.
proof fn lemma_changed_count_grows(entries: Seq<(Ident, Parameter)>, i: int)
    requires
        0 <= i <= entries.len(),
    ensures
        0 <= changed_count(entries.take(i)) <= changed_count(entries),
    decreases entries.len(), entries.len() - i,
{
    if i < entries.len() {
        assert(entries.drop_last().take(i) =~= entries.take(i));
        lemma_changed_count_grows(entries.drop_last(), i);
    } else if i > 0 {
        assert(entries.take(i) =~= entries);
        lemma_changed_count_grows(entries.drop_last(), i - 1);
    } else {
        assert(entries.take(0) =~= Seq::empty());
    }
}

// ---------------------------------------------------------------------------
// Laws
// ---------------------------------------------------------------------------

/// Dropping what was typed in, or giving up on an upload and dropping it, leaves the
/// parameter as the vehicle reported it.
pub proof fn law_reset_undoes(
    parameter: Parameter,
    buffer: String,
    number: Option<u32>,
    timer: TimerId,
)
    ensures
        fresh(edited(parameter, buffer, number).value) == fresh(parameter.value),
        fresh(uploading(parameter, timer).value) == fresh(parameter.value),
        fresh(timed_out(parameter).value) == fresh(parameter.value),
        fresh(fresh(parameter.value).value) == fresh(parameter.value),
{
}

/// Typing in the text of the value that the vehicle reported changes nothing, but for a
/// value that does not equal itself.
pub proof fn law_same_text_is_no_change<F: Fn(u32) -> String>(
    real_text: F,
    parameter: Parameter,
    buffer: String,
    number: Option<u32>,
)
    requires
        writes_value(real_text, parameter.value, buffer),
        parameter.value matches Value::F32(bits) ==> number == Some(bits),
        equal_values(parameter.value, parameter.value),
    ensures
        edited(parameter, buffer, number).state == ParamState::Unchanged,
{
    law_text_round_trip(real_text, parameter.value, parameter.value, buffer, number);
}

/// Typing in the text of another value of the type changes the parameter to that value.
pub proof fn law_other_text_is_a_change<F: Fn(u32) -> String>(
    real_text: F,
    parameter: Parameter,
    value: Value,
    buffer: String,
    number: Option<u32>,
)
    requires
        param_type(value) == param_type(parameter.value),
        writes_value(real_text, value, buffer),
        value matches Value::F32(bits) ==> number == Some(bits),
        !equal_values(value, parameter.value),
    ensures
        edited(parameter, buffer, number).state == ParamState::Changed(value),
{
    law_text_round_trip(real_text, value, value, buffer, number);
}

/// An upload that is given up on leaves the parameter changed to the value that the
/// vehicle had.
pub proof fn law_timeout_after_upload(parameter: Parameter, timer: TimerId)
    ensures
        timed_out(uploading(parameter, timer)).state == ParamState::Changed(parameter.value),
        timed_out(uploading(parameter, timer)).editing == parameter.editing,
{
}

/// Once all changed parameters are on their way, none is changed.
pub proof fn law_all_on_their_way(entries: Seq<(Ident, Parameter)>, first: u64)
    ensures
        changed_count(all_uploading(entries, first)) == 0,
        uploads(entries, first).len() == changed_count(entries),
    decreases entries.len(),
{
    if entries.len() > 0 {
        let rest = entries.drop_last();
        law_all_on_their_way(rest, first);
        assert forall|i: int| 0 <= i < rest.len() implies #[trigger] rest.take(i)
            == entries.take(i) by {
            assert(rest.take(i) =~= entries.take(i));
        }
        assert(all_uploading(entries, first).drop_last() =~= all_uploading(rest, first));
    }
}

/// The uploads have timers of their own.
pub proof fn law_timers_differ(first: u64, a: int, b: int)
    requires
        0 <= a < b < a + 0x1_0000_0000_0000_0000,
    ensures
        timer_behind(first, a) != timer_behind(first, b),
{
}

/// A file that holds the values that the vehicle reported changes nothing, but for
/// values that do not equal themselves.
pub proof fn law_own_file_is_no_change<F: Fn(u32) -> String>(
    real_text: F,
    before: Seq<(Ident, Parameter)>,
    loaded: Seq<(Ident, Parameter)>,
    after: Seq<(Ident, Parameter)>,
)
    requires
        merges_all(real_text, before, loaded, after),
        forall|i: int|
            0 <= i < before.len() ==> (value_at(loaded, (#[trigger] before[i]).0.rank()) matches Some(
                p,
            ) ==> p.value == before[i].1.value) && equal_values(before[i].1.value, before[i].1.value),
    ensures
        after == before,
{
    assert forall|i: int| 0 <= i < before.len() implies after[i] == before[i] by {
        assert(after[i].0 == before[i].0);
        assert(equal_values(before[i].1.value, before[i].1.value));
    }
    assert(after =~= before);
}

/// The parameters that match a filter are those whose names hold it.
pub proof fn law_filter(
    entries: Seq<(Ident, Parameter)>,
    filter: Seq<char>,
    entry: (Ident, Parameter),
)
    ensures
        matching(entries, filter).contains(entry) <==> entries.contains(entry) && has_part(
            lowercase(entry.0@),
            lowercase(filter),
        ),
{
    let pred = name_holds(filter);
    if matching(entries, filter).contains(entry) {
        entries.lemma_filter_contains_rev(pred, entry);
        let i = choose|i: int|
            0 <= i < entries.filter(pred).len() && entries.filter(pred)[i] == entry;
        entries.lemma_filter_pred(pred, i);
    }
    if entries.contains(entry) && pred(entry) {
        let i = choose|i: int| 0 <= i < entries.len() && entries[i] == entry;
        entries.lemma_filter_contains(pred, i);
    }
}

} // verus!
