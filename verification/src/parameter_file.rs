//! Parameters in an INI document: grouped into sections by the first segment of
//! their names, each with its type and its value.

use crate::ident::{fits_ident, Ident};
use crate::parameters::{fresh, same_values, LoadingState, Parameter, Parameters};
use crate::sorted::{
    before, law_before_irreflexive, lemma_key_once, ranks, sorted, value_at, Key, SortedMap,
};
use crate::text::{
    decimal, is_digit, is_space, lemma_decimal, lemma_position_is, lemma_position_of,
    lemma_trimmed_same, position_of, push_text, same_text, signed_decimal, split_at_first,
    split_once, trim, trimmed,
};
use crate::value::{
    law_text_round_trip, name_of_type, value_as_string, value_parse_as, value_reading,
    value_type_name, writes_value, Value,
};
use vstd::prelude::*;

verus! {

// ---------------------------------------------------------------------------
// The document
// ---------------------------------------------------------------------------

/// An INI document of the `rust-ini` crate.
#[verifier::external_type_specification]
#[verifier::external_body]
pub struct ExIni(ini::Ini);

/// What a document holds: its sections in order, the general one without a name,
/// each with its properties in order.
pub uninterp spec fn ini_sections(doc: ini::Ini) -> Seq<
    (Option<Seq<char>>, Seq<(Seq<char>, Seq<char>)>),
>;

/// The names of the sections.
pub open spec fn section_names(
    sections: Seq<(Option<Seq<char>>, Seq<(Seq<char>, Seq<char>)>)>,
) -> Seq<Option<Seq<char>>> {
    Seq::new(sections.len(), |i: int| sections[i].0)
}

/// The properties with another key.
pub open spec fn keyed_otherwise(key: Seq<char>) -> spec_fn((Seq<char>, Seq<char>)) -> bool {
    |property: (Seq<char>, Seq<char>)| property.0 != key
}

/// Properties with one value for a key, at the end.
pub open spec fn with_property(
    properties: Seq<(Seq<char>, Seq<char>)>,
    key: Seq<char>,
    value: Seq<char>,
) -> Seq<(Seq<char>, Seq<char>)> {
    properties.filter(keyed_otherwise(key)).push((key, value))
}

/// Sections with one value for a key in the first section of a name, or in a new
/// section at the end.
pub open spec fn with_setting(
    sections: Seq<(Option<Seq<char>>, Seq<(Seq<char>, Seq<char>)>)>,
    name: Option<Seq<char>>,
    key: Seq<char>,
    value: Seq<char>,
) -> Seq<(Option<Seq<char>>, Seq<(Seq<char>, Seq<char>)>)> {
    let i = position_of(section_names(sections), name);
    if i < sections.len() {
        sections.update(i, (name, with_property(sections[i].1, key, value)))
    } else {
        sections.push((name, seq![(key, value)]))
    }
}

pub open spec fn text_of(s: Option<&str>) -> Option<Seq<char>> {
    match s {
        Some(t) => Some(t@),
        None => None,
    }
}

/// `ini::Ini::new`: a document with an empty general section.
#[verifier::external_body]
fn ini_new() -> (doc: ini::Ini)
    ensures
        ini_sections(doc) == seq![(None::<Seq<char>>, Seq::<(Seq<char>, Seq<char>)>::empty())],
{
    ini::Ini::new()
}

/// `ini::Ini::with_section` and `SectionSetter::set`: sets a key in the first
/// section of that name, which is added at the end where it is missing. The key
/// moves to the end of its section, and its former values are gone.
#[verifier::external_body]
fn ini_set(doc: &mut ini::Ini, section: Option<&str>, key: &str, value: &str)
    ensures
        ini_sections(*final(doc)) == with_setting(
            ini_sections(*old(doc)),
            text_of(section),
            key@,
            value@,
        ),
{
    doc.with_section(section).set(key, value);
}

/// `ini::Ini::iter` and `Properties::iter`: the sections of a document and their
/// properties, in order, copied.
#[verifier::external_body]
fn ini_items(doc: &ini::Ini) -> (items: Vec<(Option<String>, Vec<(String, String)>)>)
    ensures
        item_texts(items@) == ini_sections(*doc),
{
    doc.iter().map(|(name, properties)| {
        let copies = properties.iter().map(|(k, v)| (k.to_string(), v.to_string())).collect();
        (name.map(str::to_string), copies)
    }).collect()
}

pub open spec fn pair_texts(pairs: Seq<(String, String)>) -> Seq<(Seq<char>, Seq<char>)> {
    Seq::new(pairs.len(), |k: int| (pairs[k].0@, pairs[k].1@))
}

pub open spec fn name_text(name: Option<String>) -> Option<Seq<char>> {
    match name {
        Some(s) => Some(s@),
        None => None,
    }
}

/// The texts of copied sections.
pub open spec fn item_texts(items: Seq<(Option<String>, Vec<(String, String)>)>) -> Seq<
    (Option<Seq<char>>, Seq<(Seq<char>, Seq<char>)>),
> {
    Seq::new(items.len(), |i: int| (name_text(items[i].0), pair_texts(items[i].1@)))
}

// ---------------------------------------------------------------------------
// Writing
// ---------------------------------------------------------------------------

/// The section that a parameter goes into: the first segment of its name.
pub open spec fn section_of(name: Seq<char>, sep: char) -> Option<Seq<char>> {
    match split_at_first(name, sep) {
        Some((section, _)) => Some(section),
        None => None,
    }
}

/// The property that a parameter becomes: the rest of its name.
pub open spec fn property_of(name: Seq<char>, sep: char) -> Seq<char> {
    match split_at_first(name, sep) {
        Some((_, property)) => property,
        None => name,
    }
}

/// A value with its type.
pub open spec fn typed_text(value: Value, text: Seq<char>) -> Seq<char> {
    name_of_type(value) + " = "@ + text
}

/// `texts` writes the values of the entries, one by one.
pub open spec fn writes_all<F: Fn(u32) -> String>(
    real_text: F,
    entries: Seq<(Ident, Parameter)>,
    texts: Seq<String>,
) -> bool {
    &&& texts.len() == entries.len()
    &&& forall|j: int|
        0 <= j < entries.len() ==> writes_value(real_text, entries[j].1.value, #[trigger] texts[j])
}

/// The sections that hold the entries.
pub open spec fn saved(entries: Seq<(Ident, Parameter)>, texts: Seq<String>, sep: char) -> Seq<
    (Option<Seq<char>>, Seq<(Seq<char>, Seq<char>)>),
>
    decreases entries.len(),
{
    if entries.len() == 0 {
        seq![(None::<Seq<char>>, Seq::<(Seq<char>, Seq<char>)>::empty())]
    } else {
        let n = entries.len() - 1;
        with_setting(
            saved(entries.drop_last(), texts, sep),
            section_of(entries[n].0@, sep),
            property_of(entries[n].0@, sep),
            typed_text(entries[n].1.value, texts[n]@),
        )
    }
}

proof fn lemma_saved_texts(
    entries: Seq<(Ident, Parameter)>,
    a: Seq<String>,
    b: Seq<String>,
    sep: char,
)
    requires
        a.len() >= entries.len(),
        b.len() >= entries.len(),
        forall|j: int| 0 <= j < entries.len() ==> a[j] == b[j],
    ensures
        saved(entries, a, sep) == saved(entries, b, sep),
    decreases entries.len(),
{
    if entries.len() > 0 {
        lemma_saved_texts(entries.drop_last(), a, b, sep);
    }
}

/// `sections` hold the entries. The segments of a name stand apart by `sep`; singles are
/// written by `real_text`.
pub open spec fn saves<F: Fn(u32) -> String>(
    real_text: F,
    entries: Seq<(Ident, Parameter)>,
    sep: char,
    sections: Seq<(Option<Seq<char>>, Seq<(Seq<char>, Seq<char>)>)>,
) -> bool {
    exists|texts: Seq<String>| #[trigger]
        writes_all(real_text, entries, texts) && sections == saved(entries, texts, sep)
}

/// Puts parameters into a document. The segments of a name stand apart by `sep`;
/// singles are written by `real_text`.
pub fn save_parameters_to_ini<F: Fn(u32) -> String>(
    parameters: &Parameters,
    sep: char,
    real_text: F,
) -> (doc: ini::Ini)
    requires
        forall|bits: u32| call_requires(real_text, (bits,)),
    ensures
        saves(real_text, parameters.map.entries@, sep, ini_sections(doc)),
{
    let mut doc = ini_new();
    let ghost mut texts: Seq<String> = Seq::empty();
    let ghost entries = parameters.map.entries@;
    let mut i: usize = 0;
    while i < parameters.map.entries.len()
        invariant
            i <= entries.len(),
            entries == parameters.map.entries@,
            forall|bits: u32| call_requires(real_text, (bits,)),
            writes_all(real_text, entries.take(i as int), texts),
            ini_sections(doc) == saved(entries.take(i as int), texts, sep),
        decreases entries.len() - i,
    {
        let entry = &parameters.map.entries[i];
        let name = entry.0.as_str();
        let value = entry.1.value;
        let text = value_as_string(value, &real_text);
        let mut line = value_type_name(value).to_owned();
        push_text(&mut line, " = ");
        push_text(&mut line, text.as_str());
        match split_once(name, sep) {
            Some((section, property)) => {
                ini_set(&mut doc, Some(section.as_str()), property.as_str(), line.as_str());
            },
            None => {
                ini_set(&mut doc, None, name, line.as_str());
            },
        }
        proof {
            let before = texts;
            texts = texts.push(text);
            let now = entries.take(i as int + 1);
            assert(now.drop_last() =~= entries.take(i as int));
            lemma_saved_texts(entries.take(i as int), before, texts, sep);
            assert forall|j: int| 0 <= j < now.len() implies writes_value(
                real_text,
                now[j].1.value,
                #[trigger] texts[j],
            ) by {
                if j < i {
                    assert(texts[j] == before[j]);
                }
            }
        }
        i += 1;
    }
    proof {
        assert(entries.take(entries.len() as int) =~= entries);
    }
    doc
}

// ---------------------------------------------------------------------------
// Reading
// ---------------------------------------------------------------------------

/// The name of a parameter that stands in a section under a key.
pub open spec fn joined(section: Option<Seq<char>>, key: Seq<char>) -> Seq<char> {
    match section {
        Some(name) => name + seq!['.'] + key,
        None => key,
    }
}

/// The lines of a section: the name of a parameter, and its type and value.
pub open spec fn section_lines(
    section: Option<Seq<char>>,
    properties: Seq<(Seq<char>, Seq<char>)>,
) -> Seq<(Seq<char>, Seq<char>)> {
    Seq::new(properties.len(), |k: int| (joined(section, properties[k].0), properties[k].1))
}

/// The lines of all sections, in order.
pub open spec fn lines(sections: Seq<(Option<Seq<char>>, Seq<(Seq<char>, Seq<char>)>)>) -> Seq<
    (Seq<char>, Seq<char>),
>
    decreases sections.len(),
{
    if sections.len() == 0 {
        Seq::empty()
    } else {
        lines(sections.drop_last()) + section_lines(sections.last().0, sections.last().1)
    }
}

/// Some value of the type of that name.
pub open spec fn kind_named(name: Seq<char>) -> Option<Value> {
    if name == "u8"@ {
        Some(Value::U8(0))
    } else if name == "i8"@ {
        Some(Value::I8(0))
    } else if name == "u16"@ {
        Some(Value::U16(0))
    } else if name == "i16"@ {
        Some(Value::I16(0))
    } else if name == "u32"@ {
        Some(Value::U32(0))
    } else if name == "i32"@ {
        Some(Value::I32(0))
    } else if name == "f32"@ {
        Some(Value::F32(0))
    } else {
        None
    }
}

/// The type that a line names before its first equals sign.
pub open spec fn line_kind(line: Seq<char>) -> Option<Value> {
    match split_at_first(line, '=') {
        Some((ty, _)) => kind_named(trimmed(ty)),
        None => None,
    }
}

/// The value text of a line, behind its first equals sign.
pub open spec fn line_text(line: Seq<char>) -> Seq<char> {
    match split_at_first(line, '=') {
        Some((_, text)) => trimmed(text),
        None => Seq::empty(),
    }
}

/// The value of a line; `None` where there is no equals sign, the type is not
/// known, or the text does not read as that type. `number` is how the text reads
/// as a single.
pub open spec fn line_value(line: Seq<char>, number: Option<u32>) -> Option<Value> {
    match line_kind(line) {
        Some(kind) => value_reading(kind, line_text(line), number),
        None => None,
    }
}

/// `ident_of` makes `ident` of a text.
pub open spec fn names<F: Fn(&str) -> Ident>(ident_of: F, text: Seq<char>, ident: Ident) -> bool {
    exists|s: &str| s@ == text && #[trigger] call_ensures(ident_of, (s,), ident)
}

/// `read_real` makes `number` of a text.
pub open spec fn reads<G: Fn(&str) -> Option<u32>>(
    read_real: G,
    text: Seq<char>,
    number: Option<u32>,
) -> bool {
    exists|s: &str| s@ == text && #[trigger] call_ensures(read_real, (s,), number)
}

/// `value` is what a line holds.
pub open spec fn holds_value<G: Fn(&str) -> Option<u32>>(
    read_real: G,
    line: Seq<char>,
    value: Option<Value>,
) -> bool {
    if line_kind(line) matches Some(Value::F32(_)) {
        exists|number: Option<u32>| #[trigger]
            reads(read_real, line_text(line), number) && value == line_value(line, number)
    } else {
        value == line_value(line, None)
    }
}

/// `idents` and `values` are the names and the values of the lines.
pub open spec fn reads_lines<F: Fn(&str) -> Ident, G: Fn(&str) -> Option<u32>>(
    ident_of: F,
    read_real: G,
    all: Seq<(Seq<char>, Seq<char>)>,
    idents: Seq<Ident>,
    values: Seq<Option<Value>>,
) -> bool {
    &&& idents.len() == all.len()
    &&& values.len() == all.len()
    &&& forall|j: int| 0 <= j < all.len() ==> names(ident_of, all[j].0, #[trigger] idents[j])
    &&& forall|j: int| 0 <= j < all.len() ==> holds_value(read_real, all[j].1, #[trigger] values[j])
}

/// The parameter that lines give to a key: that of the last line with a value
/// for it.
pub open spec fn loaded(idents: Seq<Ident>, values: Seq<Option<Value>>, key: Seq<int>) -> Option<
    Parameter,
>
    decreases idents.len(),
{
    if idents.len() == 0 {
        None
    } else if idents.last().rank() == key && values[idents.len() - 1] is Some {
        Some(fresh(values[idents.len() - 1]->0))
    } else {
        loaded(idents.drop_last(), values, key)
    }
}

proof fn lemma_loaded_prefix(
    idents: Seq<Ident>,
    a: Seq<Option<Value>>,
    b: Seq<Option<Value>>,
    key: Seq<int>,
)
    requires
        a.len() >= idents.len(),
        b.len() >= idents.len(),
        forall|j: int| 0 <= j < idents.len() ==> a[j] == b[j],
    ensures
        loaded(idents, a, key) == loaded(idents, b, key),
    decreases idents.len(),
{
    if idents.len() > 0 {
        lemma_loaded_prefix(idents.drop_last(), a, b, key);
    }
}

/// One more line takes its key over where it has a value, and changes nothing
/// otherwise.
pub proof fn lemma_loaded_push(
    idents: Seq<Ident>,
    values: Seq<Option<Value>>,
    ident: Ident,
    value: Option<Value>,
    key: Seq<int>,
)
    requires
        idents.len() == values.len(),
    ensures
        loaded(idents.push(ident), values.push(value), key) == if ident.rank() == key
            && value is Some {
            Some(fresh(value->0))
        } else {
            loaded(idents, values, key)
        },
{
    assert(idents.push(ident).drop_last() =~= idents);
    lemma_loaded_prefix(idents, values, values.push(value), key);
}

/// Reads the type that stands in a line.
fn kind_by_name(name: &str) -> (r: Option<Value>)
    ensures
        r == kind_named(name@),
{
    if same_text(name, "u8") {
        Some(Value::U8(0))
    } else if same_text(name, "i8") {
        Some(Value::I8(0))
    } else if same_text(name, "u16") {
        Some(Value::U16(0))
    } else if same_text(name, "i16") {
        Some(Value::I16(0))
    } else if same_text(name, "u32") {
        Some(Value::U32(0))
    } else if same_text(name, "i32") {
        Some(Value::I32(0))
    } else if same_text(name, "f32") {
        Some(Value::F32(0))
    } else {
        None
    }
}

/// Reads the value of a line. Singles are read by `read_real`.
pub fn parse_line<G: Fn(&str) -> Option<u32>>(line: &str, read_real: &G) -> (r: Option<Value>)
    requires
        forall|s: &str| call_requires(*read_real, (s,)),
    ensures
        holds_value(*read_real, line@, r),
{
    match split_once(line, '=') {
        None => None,
        Some((ty, val)) => {
            let ty = trim(ty.as_str());
            let val = trim(val.as_str());
            match kind_by_name(ty.as_str()) {
                None => None,
                Some(kind) => {
                    let text = val.as_str();
                    let r = value_parse_as(kind, text, read_real);
                    proof {
                        if kind is F32 {
                            let number = choose|number: Option<u32>| #[trigger]
                                call_ensures(*read_real, (text,), number) && r == value_reading(
                                    kind,
                                    text@,
                                    number,
                                );
                            assert(reads(*read_real, line_text(line@), number));
                        }
                    }
                    r
                },
            }
        },
    }
}

/// `r` holds what the sections of a document give: each line with a readable value gives
/// one parameter, as if a vehicle had just reported it.
pub open spec fn loads_sections<F: Fn(&str) -> Ident, G: Fn(&str) -> Option<u32>>(
    ident_of: F,
    read_real: G,
    sections: Seq<(Option<Seq<char>>, Seq<(Seq<char>, Seq<char>)>)>,
    r: Parameters,
) -> bool {
    &&& r.wf()
    &&& r.loading_state.has_loaded@ == Set::<u16>::empty()
    &&& r.loading_state.expected_count == 0
    &&& exists|idents: Seq<Ident>, values: Seq<Option<Value>>| #[trigger]
        reads_lines(ident_of, read_real, lines(sections), idents, values) && forall|key: Seq<int>|
            #[trigger] r.map.at(key) == loaded(idents, values, key)
}

/// Takes parameters out of a document: each line with a readable value gives one.
/// `ident_of` makes the name of a parameter of a text; singles are read by
/// `read_real`.
pub fn load_parameters_from_ini<F: Fn(&str) -> Ident, G: Fn(&str) -> Option<u32>>(
    conf: &ini::Ini,
    ident_of: F,
    read_real: G,
) -> (r: Parameters)
    requires
        forall|s: &str| call_requires(ident_of, (s,)),
        forall|s: &str| call_requires(read_real, (s,)),
    ensures
        loads_sections(ident_of, read_real, ini_sections(*conf), r),
{
    let items = ini_items(conf);
    let mut map: SortedMap<Ident, Parameter> = SortedMap::new();
    let ghost sections = ini_sections(*conf);
    let ghost mut idents: Seq<Ident> = Seq::empty();
    let ghost mut values: Seq<Option<Value>> = Seq::empty();
    let mut i: usize = 0;
    assert(sections.take(0) =~= Seq::empty());
    while i < items.len()
        invariant
            i <= items@.len(),
            sections == item_texts(items@),
            forall|s: &str| call_requires(ident_of, (s,)),
            forall|s: &str| call_requires(read_real, (s,)),
            map.wf(),
            reads_lines(ident_of, read_real, lines(sections.take(i as int)), idents, values),
            forall|key: Seq<int>| #[trigger] map.at(key) == loaded(idents, values, key),
        decreases items@.len() - i,
    {
        let item = &items[i];
        let ghost name = sections[i as int].0;
        let ghost properties = sections[i as int].1;
        let ghost earlier = lines(sections.take(i as int));
        let mut k: usize = 0;
        assert(earlier + section_lines(name, properties.take(0)) =~= earlier);
        while k < item.1.len()
            invariant
                i < items@.len(),
                *item == items@[i as int],
                k <= item.1@.len(),
                sections == item_texts(items@),
                name == sections[i as int].0,
                properties == sections[i as int].1,
                properties == pair_texts(item.1@),
                name == name_text(item.0),
                forall|s: &str| call_requires(ident_of, (s,)),
                forall|s: &str| call_requires(read_real, (s,)),
                map.wf(),
                reads_lines(
                    ident_of,
                    read_real,
                    earlier + section_lines(name, properties.take(k as int)),
                    idents,
                    values,
                ),
                forall|key: Seq<int>| #[trigger] map.at(key) == loaded(idents, values, key),
            decreases item.1@.len() - k,
        {
            let property = &item.1[k];
            let mut full = String::new();
            match &item.0 {
                Some(section) => {
                    push_text(&mut full, section.as_str());
                    full.push('.');
                    push_text(&mut full, property.0.as_str());
                },
                None => {
                    push_text(&mut full, property.0.as_str());
                },
            }
            assert(full@ =~= joined(name, properties[k as int].0));
            let text = full.as_str();
            let ident = ident_of(text);
            let value = parse_line(property.1.as_str(), &read_real);
            let ghost all = earlier + section_lines(name, properties.take(k as int));
            let ghost one = (joined(name, properties[k as int].0), properties[k as int].1);
            proof {
                let now = earlier + section_lines(name, properties.take(k as int + 1));
                assert(now =~= all.push(one));
                assert(names(ident_of, one.0, ident));
                assert forall|j: int| 0 <= j < now.len() implies names(
                    ident_of,
                    now[j].0,
                    #[trigger] idents.push(ident)[j],
                ) by {
                    if j < all.len() {
                        assert(idents.push(ident)[j] == idents[j]);
                        assert(now[j] == all[j]);
                    }
                }
                assert forall|j: int| 0 <= j < now.len() implies holds_value(
                    read_real,
                    now[j].1,
                    #[trigger] values.push(value)[j],
                ) by {
                    if j < all.len() {
                        assert(values.push(value)[j] == values[j]);
                        assert(now[j] == all[j]);
                    }
                }
                assert forall|key: Seq<int>| #[trigger]
                    loaded(idents.push(ident), values.push(value), key) == if ident.rank() == key
                        && value is Some {
                        Some(fresh(value->0))
                    } else {
                        loaded(idents, values, key)
                    } by {
                    lemma_loaded_push(idents, values, ident, value, key);
                }
                idents = idents.push(ident);
                values = values.push(value);
            }
            match value {
                Some(value) => {
                    map.insert(ident, Parameter::new(value));
                },
                None => {},
            }
            k += 1;
        }
        proof {
            assert(properties.take(properties.len() as int) =~= properties);
            assert(sections.take(i as int + 1).drop_last() =~= sections.take(i as int));
            assert(sections.take(i as int + 1).last() == sections[i as int]);
        }
        i += 1;
    }
    proof {
        assert(sections.take(sections.len() as int) =~= sections);
    }
    Parameters { map, loading_state: LoadingState::new() }
}

// ---------------------------------------------------------------------------
// Reading back what was written
// ---------------------------------------------------------------------------

/// A line of a document.
pub open spec fn has_line(
    sections: Seq<(Option<Seq<char>>, Seq<(Seq<char>, Seq<char>)>)>,
    i: int,
    k: int,
) -> bool {
    0 <= i < sections.len() && 0 <= k < sections[i].1.len()
}

spec fn line_at(
    sections: Seq<(Option<Seq<char>>, Seq<(Seq<char>, Seq<char>)>)>,
    i: int,
    k: int,
) -> (Seq<char>, Seq<char>) {
    (joined(sections[i].0, sections[i].1[k].0), sections[i].1[k].1)
}

spec fn is_line(
    sections: Seq<(Option<Seq<char>>, Seq<(Seq<char>, Seq<char>)>)>,
    line: (Seq<char>, Seq<char>),
) -> bool {
    exists|i: int, k: int| #[trigger] has_line(sections, i, k) && line == line_at(sections, i, k)
}

/// The lines are the properties of the sections, each with its full name.
proof fn lemma_lines(sections: Seq<(Option<Seq<char>>, Seq<(Seq<char>, Seq<char>)>)>)
    ensures
        forall|n: int|
            0 <= n < lines(sections).len() ==> is_line(sections, #[trigger] lines(sections)[n]),
        forall|i: int, k: int| #[trigger]
            has_line(sections, i, k) ==> lines(sections).contains(line_at(sections, i, k)),
    decreases sections.len(),
{
    if sections.len() > 0 {
        let rest = sections.drop_last();
        let last = section_lines(sections.last().0, sections.last().1);
        let all = lines(sections);
        lemma_lines(rest);
        assert(all == lines(rest) + last);
        assert forall|n: int| 0 <= n < all.len() implies is_line(sections, #[trigger] all[n]) by {
            if n < lines(rest).len() {
                assert(all[n] == lines(rest)[n]);
                let (i, k) = choose|i: int, k: int| #[trigger]
                    has_line(rest, i, k) && lines(rest)[n] == line_at(rest, i, k);
                assert(has_line(sections, i, k));
            } else {
                assert(all[n] == last[n - lines(rest).len()]);
                assert(has_line(sections, sections.len() - 1, n - lines(rest).len()));
            }
        }
        assert forall|i: int, k: int| #[trigger] has_line(sections, i, k) implies all.contains(
            line_at(sections, i, k),
        ) by {
            if i < rest.len() {
                assert(has_line(rest, i, k));
                let n = choose|n: int|
                    0 <= n < lines(rest).len() && lines(rest)[n] == line_at(rest, i, k);
                assert(all[n] == line_at(sections, i, k));
            } else {
                assert(all[lines(rest).len() + k] == last[k]);
            }
        }
    }
}

/// A name is its section, a separator and its property.
proof fn lemma_joined(name: Seq<char>)
    ensures
        joined(section_of(name, '.'), property_of(name, '.')) == name,
{
    lemma_position_of(name, '.');
    let p = position_of(name, '.');
    if p < name.len() {
        assert(name.take(p) + seq!['.'] + name.skip(p + 1) =~= name);
    }
}

proof fn lemma_filter_keeps<T>(s: Seq<T>, pred: spec_fn(T) -> bool)
    requires
        forall|i: int| 0 <= i < s.len() ==> pred(#[trigger] s[i]),
    ensures
        s.filter(pred) == s,
    decreases s.len(),
{
    reveal(Seq::filter);
    if s.len() > 0 {
        assert forall|i: int| 0 <= i < s.drop_last().len() implies pred(
            #[trigger] s.drop_last()[i],
        ) by {
            assert(s.drop_last()[i] == s[i]);
        }
        lemma_filter_keeps(s.drop_last(), pred);
        assert(pred(s[s.len() - 1]));
        assert(s.drop_last().push(s.last()) =~= s);
    }
}

/// Names with the same section and the same key are the same.
pub proof fn lemma_parts_differ(a: Seq<char>, b: Seq<char>, sep: char)
    requires
        section_of(a, sep) == section_of(b, sep),
        property_of(a, sep) == property_of(b, sep),
    ensures
        a == b,
{
    lemma_position_of(a, sep);
    lemma_position_of(b, sep);
    let p = position_of(a, sep);
    let q = position_of(b, sep);
    if p < a.len() {
        assert(a =~= a.take(p) + seq![sep] + a.skip(p + 1));
        assert(b =~= b.take(q) + seq![sep] + b.skip(q + 1));
    }
}

/// A property of a section that an entry became.
pub open spec fn stands_for(
    entries: Seq<(Ident, Parameter)>,
    texts: Seq<String>,
    sections: Seq<(Option<Seq<char>>, Seq<(Seq<char>, Seq<char>)>)>,
    sep: char,
    j: int,
    i: int,
    k: int,
) -> bool {
    &&& 0 <= j < entries.len()
    &&& has_line(sections, i, k)
    &&& sections[i].0 == section_of(entries[j].0@, sep)
    &&& sections[i].1[k].0 == property_of(entries[j].0@, sep)
    &&& sections[i].1[k].1 == typed_text(entries[j].1.value, texts[j]@)
}

/// An entry that became a property.
pub open spec fn has_place(
    entries: Seq<(Ident, Parameter)>,
    texts: Seq<String>,
    sections: Seq<(Option<Seq<char>>, Seq<(Seq<char>, Seq<char>)>)>,
    sep: char,
    j: int,
) -> bool {
    exists|i: int, k: int| #[trigger] stands_for(entries, texts, sections, sep, j, i, k)
}

/// Names that differ.
pub open spec fn names_differ(entries: Seq<(Ident, Parameter)>) -> bool {
    forall|a: int, b: int|
        0 <= a < b < entries.len() ==> #[trigger] entries[a].0@ != #[trigger] entries[b].0@
}

/// Each entry became a property, and each property comes from an entry.
pub proof fn lemma_saved(entries: Seq<(Ident, Parameter)>, texts: Seq<String>, sep: char)
    requires
        names_differ(entries),
        texts.len() >= entries.len(),
    ensures
        forall|j: int|
            0 <= j < entries.len() ==> #[trigger] has_place(
                entries,
                texts,
                saved(entries, texts, sep),
                sep,
                j,
            ),
        forall|i: int, k: int| #[trigger]
            has_line(saved(entries, texts, sep), i, k) ==> exists|j: int| #[trigger]
                stands_for(entries, texts, saved(entries, texts, sep), sep, j, i, k),
    decreases entries.len(),
{
    let now = saved(entries, texts, sep);
    if entries.len() > 0 {
        let n = entries.len() - 1;
        let rest = entries.drop_last();
        assert(names_differ(rest)) by {
            assert forall|a: int, b: int| 0 <= a < b < rest.len() implies #[trigger] rest[a].0@
                != #[trigger] rest[b].0@ by {
                assert(entries[a].0@ != entries[b].0@);
            }
        }
        lemma_saved(rest, texts, sep);
        let was = saved(rest, texts, sep);
        let name = entries[n].0@;
        let section = section_of(name, sep);
        let key = property_of(name, sep);
        let value = typed_text(entries[n].1.value, texts[n]@);
        let s = position_of(section_names(was), section);
        lemma_position_of(section_names(was), section);
        let pred = keyed_otherwise(key);
        if s < was.len() {
            assert(was[s].0 == section_names(was)[s]);
            assert forall|k: int| 0 <= k < was[s].1.len() implies pred(#[trigger] was[s].1[k]) by {
                assert(has_line(was, s, k));
                let j = choose|j: int| #[trigger] stands_for(rest, texts, was, sep, j, s, k);
                assert(entries[j].0@ != entries[n].0@);
                if was[s].1[k].0 == key {
                    lemma_parts_differ(entries[j].0@, name, sep);
                }
            }
            lemma_filter_keeps(was[s].1, pred);
            assert(now == was.update(s, (section, was[s].1.push((key, value)))));
            assert(stands_for(entries, texts, now, sep, n, s, was[s].1.len() as int));
        } else {
            assert(now == was.push((section, seq![(key, value)])));
            assert(stands_for(entries, texts, now, sep, n, was.len() as int, 0));
        }
        assert forall|j: int| 0 <= j < entries.len() implies #[trigger] has_place(
            entries,
            texts,
            now,
            sep,
            j,
        ) by {
            if j < n {
                assert(has_place(rest, texts, was, sep, j));
                let (i, k) = choose|i: int, k: int| #[trigger]
                    stands_for(rest, texts, was, sep, j, i, k);
                assert(stands_for(entries, texts, now, sep, j, i, k));
            }
        }
        assert forall|i: int, k: int| #[trigger] has_line(now, i, k) implies exists|j: int|
            #[trigger] stands_for(entries, texts, now, sep, j, i, k) by {
            if has_line(was, i, k) {
                let j = choose|j: int| #[trigger] stands_for(rest, texts, was, sep, j, i, k);
                assert(stands_for(entries, texts, now, sep, j, i, k));
            } else {
                assert(stands_for(entries, texts, now, sep, n, i, k));
            }
        }
    } else {
        assert(now[0].1.len() == 0);
    }
}

/// The type that a typed text names is that of its value, and what stands behind is
/// the text of its value.
proof fn lemma_typed_text(value: Value, text: Seq<char>)
    ensures
        line_kind(typed_text(value, text)) matches Some(kind) && forall|
            s: Seq<char>,
            number: Option<u32>,
        | #[trigger]
            value_reading(kind, s, number) == value_reading(value, s, number),
        line_kind(typed_text(value, text)) matches Some(Value::F32(_)) <==> value is F32,
        line_text(typed_text(value, text)) == trimmed(text),
{
    reveal_strlit("u8");
    reveal_strlit("i8");
    reveal_strlit("u16");
    reveal_strlit("i16");
    reveal_strlit("u32");
    reveal_strlit("i32");
    reveal_strlit("f32");
    reveal_strlit(" = ");
    let name = name_of_type(value);
    let line = typed_text(value, text);
    let p = name.len() as int + 1;
    assert(name.len() == 2 || name.len() == 3);
    assert(line[p] == '=');
    assert forall|i: int| 0 <= i < p implies #[trigger] line[i] != '=' by {
        if i < name.len() {
            assert(line[i] == name[i]);
        }
    }
    lemma_position_is(line, '=', p);
    let ty = line.take(p);
    assert(ty =~= name.push(' '));
    assert(ty.drop_last() =~= name);
    assert(!is_space(name[0]) && !is_space(name.last()));
    assert(ty[0] == name[0]);
    reveal_with_fuel(trimmed, 3);
    assert(trimmed(ty) == name);
    let rest = line.skip(p + 1);
    assert(rest =~= seq![' '] + text);
    assert(rest.skip(1) =~= text);
    assert(rest[0] == ' ');
    assert(trimmed(rest) == trimmed(text));
    assert("u8"@[0] == 'u' && "i8"@[0] == 'i' && "u16"@[1] == '1' && "u32"@[1] == '3');
    assert("i16"@[1] == '1' && "i32"@[1] == '3' && "u16"@[0] == 'u' && "u32"@[0] == 'u');
    assert("i16"@[0] == 'i' && "i32"@[0] == 'i' && "f32"@[0] == 'f');
    assert(line_kind(line) == kind_named(name));
}

/// A decimal numeral has no white space at its ends.
proof fn lemma_numeral_trimmed(n: int)
    ensures
        trimmed(signed_decimal(n)) == signed_decimal(n),
{
    let magnitude = if n < 0 {
        (-n) as nat
    } else {
        n as nat
    };
    lemma_decimal(magnitude);
    let s = signed_decimal(n);
    let d = decimal(magnitude);
    assert(is_digit(d[0]) && is_digit(d[d.len() - 1]));
    assert(s.last() == d.last());
    lemma_trimmed_same(s);
}

/// Among lines with a value each, the one with a key gives its value.
proof fn lemma_loaded(idents: Seq<Ident>, values: Seq<Option<Value>>, key: Seq<int>)
    requires
        idents.len() <= values.len(),
    ensures
        match loaded(idents, values, key) {
            Some(p) => exists|n: int|
                0 <= n < idents.len() && #[trigger] idents[n].rank() == key && values[n] is Some
                    && p == fresh(values[n]->0),
            None => forall|n: int|
                0 <= n < idents.len() && #[trigger] idents[n].rank() == key ==> values[n] is None,
        },
    decreases idents.len(),
{
    if idents.len() > 0 {
        let rest = idents.drop_last();
        lemma_loaded(rest, values, key);
        let last = idents.len() - 1;
        if idents.last().rank() == key && values[last] is Some {
            assert(idents[last].rank() == key);
        } else {
            match loaded(rest, values, key) {
                Some(p) => {
                    let n = choose|n: int|
                        0 <= n < rest.len() && #[trigger] rest[n].rank() == key && values[n] is Some
                            && p == fresh(values[n]->0);
                    assert(idents[n].rank() == key);
                },
                None => {
                    assert forall|n: int|
                        0 <= n < idents.len() && #[trigger] idents[n].rank()
                            == key implies values[n] is None by {
                        if n < last {
                            assert(rest[n].rank() == key);
                        }
                    }
                },
            }
        }
    }
}

/// What the surroundings make of names and singles is undone by reading: a name that
/// fits is kept, and a single that is written comes back from its text, which has no
/// white space at its ends.
pub open spec fn faithful<
    F: Fn(u32) -> String,
    G: Fn(&str) -> Option<u32>,
    H: Fn(&str) -> Ident,
>(real_text: F, read_real: G, ident_of: H, entries: Seq<(Ident, Parameter)>) -> bool {
    &&& forall|s: &str, ident: Ident| #[trigger]
        call_ensures(ident_of, (s,), ident) && fits_ident(s@) ==> ident@ == s@
    &&& forall|j: int, text: String, s: &str, number: Option<u32>|
        #![trigger entries[j], call_ensures(read_real, (s,), number), text@]
        0 <= j < entries.len() && (entries[j].1.value matches Value::F32(bits) && call_ensures(
            real_text,
            (bits,),
            text,
        ) && s@ == text@ && call_ensures(read_real, (s,), number)) ==> entries[j].1.value
            == Value::F32(number->0) && number is Some
    &&& forall|j: int, text: String|
        #![trigger entries[j], text@]
        0 <= j < entries.len() && (entries[j].1.value matches Value::F32(bits) && call_ensures(
            real_text,
            (bits,),
            text,
        )) ==> trimmed(text@) == text@
}

/// The value of the line that an entry became.
proof fn lemma_entry_line<
    F: Fn(u32) -> String,
    G: Fn(&str) -> Option<u32>,
    H: Fn(&str) -> Ident,
>(
    real_text: F,
    read_real: G,
    ident_of: H,
    entries: Seq<(Ident, Parameter)>,
    texts: Seq<String>,
    j: int,
    value: Option<Value>,
)
    requires
        0 <= j < entries.len(),
        writes_all(real_text, entries, texts),
        faithful(real_text, read_real, ident_of, entries),
        holds_value(read_real, typed_text(entries[j].1.value, texts[j]@), value),
    ensures
        value == Some(entries[j].1.value),
{
    let held = entries[j].1.value;
    let text = texts[j];
    let line = typed_text(held, text@);
    assert(writes_value(real_text, held, text));
    lemma_typed_text(held, text@);
    match held {
        Value::F32(bits) => {
            assert(trimmed(text@) == text@);
            let number = choose|number: Option<u32>| #[trigger]
                reads(read_real, line_text(line), number) && value == line_value(line, number);
            let s = choose|s: &str|
                s@ == line_text(line) && #[trigger] call_ensures(read_real, (s,), number);
            assert(number == Some(bits));
            law_text_round_trip(real_text, held, held, text, number);
        },
        Value::U8(v) => lemma_numeral_trimmed(v as int),
        Value::I8(v) => lemma_numeral_trimmed(v as int),
        Value::U16(v) => lemma_numeral_trimmed(v as int),
        Value::I16(v) => lemma_numeral_trimmed(v as int),
        Value::U32(v) => lemma_numeral_trimmed(v as int),
        Value::I32(v) => lemma_numeral_trimmed(v as int),
    }
    if held !is F32 {
        law_text_round_trip(real_text, held, held, text, None);
    }
}

/// Loading a document that was saved, with dots between the segments of the names,
/// gives each parameter back by its name and value, and no other parameter.
pub proof fn law_file_round_trip<
    F: Fn(u32) -> String,
    G: Fn(&str) -> Option<u32>,
    H: Fn(&str) -> Ident,
>(
    real_text: F,
    read_real: G,
    ident_of: H,
    entries: Seq<(Ident, Parameter)>,
    texts: Seq<String>,
    idents: Seq<Ident>,
    values: Seq<Option<Value>>,
    key: Seq<int>,
)
    requires
        sorted(entries),
        forall|j: int| 0 <= j < entries.len() ==> fits_ident(#[trigger] entries[j].0@),
        faithful(real_text, read_real, ident_of, entries),
        writes_all(real_text, entries, texts),
        reads_lines(ident_of, read_real, lines(saved(entries, texts, '.')), idents, values),
    ensures
        loaded(idents, values, key) == match value_at(entries, key) {
            Some(parameter) => Some(fresh(parameter.value)),
            None => None,
        },
{
    let sections = saved(entries, texts, '.');
    let all = lines(sections);
    assert(names_differ(entries)) by {
        assert forall|a: int, b: int| 0 <= a < b < entries.len() implies #[trigger] entries[a].0@
            != #[trigger] entries[b].0@ by {
            assert(before(entries[a].0.rank(), entries[b].0.rank()));
            law_before_irreflexive(entries[a].0.rank());
        }
    }
    lemma_saved(entries, texts, '.');
    lemma_lines(sections);
    lemma_loaded(idents, values, key);
    lemma_position_of(ranks(entries), key);
    // Each line is that of an entry.
    assert forall|n: int| 0 <= n < all.len() implies exists|j: int|
        0 <= j < entries.len() && #[trigger] idents[n].rank() == #[trigger] entries[j].0.rank()
            && values[n] == Some(entries[j].1.value) by {
        assert(is_line(sections, all[n]));
        let (i, k) = choose|i: int, k: int| #[trigger]
            has_line(sections, i, k) && all[n] == line_at(sections, i, k);
        let j = choose|j: int| #[trigger] stands_for(entries, texts, sections, '.', j, i, k);
        lemma_joined(entries[j].0@);
        assert(all[n].0 == entries[j].0@);
        assert(fits_ident(entries[j].0@));
        assert(names(ident_of, all[n].0, idents[n]));
        assert(holds_value(read_real, all[n].1, values[n]));
        lemma_entry_line(real_text, read_real, ident_of, entries, texts, j, values[n]);
        assert(idents[n].rank() == entries[j].0.rank());
    }
    match loaded(idents, values, key) {
        Some(p) => {
            let n = choose|n: int|
                0 <= n < idents.len() && #[trigger] idents[n].rank() == key && values[n] is Some
                    && p == fresh(values[n]->0);
            let j = choose|j: int|
                0 <= j < entries.len() && idents[n].rank() == #[trigger] entries[j].0.rank()
                    && values[n] == Some(entries[j].1.value);
            lemma_key_once(entries, j, key);
        },
        None => {
            let at = position_of(ranks(entries), key);
            if at < entries.len() {
                assert(ranks(entries)[at] == entries[at].0.rank());
                assert(has_place(entries, texts, sections, '.', at));
                let (i, k) = choose|i: int, k: int| #[trigger]
                    stands_for(entries, texts, sections, '.', at, i, k);
                assert(has_line(sections, i, k));
                let n = choose|n: int| 0 <= n < all.len() && all[n] == line_at(sections, i, k);
                lemma_joined(entries[at].0@);
                assert(fits_ident(entries[at].0@));
                assert(names(ident_of, all[n].0, idents[n]));
                assert(idents[n].rank() == key);
                assert(values[n] is Some);
            }
        },
    }
}

/// What is saved goes by the names and the values alone: parameters that differ in what
/// the user makes of them only give the same document.
pub proof fn law_saved_by_names_and_values<F: Fn(u32) -> String>(
    real_text: F,
    a: Seq<(Ident, Parameter)>,
    b: Seq<(Ident, Parameter)>,
    sep: char,
    sections: Seq<(Option<Seq<char>>, Seq<(Seq<char>, Seq<char>)>)>,
)
    requires
        same_values(a, b),
    ensures
        saves(real_text, a, sep, sections) == saves(real_text, b, sep, sections),
{
    assert forall|texts: Seq<String>| saved(a, texts, sep) == #[trigger] saved(b, texts, sep) by {
        lemma_saved_alike(a, b, texts, sep);
    }
    assert forall|texts: Seq<String>| #[trigger]
        writes_all(real_text, a, texts) == writes_all(real_text, b, texts) by {
        if writes_all(real_text, a, texts) {
            assert forall|j: int| 0 <= j < b.len() implies writes_value(
                real_text,
                b[j].1.value,
                #[trigger] texts[j],
            ) by {
                assert(b[j].1.value == a[j].1.value);
            }
        }
        if writes_all(real_text, b, texts) {
            assert forall|j: int| 0 <= j < a.len() implies writes_value(
                real_text,
                a[j].1.value,
                #[trigger] texts[j],
            ) by {
                assert(b[j].1.value == a[j].1.value);
            }
        }
    }
    if saves(real_text, a, sep, sections) {
        let texts = choose|texts: Seq<String>| #[trigger]
            writes_all(real_text, a, texts) && sections == saved(a, texts, sep);
        assert(writes_all(real_text, b, texts) && sections == saved(b, texts, sep));
    }
    if saves(real_text, b, sep, sections) {
        let texts = choose|texts: Seq<String>| #[trigger]
            writes_all(real_text, b, texts) && sections == saved(b, texts, sep);
        assert(writes_all(real_text, a, texts) && sections == saved(a, texts, sep));
    }
}

proof fn lemma_saved_alike(
    a: Seq<(Ident, Parameter)>,
    b: Seq<(Ident, Parameter)>,
    texts: Seq<String>,
    sep: char,
)
    requires
        same_values(a, b),
    ensures
        saved(a, texts, sep) == saved(b, texts, sep),
    decreases a.len(),
{
    if a.len() > 0 {
        let n = a.len() - 1;
        assert(b[n].0 == a[n].0 && b[n].1.value == a[n].1.value);
        assert forall|i: int| 0 <= i < n implies (#[trigger] b.drop_last()[i]).0 == a.drop_last()[i].0
            && b.drop_last()[i].1.value == a.drop_last()[i].1.value by {
            assert(b[i].0 == a[i].0);
        }
        lemma_saved_alike(a.drop_last(), b.drop_last(), texts, sep);
        reveal_strlit(" = ");
        assert(name_of_type(a[n].1.value) == name_of_type(b[n].1.value));
    }
}

/// Each single has one text.
pub open spec fn settled<F: Fn(u32) -> String>(real_text: F) -> bool {
    forall|bits: u32, a: String, b: String| #[trigger]
        call_ensures(real_text, (bits,), a) && #[trigger] call_ensures(real_text, (bits,), b)
            ==> a@ == b@
}

/// Parameters of the same names and values give the same document, where each single has
/// one text.
pub proof fn law_same_values_same_document<F: Fn(u32) -> String>(
    real_text: F,
    a: Seq<(Ident, Parameter)>,
    b: Seq<(Ident, Parameter)>,
    sep: char,
    first: Seq<(Option<Seq<char>>, Seq<(Seq<char>, Seq<char>)>)>,
    second: Seq<(Option<Seq<char>>, Seq<(Seq<char>, Seq<char>)>)>,
)
    requires
        settled(real_text),
        same_values(a, b),
        saves(real_text, a, sep, first),
        saves(real_text, b, sep, second),
    ensures
        first == second,
{
    law_saved_by_names_and_values(real_text, a, b, sep, second);
    let x = choose|texts: Seq<String>| #[trigger]
        writes_all(real_text, a, texts) && first == saved(a, texts, sep);
    let y = choose|texts: Seq<String>| #[trigger]
        writes_all(real_text, a, texts) && second == saved(a, texts, sep);
    assert forall|j: int| 0 <= j < a.len() implies #[trigger] x[j]@ == y[j]@ by {
        assert(writes_value(real_text, a[j].1.value, x[j]));
        assert(writes_value(real_text, a[j].1.value, y[j]));
    }
    lemma_saved_same_texts(a, x, y, sep);
}

proof fn lemma_saved_same_texts(
    entries: Seq<(Ident, Parameter)>,
    a: Seq<String>,
    b: Seq<String>,
    sep: char,
)
    requires
        a.len() >= entries.len(),
        b.len() >= entries.len(),
        forall|j: int| 0 <= j < entries.len() ==> #[trigger] a[j]@ == b[j]@,
    ensures
        saved(entries, a, sep) == saved(entries, b, sep),
    decreases entries.len(),
{
    if entries.len() > 0 {
        lemma_saved_same_texts(entries.drop_last(), a, b, sep);
        assert(a[entries.len() - 1]@ == b[entries.len() - 1]@);
    }
}

} // verus!
