//! Parameter files.

use crate::file_text::{file_characters, ini_read, loads_file, written, FileError};
use crate::ident::Ident;
use crate::parameter_file::{
    has_line, has_place, holds_value, joined, kind_named, lemma_loaded_push, lemma_saved, line_kind,
    line_text, lines, loaded, loads_sections, names_differ, property_of, reads, saved, saves,
    section_of, stands_for, typed_text, writes_all,
};
use crate::parameters::{Parameter, Parameters};
use crate::laws::words::law_splitting;
use crate::sorted::{before, law_before_irreflexive, sorted, Key};
use crate::text::{decimal, signed_decimal, trimmed};
use crate::value::{value_reading, writes_value, Value};
use vstd::prelude::*;
use vstd::utf8::{decode_utf8, valid_utf8};

verus! {

/// The section of a name stands before its first separator and the key behind it; a name
/// without one is a key of the general section.
pub proof fn law_sections_and_keys(
    name: Seq<char>,
    sep: char,
    section: Seq<char>,
    key: Seq<char>,
)
    ensures
        !section.contains(sep) && name == section + seq![sep] + key ==> section_of(name, sep)
            == Some(section) && property_of(name, sep) == key,
        !name.contains(sep) ==> section_of(name, sep) is None && property_of(name, sep) == name,
{
    law_splitting(name, sep, section, key);
}

/// A value is written with the name of its type before it, whatever it is.
pub proof fn law_values_are_written_with_their_type(value: Value, text: Seq<char>)
    ensures
        match value {
            Value::U8(_) => typed_text(value, text) == seq!['u', '8', ' ', '=', ' '] + text,
            Value::I8(_) => typed_text(value, text) == seq!['i', '8', ' ', '=', ' '] + text,
            Value::U16(_) => typed_text(value, text) == seq!['u', '1', '6', ' ', '=', ' '] + text,
            Value::I16(_) => typed_text(value, text) == seq!['i', '1', '6', ' ', '=', ' '] + text,
            Value::U32(_) => typed_text(value, text) == seq!['u', '3', '2', ' ', '=', ' '] + text,
            Value::I32(_) => typed_text(value, text) == seq!['i', '3', '2', ' ', '=', ' '] + text,
            Value::F32(_) => typed_text(value, text) == seq!['f', '3', '2', ' ', '=', ' '] + text,
        },
{
    reveal_strlit("u8");
    reveal_strlit("i8");
    reveal_strlit("u16");
    reveal_strlit("i16");
    reveal_strlit("u32");
    reveal_strlit("i32");
    reveal_strlit("f32");
    reveal_strlit(" = ");
    match value {
        Value::U8(_) => assert(typed_text(value, text) =~= seq!['u', '8', ' ', '=', ' '] + text),
        Value::I8(_) => assert(typed_text(value, text) =~= seq!['i', '8', ' ', '=', ' '] + text),
        Value::U16(_) => assert(typed_text(value, text) =~= seq!['u', '1', '6', ' ', '=', ' ']
            + text),
        Value::I16(_) => assert(typed_text(value, text) =~= seq!['i', '1', '6', ' ', '=', ' ']
            + text),
        Value::U32(_) => assert(typed_text(value, text) =~= seq!['u', '3', '2', ' ', '=', ' ']
            + text),
        Value::I32(_) => assert(typed_text(value, text) =~= seq!['i', '3', '2', ' ', '=', ' ']
            + text),
        Value::F32(_) => assert(typed_text(value, text) =~= seq!['f', '3', '2', ' ', '=', ' ']
            + text),
    }
}

/// A text that writes a value is its decimal numeral, or what the writer of singles gives.
pub proof fn law_values_are_written<F: Fn(u32) -> String>(real_text: F, value: Value, text: String)
    ensures
        writes_value(real_text, value, text) <==> match value {
            Value::U8(v) => text@ == decimal(v as nat),
            Value::I8(v) => text@ == signed_decimal(v as int),
            Value::U16(v) => text@ == decimal(v as nat),
            Value::I16(v) => text@ == signed_decimal(v as int),
            Value::U32(v) => text@ == decimal(v as nat),
            Value::I32(v) => text@ == signed_decimal(v as int),
            Value::F32(v) => call_ensures(real_text, (v,), text),
        },
{
}

/// A document holds each parameter in the section of its name under its key, with the value
/// that the vehicle reported, whatever the user made of it, and holds nothing else.
pub proof fn law_documents_hold_the_parameters<F: Fn(u32) -> String>(
    real_text: F,
    entries: Seq<(Ident, Parameter)>,
    sep: char,
    sections: Seq<(Option<Seq<char>>, Seq<(Seq<char>, Seq<char>)>)>,
)
    requires
        sorted(entries),
        saves(real_text, entries, sep, sections),
    ensures
        exists|texts: Seq<String>| #[trigger]
            writes_all(real_text, entries, texts) && {
                &&& forall|j: int|
                    0 <= j < entries.len() ==> #[trigger] has_place(
                        entries,
                        texts,
                        sections,
                        sep,
                        j,
                    )
                &&& forall|i: int, k: int| #[trigger]
                    has_line(sections, i, k) ==> exists|j: int| #[trigger]
                        stands_for(entries, texts, sections, sep, j, i, k)
            },
{
    let texts = choose|texts: Seq<String>| #[trigger]
        writes_all(real_text, entries, texts) && sections == saved(entries, texts, sep);
    assert(names_differ(entries)) by {
        assert forall|a: int, b: int| 0 <= a < b < entries.len() implies #[trigger] entries[a].0@
            != #[trigger] entries[b].0@ by {
            assert(before(entries[a].0.rank(), entries[b].0.rank()));
            law_before_irreflexive(entries[a].0.rank());
        }
    }
    lemma_saved(entries, texts, sep);
}

/// A property that stands for a parameter is in the section of its name, under its key, and
/// holds its type and its value.
pub proof fn law_properties_stand_for_parameters<F: Fn(u32) -> String>(
    real_text: F,
    entries: Seq<(Ident, Parameter)>,
    texts: Seq<String>,
    sections: Seq<(Option<Seq<char>>, Seq<(Seq<char>, Seq<char>)>)>,
    sep: char,
    j: int,
    i: int,
    k: int,
)
    requires
        writes_all(real_text, entries, texts),
        stands_for(entries, texts, sections, sep, j, i, k),
    ensures
        0 <= j < entries.len(),
        0 <= i < sections.len(),
        0 <= k < sections[i].1.len(),
        sections[i].0 == section_of(entries[j].0@, sep),
        sections[i].1[k].0 == property_of(entries[j].0@, sep),
        writes_value(real_text, entries[j].1.value, texts[j]),
        sections[i].1[k].1 == typed_text(entries[j].1.value, texts[j]@),
{
}

/// A line holds a value where a type stands before its first equals sign and a value of that
/// type behind it, with whatever white space around both; else it holds none.
pub proof fn law_lines<G: Fn(&str) -> Option<u32>>(
    read_real: G,
    ty: Seq<char>,
    val: Seq<char>,
    r: Option<Value>,
)
    requires
        !ty.contains('='),
        holds_value(read_real, ty + seq!['='] + val, r),
    ensures
        trimmed(ty) == seq!['u', '8'] ==> r == value_reading(Value::U8(0), trimmed(val), None),
        trimmed(ty) == seq!['i', '8'] ==> r == value_reading(Value::I8(0), trimmed(val), None),
        trimmed(ty) == seq!['u', '1', '6'] ==> r == value_reading(
            Value::U16(0),
            trimmed(val),
            None,
        ),
        trimmed(ty) == seq!['i', '1', '6'] ==> r == value_reading(
            Value::I16(0),
            trimmed(val),
            None,
        ),
        trimmed(ty) == seq!['u', '3', '2'] ==> r == value_reading(
            Value::U32(0),
            trimmed(val),
            None,
        ),
        trimmed(ty) == seq!['i', '3', '2'] ==> r == value_reading(
            Value::I32(0),
            trimmed(val),
            None,
        ),
        trimmed(ty) == seq!['f', '3', '2'] ==> exists|s: &str, number: Option<u32>|
            #![trigger call_ensures(read_real, (s,), number)]
            s@ == trimmed(val) && call_ensures(read_real, (s,), number) && r == match number {
                Some(bits) => Some(Value::F32(bits)),
                None => None,
            },
        trimmed(ty) != seq!['u', '8'] && trimmed(ty) != seq!['i', '8'] && trimmed(ty)
            != seq!['u', '1', '6'] && trimmed(ty) != seq!['i', '1', '6'] && trimmed(ty)
            != seq!['u', '3', '2'] && trimmed(ty) != seq!['i', '3', '2'] && trimmed(ty)
            != seq!['f', '3', '2'] ==> r is None,
{
    let line = ty + seq!['='] + val;
    law_splitting(line, '=', ty, val);
    reveal_strlit("u8");
    reveal_strlit("i8");
    reveal_strlit("u16");
    reveal_strlit("i16");
    reveal_strlit("u32");
    reveal_strlit("i32");
    reveal_strlit("f32");
    assert("u8"@ =~= seq!['u', '8']);
    assert("i8"@ =~= seq!['i', '8']);
    assert("u16"@ =~= seq!['u', '1', '6']);
    assert("i16"@ =~= seq!['i', '1', '6']);
    assert("u32"@ =~= seq!['u', '3', '2']);
    assert("i32"@ =~= seq!['i', '3', '2']);
    assert("f32"@ =~= seq!['f', '3', '2']);
    assert(seq!['u', '8'][0] == 'u' && seq!['i', '8'][0] == 'i');
    assert(seq!['u', '1', '6'][0] == 'u' && seq!['u', '1', '6'][1] == '1');
    assert(seq!['i', '1', '6'][0] == 'i' && seq!['i', '1', '6'][1] == '1');
    assert(seq!['u', '3', '2'][0] == 'u' && seq!['u', '3', '2'][1] == '3');
    assert(seq!['i', '3', '2'][0] == 'i' && seq!['i', '3', '2'][1] == '3');
    assert(seq!['f', '3', '2'][0] == 'f');
    assert(line_text(line) == trimmed(val));
    assert(line_kind(line) == kind_named(trimmed(ty)));
    if trimmed(ty) == seq!['f', '3', '2'] {
        assert(line_kind(line) == Some(Value::F32(0)));
        let number = choose|number: Option<u32>| #[trigger]
            reads(read_real, line_text(line), number) && r == crate::parameter_file::line_value(
                line,
                number,
            );
        let s = choose|s: &str|
            s@ == line_text(line) && #[trigger] call_ensures(read_real, (s,), number);
        assert(s@ == trimmed(val) && call_ensures(read_real, (s,), number));
    }
}

/// A line without an equals sign holds no value.
pub proof fn law_lines_without_a_type<G: Fn(&str) -> Option<u32>>(
    read_real: G,
    line: Seq<char>,
    r: Option<Value>,
)
    requires
        !line.contains('='),
        holds_value(read_real, line, r),
    ensures
        r is None,
{
    law_splitting(line, '=', line, line);
}

/// A parameter is loaded under the name of its section, a dot and its key, or under its key
/// alone in the general section.
pub proof fn law_names_are_joined(section: Seq<char>, key: Seq<char>)
    ensures
        joined(Some(section), key) == section + seq!['.'] + key,
        joined(None, key) == key,
{
}

/// Each line of each section counts, in order.
pub proof fn law_all_lines_count(
    sections: Seq<(Option<Seq<char>>, Seq<(Seq<char>, Seq<char>)>)>,
    name: Option<Seq<char>>,
    properties: Seq<(Seq<char>, Seq<char>)>,
    key: Seq<char>,
    value: Seq<char>,
)
    ensures
        lines(
            Seq::<(Option<Seq<char>>, Seq<(Seq<char>, Seq<char>)>)>::empty(),
        ).len() == 0,
        lines(sections.push((name, Seq::empty()))) == lines(sections),
        lines(sections.push((name, properties.push((key, value))))) == lines(
            sections.push((name, properties)),
        ).push((joined(name, key), value)),
{
    assert(sections.push((name, Seq::empty())).drop_last() =~= sections);
    assert(lines(sections.push((name, Seq::empty()))) =~= lines(sections));
    assert(sections.push((name, properties)).drop_last() =~= sections);
    assert(sections.push((name, properties.push((key, value)))).drop_last() =~= sections);
    assert(lines(sections.push((name, properties.push((key, value))))) =~= lines(
        sections.push((name, properties)),
    ).push((joined(name, key), value)));
}

/// The last line with a value counts for its name, as a parameter that was just reported; a
/// line without a value counts for nothing.
pub proof fn law_the_last_line_counts(
    idents: Seq<Ident>,
    values: Seq<Option<Value>>,
    ident: Ident,
    value: Value,
    key: Seq<int>,
)
    requires
        idents.len() == values.len(),
    ensures
        loaded(Seq::<Ident>::empty(), Seq::<Option<Value>>::empty(), key) is None,
        loaded(idents.push(ident), values.push(None), key) == loaded(idents, values, key),
        ident.rank() != key ==> loaded(idents.push(ident), values.push(Some(value)), key) == loaded(
            idents,
            values,
            key,
        ),
        ident.rank() == key ==> (loaded(idents.push(ident), values.push(Some(value)), key)
            matches Some(p) && p.value == value && p.state is Unchanged && p.editing is None),
{
    lemma_loaded_push(idents, values, ident, None, key);
    lemma_loaded_push(idents, values, ident, Some(value), key);
}

/// A byte order mark before a file does not count, and a file is text just where the rest is
/// UTF-8.
pub proof fn law_marks_do_not_count(bytes: Seq<u8>)
    requires
        !(bytes.len() >= 3 && bytes[0] == 239 && bytes[1] == 187 && bytes[2] == 191),
    ensures
        file_characters(seq![239u8, 187u8, 191u8] + bytes) == file_characters(bytes),
        file_characters(bytes) == if valid_utf8(bytes) {
            Some(decode_utf8(bytes))
        } else {
            None
        },
{
    assert((seq![239u8, 187u8, 191u8] + bytes).skip(3) =~= bytes);
}

/// A file gives parameters where it is text that reads as a document; it is told apart which
/// of the two it is not.
pub proof fn law_files_that_load<F: Fn(&str) -> Ident, G: Fn(&str) -> Option<u32>>(
    ident_of: F,
    read_real: G,
    bytes: Seq<u8>,
    r: Result<Parameters, FileError>,
)
    requires
        loads_file(ident_of, read_real, bytes, r),
    ensures
        r is Ok <==> (file_characters(bytes) matches Some(text) && ini_read(text) is Some),
        r matches Ok(p) ==> loads_sections(
            ident_of,
            read_real,
            ini_read(file_characters(bytes)->0)->0,
            p,
        ),
        r == Err::<Parameters, FileError>(FileError::NotText) <==> file_characters(bytes) is None,
        r == Err::<Parameters, FileError>(FileError::NotDocument) <==> (file_characters(
            bytes,
        ) matches Some(text) && ini_read(text) is None),
{
}

} // verus!
