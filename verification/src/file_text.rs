//! The text of parameter files.

use crate::ident::{fits_ident, Ident};
use crate::parameter_file::{
    faithful, ini_sections, keyed_otherwise, law_file_round_trip, lines, load_parameters_from_ini,
    loaded, loads_sections, property_of, reads_lines, save_parameters_to_ini, saved, saves,
    section_names, section_of, typed_text, with_property, writes_all,
};
use crate::parameters::{fresh, Parameter, Parameters};
use crate::sorted::{sorted, value_at};
use crate::text::{
    decimal, is_digit, lemma_decimal, lemma_position_of, position_of, signed_decimal, utf8_text,
};
use crate::value::{name_of_type, writes_value, Value};
use vstd::prelude::*;
use vstd::slice::slice_subrange;
use vstd::utf8::{decode_utf8, encode_utf8, valid_utf8};

verus! {

// ---------------------------------------------------------------------------
// Documents as text
// ---------------------------------------------------------------------------

/// A hexadecimal digit.
pub open spec fn hex_digit(n: int) -> char {
    if n < 10 {
        ('0' as int + n) as char
    } else {
        ('a' as int + n - 10) as char
    }
}

/// How a character is written: control characters and the backslash behind a backslash,
/// all others as they are.
pub open spec fn escaped_char(c: char) -> Seq<char> {
    if c == '\\' {
        seq!['\\', '\\']
    } else if c == '\0' {
        seq!['\\', '0']
    } else if c == '\x07' {
        seq!['\\', 'a']
    } else if c == '\x08' {
        seq!['\\', 'b']
    } else if c == '\t' {
        seq!['\\', 't']
    } else if c == '\n' {
        seq!['\\', 'n']
    } else if c == '\x0b' {
        seq!['\\', 'v']
    } else if c == '\x0c' {
        seq!['\\', 'f']
    } else if c == '\r' {
        seq!['\\', 'r']
    } else if c < ' ' || c == '\x7f' {
        seq!['\\', 'x', '0', '0', hex_digit(c as int / 16), hex_digit(c as int % 16)]
    } else {
        seq![c]
    }
}

/// How a text is written.
pub open spec fn escaped(s: Seq<char>) -> Seq<char>
    decreases s.len(),
{
    if s.len() == 0 {
        Seq::empty()
    } else {
        escaped(s.drop_last()) + escaped_char(s.last())
    }
}

/// How properties are written: one line each, with `kv` between key and value.
pub open spec fn written_properties(
    properties: Seq<(Seq<char>, Seq<char>)>,
    kv: Seq<char>,
    newline: Seq<char>,
) -> Seq<char>
    decreases properties.len(),
{
    if properties.len() == 0 {
        Seq::empty()
    } else {
        let (key, value) = properties.last();
        written_properties(properties.drop_last(), kv, newline) + escaped(key) + kv + escaped(value)
            + newline
    }
}

/// How the name of a section is written. The general section has none.
pub open spec fn written_name(name: Option<Seq<char>>, newline: Seq<char>) -> Seq<char> {
    match name {
        Some(text) => seq!['['] + escaped(text) + seq![']'] + newline,
        None => Seq::empty(),
    }
}

/// Some section has properties.
pub open spec fn has_properties(
    sections: Seq<(Option<Seq<char>>, Seq<(Seq<char>, Seq<char>)>)>,
) -> bool {
    exists|i: int| 0 <= i < sections.len() && (#[trigger] sections[i]).1.len() > 0
}

/// How a document is written: section by section, with an empty line before each one with
/// properties but the first of those.
pub open spec fn written(
    sections: Seq<(Option<Seq<char>>, Seq<(Seq<char>, Seq<char>)>)>,
    kv: Seq<char>,
    newline: Seq<char>,
) -> Seq<char>
    decreases sections.len(),
{
    if sections.len() == 0 {
        Seq::empty()
    } else {
        let rest = sections.drop_last();
        let (name, properties) = sections.last();
        let gap = if properties.len() > 0 && has_properties(rest) {
            newline
        } else {
            Seq::empty()
        };
        written(rest, kv, newline) + gap + written_name(name, newline) + written_properties(
            properties,
            kv,
            newline,
        )
    }
}

/// A line ends as the machine has it: with a line feed, or with a carriage return before
/// it.
pub open spec fn is_newline(newline: Seq<char>) -> bool {
    newline == seq!['\n'] || newline == seq!['\r', '\n']
}

/// `text` is how a document is written.
pub open spec fn is_written(
    sections: Seq<(Option<Seq<char>>, Seq<(Seq<char>, Seq<char>)>)>,
    kv: Seq<char>,
    text: Seq<char>,
) -> bool {
    exists|newline: Seq<char>|
        is_newline(newline) && text == #[trigger] written(sections, kv, newline)
}

/// Letters, digits, underscores and dots.
pub open spec fn plain_char(c: char) -> bool {
    'a' <= c <= 'z' || 'A' <= c <= 'Z' || is_digit(c) || c == '_' || c == '.'
}

/// A name or key that means nothing but itself in a document.
pub open spec fn plain_name(s: Seq<char>) -> bool {
    s.len() > 0 && forall|i: int| 0 <= i < s.len() ==> plain_char(#[trigger] s[i])
}

/// What values are made of that mean nothing but themselves in a document.
pub open spec fn plain_value_char(c: char) -> bool {
    plain_char(c) || c == ' ' || c == '=' || c == '-' || c == '+'
}

/// A value that means nothing but itself in a document.
pub open spec fn plain_value(s: Seq<char>) -> bool {
    &&& s.len() > 0
    &&& s[0] != ' '
    &&& s.last() != ' '
    &&& forall|i: int| 0 <= i < s.len() ==> plain_value_char(#[trigger] s[i])
}

/// Properties of plain keys and plain values.
pub open spec fn plain_properties(properties: Seq<(Seq<char>, Seq<char>)>) -> bool {
    forall|k: int|
        0 <= k < properties.len() ==> plain_name((#[trigger] properties[k]).0) && plain_value(
            properties[k].1,
        )
}

/// A general section, then sections of plain names, all with plain properties.
pub open spec fn plain(sections: Seq<(Option<Seq<char>>, Seq<(Seq<char>, Seq<char>)>)>) -> bool {
    &&& sections.len() > 0
    &&& sections[0].0 is None
    &&& forall|i: int|
        0 < i < sections.len() ==> ((#[trigger] sections[i]).0 matches Some(name) && plain_name(
            name,
        ))
    &&& forall|i: int|
        0 <= i < sections.len() ==> plain_properties((#[trigger] sections[i]).1)
}

/// The sections that a text reads as; `None` where it does not read as a document.
pub uninterp spec fn ini_read(text: Seq<char>) -> Option<
    Seq<(Option<Seq<char>>, Seq<(Seq<char>, Seq<char>)>)>,
>;

/// `text` reads as these sections, where they are plain and a colon and a space stand
/// between keys and values.
pub open spec fn reads_back(
    sections: Seq<(Option<Seq<char>>, Seq<(Seq<char>, Seq<char>)>)>,
    kv: Seq<char>,
    text: Seq<char>,
) -> bool {
    kv == seq![':', ' '] && plain(sections) ==> ini_read(text) == Some(sections)
}

/// `ini::Ini::load_from_str`: reads a document, by the crate's own grammar, which goes by
/// the text alone.
#[verifier::external_body]
fn ini_parse(text: &str) -> (r: Option<ini::Ini>)
    ensures
        match r {
            Some(doc) => ini_read(text@) == Some(ini_sections(doc)),
            None => ini_read(text@) is None,
        },
{
    ini::Ini::load_from_str(text).ok()
}

/// `ini::Ini::write_to_opt` into memory, with the escapes and line ends that are the
/// crate's defaults and `kv` between keys and values. It writes the sections in order,
/// and a plain document with a colon and a space between keys and values reads as it was.
#[verifier::external_body]
fn ini_text(doc: &ini::Ini, kv: &'static str) -> (r: String)
    ensures
        is_written(ini_sections(*doc), kv@, r@),
        reads_back(ini_sections(*doc), kv@, r@),
{
    let mut bytes: Vec<u8> = Vec::new();
    let option = ini::WriteOption { kv_separator: kv, ..Default::default() };
    doc.write_to_opt(&mut bytes, option).expect("memory takes all bytes");
    String::from_utf8(bytes).expect("text was written")
}

// ---------------------------------------------------------------------------
// Parameters as text
// ---------------------------------------------------------------------------

/// `text` is that of a document with these sections.
pub open spec fn is_text_of(
    sections: Seq<(Option<Seq<char>>, Seq<(Seq<char>, Seq<char>)>)>,
    text: Seq<char>,
) -> bool {
    &&& is_written(sections, seq![':', ' '], text)
    &&& reads_back(sections, seq![':', ' '], text)
}

/// `text` is that of a file with these parameters.
pub open spec fn writes_file<F: Fn(u32) -> String>(
    real_text: F,
    entries: Seq<(Ident, Parameter)>,
    sep: char,
    text: Seq<char>,
) -> bool {
    exists|sections: Seq<(Option<Seq<char>>, Seq<(Seq<char>, Seq<char>)>)>| #[trigger]
        saves(real_text, entries, sep, sections) && is_text_of(sections, text)
}

/// Writes the text of a file with parameters. The segments of a name stand apart by `sep`;
/// singles are written by `real_text`.
pub fn parameters_to_text<F: Fn(u32) -> String>(
    parameters: &Parameters,
    sep: char,
    real_text: F,
) -> (r: String)
    requires
        forall|bits: u32| call_requires(real_text, (bits,)),
    ensures
        writes_file(real_text, parameters.map.entries@, sep, r@),
{
    proof {
        reveal_strlit(": ");
    }
    let doc = save_parameters_to_ini(parameters, sep, real_text);
    let r = ini_text(&doc, ": ");
    assert(": "@ =~= seq![':', ' ']);
    assert(is_text_of(ini_sections(doc), r@));
    r
}

/// Why a file holds no parameters.
#[derive(Debug, Clone, Copy, PartialEq, Eq, Structural)]
pub enum FileError {
    /// It is not UTF-8.
    NotText,
    /// It is no document.
    NotDocument,
}

/// A byte order mark stands before the text.
pub open spec fn marked(bytes: Seq<u8>) -> bool {
    bytes.len() >= 3 && bytes[0] == 0xef && bytes[1] == 0xbb && bytes[2] == 0xbf
}

/// The characters of a file, without a byte order mark before them; `None` where they are
/// not UTF-8.
pub open spec fn file_characters(bytes: Seq<u8>) -> Option<Seq<char>> {
    let rest = if marked(bytes) {
        bytes.skip(3)
    } else {
        bytes
    };
    if valid_utf8(rest) {
        Some(decode_utf8(rest))
    } else {
        None
    }
}

/// `r` is what the bytes of a file give.
pub open spec fn loads_file<F: Fn(&str) -> Ident, G: Fn(&str) -> Option<u32>>(
    ident_of: F,
    read_real: G,
    bytes: Seq<u8>,
    r: Result<Parameters, FileError>,
) -> bool {
    match file_characters(bytes) {
        Some(text) => match ini_read(text) {
            Some(sections) => r matches Ok(p) && loads_sections(ident_of, read_real, sections, p),
            None => r == Err::<Parameters, FileError>(FileError::NotDocument),
        },
        None => r == Err::<Parameters, FileError>(FileError::NotText),
    }
}

/// Reads the parameters in the bytes of a file. `ident_of` makes the name of a parameter
/// of a text; singles are read by `read_real`.
pub fn parameters_from_bytes<F: Fn(&str) -> Ident, G: Fn(&str) -> Option<u32>>(
    bytes: &[u8],
    ident_of: F,
    read_real: G,
) -> (r: Result<Parameters, FileError>)
    requires
        forall|s: &str| call_requires(ident_of, (s,)),
        forall|s: &str| call_requires(read_real, (s,)),
    ensures
        loads_file(ident_of, read_real, bytes@, r),
{
    let rest = if bytes.len() >= 3 && bytes[0] == 0xef && bytes[1] == 0xbb && bytes[2] == 0xbf {
        assert(bytes@.subrange(3, bytes@.len() as int) =~= bytes@.skip(3));
        slice_subrange(bytes, 3, bytes.len())
    } else {
        bytes
    };
    match utf8_text(rest) {
        Some(text) => match ini_parse(text.as_str()) {
            Some(doc) => Ok(load_parameters_from_ini(&doc, ident_of, read_real)),
            None => Err(FileError::NotDocument),
        },
        None => Err(FileError::NotText),
    }
}

// ---------------------------------------------------------------------------
// Reading back what was written
// ---------------------------------------------------------------------------

/// A name of a parameter that means nothing but itself in a document: its section and its
/// key are plain.
pub open spec fn plain_ident(name: Seq<char>, sep: char) -> bool {
    &&& section_of(name, sep) matches Some(section) ==> plain_name(section)
    &&& plain_name(property_of(name, sep))
}

/// Names of letters, digits and underscores, with dots only between parts that are not
/// empty, are plain.
pub proof fn law_dotted_names_are_plain(name: Seq<char>)
    requires
        name.len() > 0,
        name[0] != '.',
        name.last() != '.',
        forall|i: int| 0 <= i < name.len() ==> plain_char(#[trigger] name[i]),
    ensures
        plain_ident(name, '.'),
{
    lemma_position_of(name, '.');
    let p = position_of(name, '.');
    if p < name.len() {
        assert(p != name.len() - 1);
        assert(name.take(p).len() > 0 && name.skip(p + 1).len() > 0);
    }
}

/// Singles are written as something plain that does not begin or end with a space.
pub open spec fn writes_plainly<F: Fn(u32) -> String>(
    real_text: F,
    entries: Seq<(Ident, Parameter)>,
) -> bool {
    forall|j: int, text: String|
        #![trigger entries[j], text@]
        0 <= j < entries.len() && (entries[j].1.value matches Value::F32(bits) && call_ensures(
            real_text,
            (bits,),
            text,
        )) ==> plain_value(text@)
}

proof fn lemma_numeral_plain(n: int)
    ensures
        plain_value(signed_decimal(n)),
{
    let magnitude = if n < 0 {
        (-n) as nat
    } else {
        n as nat
    };
    lemma_decimal(magnitude);
    let s = signed_decimal(n);
    let d = decimal(magnitude);
    assert(is_digit(d[d.len() - 1]));
    assert(s.last() == d.last());
    assert forall|i: int| 0 <= i < s.len() implies plain_value_char(#[trigger] s[i]) by {
        if n < 0 {
            if i > 0 {
                assert(s[i] == d[i - 1]);
            }
        } else {
            assert(s[i] == d[i]);
        }
    }
    assert(s[0] == '-' || s[0] == d[0]);
}

/// A plain text with its type is plain.
proof fn lemma_typed_plain(value: Value, text: Seq<char>)
    requires
        plain_value(text),
    ensures
        plain_value(typed_text(value, text)),
{
    reveal_strlit("u8");
    reveal_strlit("i8");
    reveal_strlit("u16");
    reveal_strlit("i16");
    reveal_strlit("u32");
    reveal_strlit("i32");
    reveal_strlit("f32");
    reveal_strlit(" = ");
    let name = name_of_type(value);
    let line = typed_text(value, text);
    assert(line.last() == text.last());
    assert(line[0] == name[0]);
    assert forall|i: int| 0 <= i < line.len() implies plain_value_char(#[trigger] line[i]) by {
        if i < name.len() {
            assert(line[i] == name[i]);
        } else if i < name.len() + 3 {
            assert(line[i] == " = "@[i - name.len()]);
        } else {
            assert(line[i] == text[i - name.len() - 3]);
        }
    }
}

proof fn lemma_filter_plain(
    properties: Seq<(Seq<char>, Seq<char>)>,
    pred: spec_fn((Seq<char>, Seq<char>)) -> bool,
)
    requires
        plain_properties(properties),
    ensures
        plain_properties(properties.filter(pred)),
    decreases properties.len(),
{
    reveal(Seq::filter);
    if properties.len() > 0 {
        let rest = properties.drop_last();
        assert forall|k: int| 0 <= k < rest.len() implies plain_name((#[trigger] rest[k]).0)
            && plain_value(rest[k].1) by {
            assert(rest[k] == properties[k]);
        }
        lemma_filter_plain(rest, pred);
        assert(plain_name(properties[properties.len() - 1].0));
    }
}

/// Properties stay plain with one value more for a key.
proof fn lemma_with_property_plain(
    properties: Seq<(Seq<char>, Seq<char>)>,
    key: Seq<char>,
    value: Seq<char>,
)
    requires
        plain_properties(properties),
        plain_name(key),
        plain_value(value),
    ensures
        plain_properties(with_property(properties, key, value)),
{
    lemma_filter_plain(properties, keyed_otherwise(key));
}

/// What is saved of plain names and values is plain.
proof fn lemma_saved_plain(entries: Seq<(Ident, Parameter)>, texts: Seq<String>, sep: char)
    requires
        texts.len() >= entries.len(),
        forall|j: int| 0 <= j < entries.len() ==> plain_ident(#[trigger] entries[j].0@, sep),
        forall|j: int| 0 <= j < entries.len() ==> plain_value(#[trigger] texts[j]@),
    ensures
        plain(saved(entries, texts, sep)),
    decreases entries.len(),
{
    if entries.len() > 0 {
        let n = entries.len() - 1;
        let rest = entries.drop_last();
        assert forall|j: int| 0 <= j < rest.len() implies plain_ident(
            #[trigger] rest[j].0@,
            sep,
        ) by {
            assert(rest[j] == entries[j]);
        }
        lemma_saved_plain(rest, texts, sep);
        let was = saved(rest, texts, sep);
        let now = saved(entries, texts, sep);
        let name = section_of(entries[n].0@, sep);
        let key = property_of(entries[n].0@, sep);
        let value = typed_text(entries[n].1.value, texts[n]@);
        assert(plain_ident(entries[n].0@, sep));
        assert(plain_value(texts[n]@));
        lemma_typed_plain(entries[n].1.value, texts[n]@);
        let i = position_of(section_names(was), name);
        lemma_position_of(section_names(was), name);
        if i < was.len() {
            assert(section_names(was)[i] == was[i].0);
            lemma_with_property_plain(was[i].1, key, value);
            assert(now == was.update(i, (name, with_property(was[i].1, key, value))));
        } else {
            assert(section_names(was)[0] == was[0].0);
            assert(name is Some);
            assert(now == was.push((name, seq![(key, value)])));
            assert(plain_properties(seq![(key, value)]));
        }
    }
}

/// A text that is empty or begins with a character of ASCII.
spec fn starts_low(s: Seq<char>) -> bool {
    s.len() > 0 ==> s[0] < '\x7f'
}

proof fn lemma_escaped_starts_low(s: Seq<char>)
    requires
        plain_name(s),
    ensures
        escaped(s).len() > 0,
        starts_low(escaped(s)),
    decreases s.len(),
{
    assert(plain_char(s[s.len() - 1]));
    if s.len() > 1 {
        assert(plain_name(s.drop_last())) by {
            assert forall|i: int| 0 <= i < s.len() - 1 implies plain_char(
                #[trigger] s.drop_last()[i],
            ) by {
                assert(s.drop_last()[i] == s[i]);
            }
        }
        lemma_escaped_starts_low(s.drop_last());
    } else {
        assert(s.drop_last().len() == 0);
        assert(escaped(s.drop_last()) =~= Seq::empty());
        assert(escaped(s) =~= escaped_char(s.last()));
    }
}

proof fn lemma_properties_start_low(
    properties: Seq<(Seq<char>, Seq<char>)>,
    kv: Seq<char>,
    newline: Seq<char>,
)
    requires
        plain_properties(properties),
    ensures
        starts_low(written_properties(properties, kv, newline)),
    decreases properties.len(),
{
    if properties.len() > 0 {
        let rest = properties.drop_last();
        assert forall|k: int| 0 <= k < rest.len() implies plain_name((#[trigger] rest[k]).0)
            && plain_value(rest[k].1) by {
            assert(rest[k] == properties[k]);
        }
        lemma_properties_start_low(rest, kv, newline);
        assert(plain_name(properties[properties.len() - 1].0));
        lemma_escaped_starts_low(properties.last().0);
        let head = written_properties(rest, kv, newline);
        let all = written_properties(properties, kv, newline);
        if head.len() > 0 {
            assert(all[0] == head[0]);
        } else {
            assert(all[0] == escaped(properties.last().0)[0]);
        }
    }
}

/// What is written of a plain document begins with a character of ASCII.
proof fn lemma_written_starts_low(
    sections: Seq<(Option<Seq<char>>, Seq<(Seq<char>, Seq<char>)>)>,
    kv: Seq<char>,
    newline: Seq<char>,
)
    requires
        sections.len() == 0 || plain(sections),
        is_newline(newline),
    ensures
        starts_low(written(sections, kv, newline)),
    decreases sections.len(),
{
    if sections.len() > 0 {
        let rest = sections.drop_last();
        assert(rest.len() == 0 || plain(rest)) by {
            if rest.len() > 0 {
                assert(rest[0] == sections[0]);
                assert forall|i: int| 0 < i < rest.len() implies (
                    (#[trigger] rest[i]).0 matches Some(name) && plain_name(name)
                ) by {
                    assert(rest[i] == sections[i]);
                }
                assert forall|i: int| 0 <= i < rest.len() implies plain_properties(
                    (#[trigger] rest[i]).1,
                ) by {
                    assert(rest[i] == sections[i]);
                }
            }
        }
        lemma_written_starts_low(rest, kv, newline);
        let (name, properties) = sections.last();
        assert(plain_properties(sections[sections.len() - 1].1));
        lemma_properties_start_low(properties, kv, newline);
        let head = written(rest, kv, newline);
        let gap = if properties.len() > 0 && has_properties(rest) {
            newline
        } else {
            Seq::empty()
        };
        let title = written_name(name, newline);
        let body = written_properties(properties, kv, newline);
        let all = written(sections, kv, newline);
        assert(all == head + gap + title + body);
        if head.len() > 0 {
            assert(all[0] == head[0]);
        } else if gap.len() > 0 {
            assert(all[0] == gap[0]);
        } else if title.len() > 0 {
            assert(all[0] == title[0]);
        } else if body.len() > 0 {
            assert(all[0] == body[0]);
        }
    }
}

/// The bytes of a text that begins with a character of ASCII hold that text.
proof fn lemma_bytes_hold_text(text: Seq<char>)
    requires
        starts_low(text),
    ensures
        file_characters(encode_utf8(text)) == Some(text),
{
    let bytes = encode_utf8(text);
    vstd::utf8::encode_utf8_valid_utf8(text);
    vstd::utf8::encode_utf8_decode_utf8(text);
    if text.len() > 0 {
        vstd::utf8::encode_utf8_first_scalar(text);
        assert(vstd::utf8::has_width_1_encoding(text[0] as u32));
    }
}

/// Loading a file that was saved, with dots between the segments of the names, gives each
/// parameter back by its name and value, as if the vehicle had just reported it, and no
/// other parameter. The names are plain, as are the texts of singles.
pub proof fn law_saved_file_loads<
    F: Fn(u32) -> String,
    G: Fn(&str) -> Option<u32>,
    H: Fn(&str) -> Ident,
>(
    real_text: F,
    read_real: G,
    ident_of: H,
    entries: Seq<(Ident, Parameter)>,
    text: Seq<char>,
    r: Result<Parameters, FileError>,
)
    requires
        sorted(entries),
        forall|j: int| 0 <= j < entries.len() ==> fits_ident(#[trigger] entries[j].0@),
        forall|j: int| 0 <= j < entries.len() ==> plain_ident(#[trigger] entries[j].0@, '.'),
        faithful(real_text, read_real, ident_of, entries),
        writes_plainly(real_text, entries),
        writes_file(real_text, entries, '.', text),
        loads_file(ident_of, read_real, encode_utf8(text), r),
    ensures
        r matches Ok(p) && {
            &&& p.wf()
            &&& p.loading_state.has_loaded@ == Set::<u16>::empty()
            &&& p.loading_state.expected_count == 0
            &&& forall|key: Seq<int>| #[trigger]
                p.map.at(key) == match value_at(entries, key) {
                    Some(parameter) => Some(fresh(parameter.value)),
                    None => None,
                }
        },
{
    let sections = choose|
        sections: Seq<(Option<Seq<char>>, Seq<(Seq<char>, Seq<char>)>)>,
    | #[trigger]
        saves(real_text, entries, '.', sections) && is_text_of(sections, text);
    let texts = choose|texts: Seq<String>| #[trigger]
        writes_all(real_text, entries, texts) && sections == saved(entries, texts, '.');
    assert forall|j: int| 0 <= j < entries.len() implies plain_value(#[trigger] texts[j]@) by {
        assert(writes_value(real_text, entries[j].1.value, texts[j]));
        match entries[j].1.value {
            Value::F32(_) => {},
            Value::U8(v) => lemma_numeral_plain(v as int),
            Value::I8(v) => lemma_numeral_plain(v as int),
            Value::U16(v) => lemma_numeral_plain(v as int),
            Value::I16(v) => lemma_numeral_plain(v as int),
            Value::U32(v) => lemma_numeral_plain(v as int),
            Value::I32(v) => lemma_numeral_plain(v as int),
        }
    }
    lemma_saved_plain(entries, texts, '.');
    let kv = seq![':', ' '];
    let newline = choose|newline: Seq<char>|
        is_newline(newline) && text == #[trigger] written(sections, kv, newline);
    lemma_written_starts_low(sections, kv, newline);
    lemma_bytes_hold_text(text);
    let p = r->Ok_0;
    assert(loads_sections(ident_of, read_real, sections, p));
    let (idents, values) = choose|idents: Seq<Ident>, values: Seq<Option<Value>>| #[trigger]
        reads_lines(ident_of, read_real, lines(sections), idents, values) && forall|key: Seq<int>|
            #[trigger] p.map.at(key) == loaded(idents, values, key);
    assert forall|key: Seq<int>| #[trigger] p.map.at(key) == match value_at(entries, key) {
        Some(parameter) => Some(fresh(parameter.value)),
        None => None,
    } by {
        law_file_round_trip(
            real_text,
            read_real,
            ident_of,
            entries,
            texts,
            idents,
            values,
            key,
        );
    }
}

} // verus!
