//! Parameters in INI documents, written and read by the real library.

use groundhog::file_text::{parameters_from_bytes, parameters_to_text, FileError};
use groundhog::ident::Ident;
use groundhog::parameter_file::{load_parameters_from_ini, parse_line, save_parameters_to_ini};
use groundhog::parameters::{ParamState, Parameter, Parameters};
use groundhog::value::Value;

fn name(s: &str) -> Ident {
    Ident::new(s).expect("a short name")
}

fn real_text(bits: u32) -> String {
    f32::from_bits(bits).to_string()
}

fn read_real(s: &str) -> Option<u32> {
    s.parse::<f32>().ok().map(f32::to_bits)
}

fn truncated(s: &str) -> Ident {
    let end = s.char_indices().map(|(i, c)| i + c.len_utf8()).take_while(|n| *n <= 16).last();
    name(&s[..end.unwrap_or(0)])
}

fn sample() -> Parameters {
    let mut parameters = Parameters::new();
    for (n, v) in [
        ("plain", Value::U8(7)),
        ("rc.min", Value::I16(-300)),
        ("rc.max", Value::U16(2000)),
        ("rc.sub.deep", Value::F32(0.125f32.to_bits())),
        ("alt.hold", Value::I32(i32::MIN)),
        ("zero", Value::U32(u32::MAX)),
        ("b", Value::I8(-128)),
    ] {
        parameters.map.insert(name(n), Parameter::new(v));
    }
    parameters
}

fn pairs(parameters: &Parameters) -> Vec<(String, Value)> {
    parameters.map.entries.iter().map(|(n, p)| (n.as_str().to_string(), p.value)).collect()
}

#[test]
fn the_first_segment_of_a_name_is_its_section() {
    let doc = save_parameters_to_ini(&sample(), '.', real_text);
    assert_eq!(doc.get_from(None::<String>, "plain"), Some("u8 = 7"));
    assert_eq!(doc.get_from(Some("rc"), "min"), Some("i16 = -300"));
    assert_eq!(doc.get_from(Some("rc"), "max"), Some("u16 = 2000"));
    assert_eq!(doc.get_from(Some("rc"), "sub.deep"), Some("f32 = 0.125"));
    assert_eq!(doc.get_from(Some("alt"), "hold"), Some("i32 = -2147483648"));
}

#[test]
fn another_separator_splits_names_elsewhere() {
    let mut parameters = Parameters::new();
    parameters.map.insert(name("RC_SPEED"), Parameter::new(Value::U8(1)));
    let doc = save_parameters_to_ini(&parameters, '_', real_text);
    assert_eq!(doc.get_from(Some("RC"), "SPEED"), Some("u8 = 1"));
}

#[test]
fn a_saved_document_loads_as_it_was() {
    let parameters = sample();
    let doc = save_parameters_to_ini(&parameters, '.', real_text);
    let loaded = load_parameters_from_ini(&doc, truncated, read_real);
    assert_eq!(pairs(&loaded), pairs(&parameters));
    assert!(loaded.map.entries.iter().all(|(_, p)| p.state == ParamState::Unchanged));
    assert!(loaded.loading_state.has_loaded.is_empty());
}

#[test]
fn a_saved_file_loads_as_it_was() {
    let parameters = sample();
    let doc = save_parameters_to_ini(&parameters, '.', real_text);
    let mut bytes: Vec<u8> = Vec::new();
    let option = ini::WriteOption { kv_separator: ": ", ..Default::default() };
    doc.write_to_opt(&mut bytes, option).expect("memory takes all bytes");
    let text = String::from_utf8(bytes).expect("the file is text");
    assert!(text.contains("[rc]"));
    assert!(text.contains("min: i16 = -300"));
    let back = ini::Ini::load_from_str(&text).expect("the file reads");
    let loaded = load_parameters_from_ini(&back, truncated, read_real);
    assert_eq!(pairs(&loaded), pairs(&parameters));
}

#[test]
fn the_text_of_a_file_loads_as_it_was() {
    let parameters = sample();
    let text = parameters_to_text(&parameters, '.', real_text);
    let lines: Vec<&str> = text.lines().collect();
    assert_eq!(
        lines,
        vec![
            "b: i8 = -128",
            "plain: u8 = 7",
            "zero: u32 = 4294967295",
            "",
            "[alt]",
            "hold: i32 = -2147483648",
            "",
            "[rc]",
            "max: u16 = 2000",
            "min: i16 = -300",
            "sub.deep: f32 = 0.125",
        ]
    );
    let loaded = parameters_from_bytes(text.as_bytes(), truncated, read_real).expect("a file");
    assert_eq!(pairs(&loaded), pairs(&parameters));
    assert!(loaded.map.entries.iter().all(|(_, p)| p.state == ParamState::Unchanged));
    assert_eq!(loaded.loading_state.expected_count, 0);
}

#[test]
fn control_characters_are_escaped() {
    let mut parameters = Parameters::new();
    parameters.map.insert(name("\u{7}\u{1}\u{1f}\\\u{7f}x"), Parameter::new(Value::U8(1)));
    let text = parameters_to_text(&parameters, '.', real_text);
    assert_eq!(text.trim_end(), "\\a\\x0001\\x001f\\\\\\x007fx: u8 = 1");
}

#[test]
fn files_that_do_not_read_are_told_apart() {
    let read = |bytes: &[u8]| {
        parameters_from_bytes(bytes, truncated, read_real).map(|p| pairs(&p).len())
    };
    assert_eq!(read(b"a: u8 = 1\n"), Ok(1));
    assert_eq!(read(b"\xef\xbb\xbfa: u8 = 1\n"), Ok(1));
    assert_eq!(read(b""), Ok(0));
    assert_eq!(read(b"\xff"), Err(FileError::NotText));
    assert_eq!(read(b"a: u8 = 1\nno value"), Err(FileError::NotDocument));
}

#[test]
fn what_the_user_makes_of_parameters_is_not_saved() {
    let mut parameters = sample();
    let text = parameters_to_text(&parameters, '.', real_text);
    assert!(parameters.edit(&name("plain"), "9".to_string(), None));
    assert_eq!(parameters_to_text(&parameters, '.', real_text), text);
}

#[test]
fn lines_hold_a_type_and_a_value() {
    assert_eq!(parse_line("u8 = 7", &read_real), Some(Value::U8(7)));
    assert_eq!(parse_line("  i16=-3  ", &read_real), Some(Value::I16(-3)));
    assert_eq!(parse_line("f32 = 1.5", &read_real), Some(Value::F32(1.5f32.to_bits())));
    assert_eq!(parse_line("u32 = 4294967295", &read_real), Some(Value::U32(u32::MAX)));
    assert_eq!(parse_line("i8 = 1", &read_real), Some(Value::I8(1)));
    assert_eq!(parse_line("u16 = 1", &read_real), Some(Value::U16(1)));
    assert_eq!(parse_line("i32 = 1", &read_real), Some(Value::I32(1)));
    assert_eq!(parse_line("u8 7", &read_real), None);
    assert_eq!(parse_line("u64 = 7", &read_real), None);
    assert_eq!(parse_line("u8 = 256", &read_real), None);
    assert_eq!(parse_line("u8 = 1 = 2", &read_real), None);
    assert_eq!(parse_line("U8 = 1", &read_real), None);
    assert_eq!(parse_line("f32 = x", &read_real), None);
}

#[test]
fn lines_that_do_not_read_are_left_out() {
    let text = "good: u8 = 1\nbad: u8 one\nworse: q8 = 1\n[sec]\nkey: i32 = -5\n";
    let doc = ini::Ini::load_from_str(text).expect("the file reads");
    let loaded = load_parameters_from_ini(&doc, truncated, read_real);
    assert_eq!(
        pairs(&loaded),
        vec![("good".to_string(), Value::U8(1)), ("sec.key".to_string(), Value::I32(-5))]
    );
}

#[test]
fn long_names_are_cut_and_the_last_line_counts() {
    let text = "[section_name]\nparameter_one: u8 = 1\nparameter_two: u8 = 2\n";
    let doc = ini::Ini::load_from_str(text).expect("the file reads");
    let loaded = load_parameters_from_ini(&doc, truncated, read_real);
    assert_eq!(pairs(&loaded), vec![("section_name.par".to_string(), Value::U8(2))]);
}
