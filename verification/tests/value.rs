//! Parameter values: packing, reading and writing.

use groundhog::single::{nearest_real, nearest_signed_real, same_real, truncate};
use groundhog::value::{
    from_value, mavio_into_value, packs, same_value, value_as_string, value_from_bytewise,
    value_from_c_cast, value_into_bytewise, value_into_c_cast, value_parse_as, value_type_matches,
    value_type_name, MavParamType, Value, PARAM_ENCODE_BYTEWISE, PARAM_ENCODE_C_CAST,
};

fn real_text(bits: u32) -> String {
    f32::from_bits(bits).to_string()
}

fn read_real(s: &str) -> Option<u32> {
    s.parse::<f32>().ok().map(f32::to_bits)
}

fn samples() -> Vec<Value> {
    vec![
        Value::U8(0),
        Value::U8(255),
        Value::I8(-128),
        Value::I8(127),
        Value::U16(65535),
        Value::I16(-32768),
        Value::I16(-1),
        Value::U32(0),
        Value::U32(4294967295),
        Value::U32(16777216),
        Value::I32(i32::MIN),
        Value::I32(i32::MAX),
        Value::I32(-5),
        Value::F32(1.5f32.to_bits()),
        Value::F32((-0.0f32).to_bits()),
        Value::F32(f32::INFINITY.to_bits()),
    ]
}

#[test]
fn casts_to_singles_round_as_the_machine_rounds() {
    for n in [
        0u32, 1, 2, 3, 255, 65535, 16777215, 16777216, 16777217, 16777218, 16777219, 33554433,
        33554435, 2147483647, 2147483648, 4294967040, 4294967167, 4294967168, 4294967295,
        1234567891,
    ] {
        assert_eq!(nearest_real(n), (n as f32).to_bits());
    }
    for n in [0i32, -1, 1, i32::MIN, i32::MAX, -16777217, 16777217, -123456789, 2147483583, 2147483584] {
        assert_eq!(nearest_signed_real(n), (n as f32).to_bits());
    }
}

#[test]
fn casts_from_singles_cut_off_and_saturate() {
    for x in [
        0.0f32, -0.0, 0.9, -0.9, 1.5, -1.5, 127.9, 128.0, -128.9, 255.5, 256.0, 65535.9, 1e10, -1e10,
        f32::INFINITY, f32::NEG_INFINITY, f32::NAN, f32::MIN_POSITIVE, 1e-45, 2147483648.0,
        4294967040.0, -2147483648.0, 16777215.0, 8388607.5,
    ] {
        let bits = x.to_bits();
        assert_eq!(truncate(bits, 0, 0xff), (x as u8) as i64);
        assert_eq!(truncate(bits, -0x80, 0x7f), (x as i8) as i64);
        assert_eq!(truncate(bits, 0, 0xffff), (x as u16) as i64);
        assert_eq!(truncate(bits, -0x8000, 0x7fff), (x as i16) as i64);
        assert_eq!(truncate(bits, 0, 0xffff_ffff), (x as u32) as i64);
        assert_eq!(truncate(bits, -0x8000_0000, 0x7fff_ffff), (x as i32) as i64);
    }
}

#[test]
fn singles_are_compared_as_numbers() {
    for x in [0.0f32, -0.0, 1.0, f32::NAN, f32::INFINITY, f32::NEG_INFINITY, 1e-45] {
        for y in [0.0f32, -0.0, 1.0, f32::NAN, f32::INFINITY, f32::NEG_INFINITY, 1e-45] {
            assert_eq!(same_real(x.to_bits(), y.to_bits()), x == y);
        }
    }
}

#[test]
fn bytewise_packing_gives_every_value_back() {
    for value in samples() {
        let (bits, ty) = value_into_bytewise(value);
        assert_eq!(value_from_bytewise(bits, ty), Some(value));
    }
}

#[test]
fn bytewise_packing_puts_the_bytes_first() {
    assert_eq!(value_into_bytewise(Value::I8(-1)), (0xff, MavParamType::Int8));
    assert_eq!(value_into_bytewise(Value::I16(-2)), (0xfffe, MavParamType::Int16));
    assert_eq!(value_into_bytewise(Value::I32(-2)), (0xffff_fffe, MavParamType::Int32));
    assert_eq!(value_from_bytewise(0x1234_5678, MavParamType::Uint8), Some(Value::U8(0x78)));
    assert_eq!(value_from_bytewise(0x1234_8678, MavParamType::Int16), Some(Value::I16(-31112)));
}

#[test]
fn casting_gives_back_what_the_single_holds() {
    for value in samples() {
        let (bits, ty) = value_into_c_cast(value);
        assert_eq!(value_from_c_cast(bits, ty), Some(value));
    }
    // A number of 25 bits is rounded.
    let (bits, ty) = value_into_c_cast(Value::U32(16777217));
    assert_eq!(value_from_c_cast(bits, ty), Some(Value::U32(16777216)));
    assert_eq!(value_into_c_cast(Value::I8(-3)), ((-3.0f32).to_bits(), MavParamType::Int8));
}

#[test]
fn types_of_sixty_four_bits_are_not_unpacked() {
    for ty in [MavParamType::Uint64, MavParamType::Int64, MavParamType::Real64] {
        assert_eq!(value_from_bytewise(1, ty), None);
        assert_eq!(value_from_c_cast(1, ty), None);
    }
}

#[test]
fn the_capabilities_choose_the_packing() {
    let both = PARAM_ENCODE_BYTEWISE | PARAM_ENCODE_C_CAST;
    let seven = Value::U8(7);
    assert_eq!(from_value(both, seven), Some((7, MavParamType::Uint8)));
    assert_eq!(from_value(PARAM_ENCODE_BYTEWISE, seven), Some((7, MavParamType::Uint8)));
    assert_eq!(
        from_value(PARAM_ENCODE_C_CAST, seven),
        Some((7.0f32.to_bits(), MavParamType::Uint8))
    );
    assert_eq!(from_value(0, seven), None);
    assert_eq!(from_value(1 << 40, seven), None);
    assert!(packs(both) && packs(PARAM_ENCODE_BYTEWISE) && packs(PARAM_ENCODE_C_CAST));
    assert!(!packs(0) && !packs(15));
    assert_eq!(
        mavio_into_value(PARAM_ENCODE_C_CAST, 7.0f32.to_bits(), MavParamType::Uint8),
        Some(seven)
    );
    assert_eq!(mavio_into_value(both, 7, MavParamType::Uint8), Some(seven));
    assert_eq!(mavio_into_value(0, 7, MavParamType::Uint8), None);
}

#[test]
fn values_have_the_names_of_their_types() {
    let names: Vec<&str> = vec![
        Value::U8(1),
        Value::I8(1),
        Value::U16(1),
        Value::I16(1),
        Value::U32(1),
        Value::I32(1),
        Value::F32(1),
    ]
    .into_iter()
    .map(value_type_name)
    .collect();
    assert_eq!(names, vec!["u8", "i8", "u16", "i16", "u32", "i32", "f32"]);
}

#[test]
fn values_of_one_type_match() {
    assert!(value_type_matches(Value::U8(1), Value::U8(2)));
    assert!(!value_type_matches(Value::U8(1), Value::I8(1)));
    assert!(!value_type_matches(Value::F32(1), Value::U32(1)));
    assert!(same_value(Value::F32(0), Value::F32(0x8000_0000)));
    assert!(!same_value(Value::F32(f32::NAN.to_bits()), Value::F32(f32::NAN.to_bits())));
    assert!(!same_value(Value::U8(1), Value::I8(1)));
}

#[test]
fn values_are_written_and_read_back() {
    for value in samples() {
        let text = value_as_string(value, real_text);
        let back = value_parse_as(value, &text, read_real);
        assert!(back.is_some_and(|v| same_value(v, value)));
    }
    assert_eq!(value_as_string(Value::I8(-7), real_text), "-7");
    assert_eq!(value_as_string(Value::F32(0.25f32.to_bits()), real_text), "0.25");
}

#[test]
fn texts_are_read_as_the_type_asked_for() {
    assert_eq!(value_parse_as(Value::U8(0), "300", read_real), None);
    assert_eq!(value_parse_as(Value::U16(0), "300", read_real), Some(Value::U16(300)));
    assert_eq!(value_parse_as(Value::I8(0), "-129", read_real), None);
    assert_eq!(value_parse_as(Value::F32(0), "1e3", read_real), Some(Value::F32(1000.0f32.to_bits())));
    assert_eq!(value_parse_as(Value::F32(0), "x", read_real), None);
    assert_eq!(value_parse_as(Value::U32(0), "1.5", read_real), None);
}
