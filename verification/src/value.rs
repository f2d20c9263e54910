//! Parameter values and the two ways in which MAVLink packs them into a single.

use crate::single::{
    equal_reals, is_exact, law_cast_back, law_cast_back_largest, lemma_short_is_exact, nearest,
    nearest_real, nearest_signed, nearest_signed_real, same_real, truncate, truncated,
};
use crate::text::{
    decimal, decimal_text, law_signed_read_back, law_unsigned_read_back, parse_signed,
    parse_unsigned, signed_decimal, signed_decimal_text, signed_reading, unsigned_reading,
};
use vstd::prelude::*;

verus! {

/// A parameter value. A single is kept by its bit pattern.
#[derive(Debug, Clone, Copy, PartialEq, Eq, Structural)]
pub enum Value {
    U8(u8),
    I8(i8),
    U16(u16),
    I16(i16),
    U32(u32),
    I32(i32),
    F32(u32),
}

/// The value types that the wire names.
#[derive(Debug, Clone, Copy, PartialEq, Eq, Structural)]
pub enum MavParamType {
    Uint8,
    Int8,
    Uint16,
    Int16,
    Uint32,
    Int32,
    Uint64,
    Int64,
    Real32,
    Real64,
}

/// The capability bit of a vehicle that copies a value's bytes into the single.
pub const PARAM_ENCODE_BYTEWISE: u64 = 16;

/// The capability bit of a vehicle that casts a value to the single.
pub const PARAM_ENCODE_C_CAST: u64 = 131072;

/// The wire type of a value.
pub open spec fn param_type(value: Value) -> MavParamType {
    match value {
        Value::U8(_) => MavParamType::Uint8,
        Value::I8(_) => MavParamType::Int8,
        Value::U16(_) => MavParamType::Uint16,
        Value::I16(_) => MavParamType::Int16,
        Value::U32(_) => MavParamType::Uint32,
        Value::I32(_) => MavParamType::Int32,
        Value::F32(_) => MavParamType::Real32,
    }
}

// ---------------------------------------------------------------------------
// Bytewise packing
// ---------------------------------------------------------------------------

/// The two's complement reading of a pattern below `size`.
pub open spec fn as_signed(pattern: int, size: int) -> int {
    if pattern >= size / 2 {
        pattern - size
    } else {
        pattern
    }
}

/// The two's complement pattern of an integer.
pub open spec fn as_pattern(n: int, size: int) -> int {
    if n < 0 {
        n + size
    } else {
        n
    }
}

/// The value whose bytes, lowest first, are the first bytes of the single.
pub open spec fn bytewise_value(bits: u32, param_type: MavParamType) -> Option<Value> {
    match param_type {
        MavParamType::Uint8 => Some(Value::U8((bits % 0x100) as u8)),
        MavParamType::Int8 => Some(Value::I8(as_signed(bits as int % 0x100, 0x100) as i8)),
        MavParamType::Uint16 => Some(Value::U16((bits % 0x1_0000) as u16)),
        MavParamType::Int16 => Some(Value::I16(as_signed(bits as int % 0x1_0000, 0x1_0000) as i16)),
        MavParamType::Uint32 => Some(Value::U32(bits)),
        MavParamType::Int32 => Some(Value::I32(as_signed(bits as int, 0x1_0000_0000) as i32)),
        MavParamType::Real32 => Some(Value::F32(bits)),
        _ => None,
    }
}

/// The single whose first bytes are the value's, and the others zero.
pub open spec fn bytewise_bits(value: Value) -> int {
    match value {
        Value::U8(v) => v as int,
        Value::I8(v) => as_pattern(v as int, 0x100),
        Value::U16(v) => v as int,
        Value::I16(v) => as_pattern(v as int, 0x1_0000),
        Value::U32(v) => v as int,
        Value::I32(v) => as_pattern(v as int, 0x1_0000_0000),
        Value::F32(v) => v as int,
    }
}

fn signed_of(pattern: u32, size: u64) -> (r: i64)
    requires
        pattern < size <= 0x1_0000_0000,
    ensures
        r == as_signed(pattern as int, size as int),
{
    if pattern as u64 >= size / 2 {
        pattern as i64 - size as i64
    } else {
        pattern as i64
    }
}

fn pattern_of(n: i32, size: u64) -> (r: u32)
    requires
        0x100 <= size <= 0x1_0000_0000,
        -(size / 2) <= n < size / 2,
    ensures
        r == as_pattern(n as int, size as int),
{
    if n < 0 {
        (n as i64 + size as i64) as u32
    } else {
        n as u32
    }
}

/// Unpacks a value that was packed bytewise; `None` for the types of 64 bits.
pub fn value_from_bytewise(param_value: u32, param_type: MavParamType) -> (r: Option<Value>)
    ensures
        r == bytewise_value(param_value, param_type),
{
    let value = match param_type {
        MavParamType::Uint8 => Value::U8((param_value % 0x100) as u8),
        MavParamType::Int8 => Value::I8(signed_of(param_value % 0x100, 0x100) as i8),
        MavParamType::Uint16 => Value::U16((param_value % 0x1_0000) as u16),
        MavParamType::Int16 => Value::I16(signed_of(param_value % 0x1_0000, 0x1_0000) as i16),
        MavParamType::Uint32 => Value::U32(param_value),
        MavParamType::Int32 => Value::I32(signed_of(param_value, 0x1_0000_0000) as i32),
        MavParamType::Real32 => Value::F32(param_value),
        _ => return None,
    };
    Some(value)
}

/// Packs a value bytewise.
pub fn value_into_bytewise(value: Value) -> (r: (u32, MavParamType))
    ensures
        r.0 == bytewise_bits(value),
        r.1 == param_type(value),
{
    match value {
        Value::U8(v) => (v as u32, MavParamType::Uint8),
        Value::I8(v) => (pattern_of(v as i32, 0x100), MavParamType::Int8),
        Value::U16(v) => (v as u32, MavParamType::Uint16),
        Value::I16(v) => (pattern_of(v as i32, 0x1_0000), MavParamType::Int16),
        Value::U32(v) => (v, MavParamType::Uint32),
        Value::I32(v) => (pattern_of(v, 0x1_0000_0000), MavParamType::Int32),
        Value::F32(v) => (v, MavParamType::Real32),
    }
}

/// Unpacking what was packed bytewise gives the value back.
pub proof fn law_bytewise_round_trip(value: Value, bits: u32)
    requires
        bits == bytewise_bits(value),
    ensures
        bytewise_value(bits, param_type(value)) == Some(value),
{
}

// ---------------------------------------------------------------------------
// Packing by a cast
// ---------------------------------------------------------------------------

/// The value that a cast of the single to the type gives.
pub open spec fn c_cast_value(bits: u32, param_type: MavParamType) -> Option<Value> {
    match param_type {
        MavParamType::Uint8 => Some(Value::U8(truncated(bits, 0, 0xff) as u8)),
        MavParamType::Int8 => Some(Value::I8(truncated(bits, -0x80, 0x7f) as i8)),
        MavParamType::Uint16 => Some(Value::U16(truncated(bits, 0, 0xffff) as u16)),
        MavParamType::Int16 => Some(Value::I16(truncated(bits, -0x8000, 0x7fff) as i16)),
        MavParamType::Uint32 => Some(Value::U32(truncated(bits, 0, 0xffff_ffff) as u32)),
        MavParamType::Int32 => Some(Value::I32(truncated(bits, -0x8000_0000, 0x7fff_ffff) as i32)),
        MavParamType::Real32 => Some(Value::F32(bits)),
        _ => None,
    }
}

/// The single that a cast of the value gives.
pub open spec fn c_cast_bits(value: Value) -> nat {
    match value {
        Value::U8(v) => nearest(v as nat),
        Value::I8(v) => nearest_signed(v as int),
        Value::U16(v) => nearest(v as nat),
        Value::I16(v) => nearest_signed(v as int),
        Value::U32(v) => nearest(v as nat),
        Value::I32(v) => nearest_signed(v as int),
        Value::F32(v) => v as nat,
    }
}

/// Unpacks a value that was packed by a cast; `None` for the types of 64 bits.
pub fn value_from_c_cast(param_value: u32, param_type: MavParamType) -> (r: Option<Value>)
    ensures
        r == c_cast_value(param_value, param_type),
{
    let value = match param_type {
        MavParamType::Uint8 => Value::U8(truncate(param_value, 0, 0xff) as u8),
        MavParamType::Int8 => Value::I8(truncate(param_value, -0x80, 0x7f) as i8),
        MavParamType::Uint16 => Value::U16(truncate(param_value, 0, 0xffff) as u16),
        MavParamType::Int16 => Value::I16(truncate(param_value, -0x8000, 0x7fff) as i16),
        MavParamType::Uint32 => Value::U32(truncate(param_value, 0, 0xffff_ffff) as u32),
        MavParamType::Int32 => Value::I32(truncate(param_value, -0x8000_0000, 0x7fff_ffff) as i32),
        MavParamType::Real32 => Value::F32(param_value),
        _ => return None,
    };
    Some(value)
}

/// Packs a value by a cast.
pub fn value_into_c_cast(value: Value) -> (r: (u32, MavParamType))
    ensures
        r.0 == c_cast_bits(value),
        r.1 == param_type(value),
{
    match value {
        Value::U8(v) => (nearest_real(v as u32), MavParamType::Uint8),
        Value::I8(v) => (nearest_signed_real(v as i32), MavParamType::Int8),
        Value::U16(v) => (nearest_real(v as u32), MavParamType::Uint16),
        Value::I16(v) => (nearest_signed_real(v as i32), MavParamType::Int16),
        Value::U32(v) => (nearest_real(v), MavParamType::Uint32),
        Value::I32(v) => (nearest_signed_real(v), MavParamType::Int32),
        Value::F32(v) => (v, MavParamType::Real32),
    }
}

/// The values that come through a cast to a single and back: all but the integers
/// of 32 bits that the single has to round, and of those still the largest of
/// each type.
pub open spec fn survives_c_cast(value: Value) -> bool {
    match value {
        Value::U32(v) => is_exact(v as nat) || v == 0xffff_ffff,
        Value::I32(v) => is_exact(
            if v < 0 {
                (-(v as int)) as nat
            } else {
                v as nat
            },
        ) || v == 0x7fff_ffff,
        _ => true,
    }
}

/// Unpacking what was packed by a cast gives the value back, where the single
/// holds it.
pub proof fn law_c_cast_round_trip(value: Value, bits: u32)
    requires
        bits == c_cast_bits(value),
        survives_c_cast(value),
    ensures
        c_cast_value(bits, param_type(value)) == Some(value),
{
    match value {
        Value::U8(v) => {
            lemma_short_is_exact(v as nat);
            law_cast_back(v as int, 0, 0xff, bits);
        },
        Value::I8(v) => {
            lemma_short_is_exact(
                if v < 0 {
                    (-(v as int)) as nat
                } else {
                    v as nat
                },
            );
            law_cast_back(v as int, -0x80, 0x7f, bits);
        },
        Value::U16(v) => {
            lemma_short_is_exact(v as nat);
            law_cast_back(v as int, 0, 0xffff, bits);
        },
        Value::I16(v) => {
            lemma_short_is_exact(
                if v < 0 {
                    (-(v as int)) as nat
                } else {
                    v as nat
                },
            );
            law_cast_back(v as int, -0x8000, 0x7fff, bits);
        },
        Value::U32(v) => {
            if v == 0xffff_ffff {
                law_cast_back_largest(0xffff_ffff, bits);
            } else {
                law_cast_back(v as int, 0, 0xffff_ffff, bits);
            }
        },
        Value::I32(v) => {
            if v == 0x7fff_ffff {
                law_cast_back_largest(0x7fff_ffff, bits);
            } else {
                law_cast_back(v as int, -0x8000_0000, 0x7fff_ffff, bits);
            }
        },
        Value::F32(v) => {},
    }
}

// ---------------------------------------------------------------------------
// The packing that a vehicle announces
// ---------------------------------------------------------------------------

/// A vehicle with the capability bits `cap` says how it packs values.
pub open spec fn packing_known(cap: u64) -> bool {
    cap & PARAM_ENCODE_BYTEWISE == PARAM_ENCODE_BYTEWISE || cap & PARAM_ENCODE_C_CAST
        == PARAM_ENCODE_C_CAST
}

/// The single that a vehicle with the capability bits `cap` packs a value into:
/// bytewise where it says so, else by a cast.
pub open spec fn packed_bits(cap: u64, value: Value) -> int {
    if cap & PARAM_ENCODE_BYTEWISE == PARAM_ENCODE_BYTEWISE {
        bytewise_bits(value)
    } else {
        c_cast_bits(value) as int
    }
}

/// How a vehicle with the capability bits `cap` packs a value, where it says so.
pub open spec fn packed(cap: u64, value: Value) -> Option<(int, MavParamType)> {
    if packing_known(cap) {
        Some((packed_bits(cap, value), param_type(value)))
    } else {
        None
    }
}

/// What a single from a vehicle with the capability bits `cap` stands for.
pub open spec fn unpacked(cap: u64, bits: u32, param_type: MavParamType) -> Option<Value> {
    if cap & PARAM_ENCODE_BYTEWISE == PARAM_ENCODE_BYTEWISE {
        bytewise_value(bits, param_type)
    } else if cap & PARAM_ENCODE_C_CAST == PARAM_ENCODE_C_CAST {
        c_cast_value(bits, param_type)
    } else {
        None
    }
}

/// Whether a vehicle says how it packs values.
pub fn packs(cap: u64) -> (r: bool)
    ensures
        r == packing_known(cap),
{
    cap & PARAM_ENCODE_BYTEWISE == PARAM_ENCODE_BYTEWISE || cap & PARAM_ENCODE_C_CAST
        == PARAM_ENCODE_C_CAST
}

/// Packs a value for a vehicle; `None` where its packing is not known.
pub fn from_value(cap: u64, value: Value) -> (r: Option<(u32, MavParamType)>)
    ensures
        match r {
            Some((bits, ty)) => packed(cap, value) == Some((bits as int, ty)),
            None => packed(cap, value) is None,
        },
{
    if cap & PARAM_ENCODE_BYTEWISE == PARAM_ENCODE_BYTEWISE {
        Some(value_into_bytewise(value))
    } else if cap & PARAM_ENCODE_C_CAST == PARAM_ENCODE_C_CAST {
        Some(value_into_c_cast(value))
    } else {
        None
    }
}

/// Unpacks a value from a vehicle; `None` where its packing is not known, or its
/// type has 64 bits.
pub fn mavio_into_value(cap: u64, param_value: u32, param_type: MavParamType) -> (r: Option<Value>)
    ensures
        r == unpacked(cap, param_value, param_type),
{
    if cap & PARAM_ENCODE_BYTEWISE == PARAM_ENCODE_BYTEWISE {
        value_from_bytewise(param_value, param_type)
    } else if cap & PARAM_ENCODE_C_CAST == PARAM_ENCODE_C_CAST {
        value_from_c_cast(param_value, param_type)
    } else {
        None
    }
}

/// A value that is packed for a vehicle comes back from it unchanged: always
/// where the packing is bytewise, and where the single holds it otherwise.
pub proof fn law_packing_round_trip(cap: u64, value: Value, bits: u32)
    requires
        packed(cap, value) == Some((bits as int, param_type(value))),
        cap & PARAM_ENCODE_BYTEWISE != PARAM_ENCODE_BYTEWISE ==> survives_c_cast(value),
    ensures
        unpacked(cap, bits, param_type(value)) == Some(value),
{
    if cap & PARAM_ENCODE_BYTEWISE == PARAM_ENCODE_BYTEWISE {
        law_bytewise_round_trip(value, bits);
    } else {
        law_c_cast_round_trip(value, bits);
    }
}

// ---------------------------------------------------------------------------
// Comparing, naming, reading and writing
// ---------------------------------------------------------------------------

/// Two values of one type.
pub fn value_type_matches(lhs: Value, rhs: Value) -> (r: bool)
    ensures
        r == (param_type(lhs) == param_type(rhs)),
{
    match (lhs, rhs) {
        (Value::U8(_), Value::U8(_)) => true,
        (Value::I8(_), Value::I8(_)) => true,
        (Value::U16(_), Value::U16(_)) => true,
        (Value::I16(_), Value::I16(_)) => true,
        (Value::U32(_), Value::U32(_)) => true,
        (Value::I32(_), Value::I32(_)) => true,
        (Value::F32(_), Value::F32(_)) => true,
        _ => false,
    }
}

/// Two values of one type that are the same number, as IEEE 754 compares numbers.
pub open spec fn equal_values(lhs: Value, rhs: Value) -> bool {
    match (lhs, rhs) {
        (Value::F32(a), Value::F32(b)) => equal_reals(a, b),
        _ => lhs == rhs,
    }
}

/// Compares two values.
pub fn same_value(lhs: Value, rhs: Value) -> (r: bool)
    ensures
        r == equal_values(lhs, rhs),
{
    match (lhs, rhs) {
        (Value::F32(a), Value::F32(b)) => same_real(a, b),
        _ => lhs == rhs,
    }
}

/// The name of a value's type.
pub open spec fn name_of_type(value: Value) -> Seq<char> {
    match value {
        Value::U8(_) => "u8"@,
        Value::I8(_) => "i8"@,
        Value::U16(_) => "u16"@,
        Value::I16(_) => "i16"@,
        Value::U32(_) => "u32"@,
        Value::I32(_) => "i32"@,
        Value::F32(_) => "f32"@,
    }
}

/// The name of a value's type.
pub fn value_type_name(value: Value) -> (r: &'static str)
    ensures
        r@ == name_of_type(value),
{
    match value {
        Value::U8(_) => "u8",
        Value::I8(_) => "i8",
        Value::U16(_) => "u16",
        Value::I16(_) => "i16",
        Value::U32(_) => "u32",
        Value::I32(_) => "i32",
        Value::F32(_) => "f32",
    }
}

/// How a text reads as a value of the type of `kind`. `number` is how it reads as a
/// single.
pub open spec fn value_reading(kind: Value, s: Seq<char>, number: Option<u32>) -> Option<Value> {
    match kind {
        Value::U8(_) => match unsigned_reading(s, 0xff) {
            Some(n) => Some(Value::U8(n as u8)),
            None => None,
        },
        Value::I8(_) => match signed_reading(s, 0x7f) {
            Some(n) => Some(Value::I8(n as i8)),
            None => None,
        },
        Value::U16(_) => match unsigned_reading(s, 0xffff) {
            Some(n) => Some(Value::U16(n as u16)),
            None => None,
        },
        Value::I16(_) => match signed_reading(s, 0x7fff) {
            Some(n) => Some(Value::I16(n as i16)),
            None => None,
        },
        Value::U32(_) => match unsigned_reading(s, 0xffff_ffff) {
            Some(n) => Some(Value::U32(n as u32)),
            None => None,
        },
        Value::I32(_) => match signed_reading(s, 0x7fff_ffff) {
            Some(n) => Some(Value::I32(n as i32)),
            None => None,
        },
        Value::F32(_) => match number {
            Some(bits) => Some(Value::F32(bits)),
            None => None,
        },
    }
}

/// Whether `text` writes `value`: an integer by its decimal numeral, a single by a
/// text that `real_text` gives for it.
pub open spec fn writes_value<F: Fn(u32) -> String>(
    real_text: F,
    value: Value,
    text: String,
) -> bool {
    match value {
        Value::U8(v) => text@ == decimal(v as nat),
        Value::I8(v) => text@ == signed_decimal(v as int),
        Value::U16(v) => text@ == decimal(v as nat),
        Value::I16(v) => text@ == signed_decimal(v as int),
        Value::U32(v) => text@ == decimal(v as nat),
        Value::I32(v) => text@ == signed_decimal(v as int),
        Value::F32(v) => call_ensures(real_text, (v,), text),
    }
}

/// Reads a text as a value of the type of `kind`. Singles are read by `read_real`.
pub fn value_parse_as<F: Fn(&str) -> Option<u32>>(kind: Value, string: &str, read_real: F) -> (r:
    Option<Value>)
    requires
        forall|s: &str| call_requires(read_real, (s,)),
    ensures
        kind !is F32 ==> r == value_reading(kind, string@, None),
        kind is F32 ==> exists|number: Option<u32>| #[trigger]
            call_ensures(read_real, (string,), number) && r == value_reading(kind, string@, number),
{
    match kind {
        Value::U8(_) => match parse_unsigned(string, 0xff) {
            Some(n) => Some(Value::U8(n as u8)),
            None => None,
        },
        Value::I8(_) => match parse_signed(string, 0x7f) {
            Some(n) => Some(Value::I8(n as i8)),
            None => None,
        },
        Value::U16(_) => match parse_unsigned(string, 0xffff) {
            Some(n) => Some(Value::U16(n as u16)),
            None => None,
        },
        Value::I16(_) => match parse_signed(string, 0x7fff) {
            Some(n) => Some(Value::I16(n as i16)),
            None => None,
        },
        Value::U32(_) => match parse_unsigned(string, 0xffff_ffff) {
            Some(n) => Some(Value::U32(n)),
            None => None,
        },
        Value::I32(_) => match parse_signed(string, 0x7fff_ffff) {
            Some(n) => Some(Value::I32(n)),
            None => None,
        },
        Value::F32(_) => {
            let number = read_real(string);
            let r = match number {
                Some(bits) => Some(Value::F32(bits)),
                None => None,
            };
            assert(call_ensures(read_real, (string,), number) && r == value_reading(
                kind,
                string@,
                number,
            ));
            r
        },
    }
}

/// Writes a value. Singles are written by `real_text`.
pub fn value_as_string<F: Fn(u32) -> String>(value: Value, real_text: F) -> (r: String)
    requires
        forall|bits: u32| call_requires(real_text, (bits,)),
    ensures
        writes_value(real_text, value, r),
{
    match value {
        Value::U8(v) => decimal_text(v as u64),
        Value::I8(v) => signed_decimal_text(v as i64),
        Value::U16(v) => decimal_text(v as u64),
        Value::I16(v) => signed_decimal_text(v as i64),
        Value::U32(v) => decimal_text(v as u64),
        Value::I32(v) => signed_decimal_text(v as i64),
        Value::F32(v) => real_text(v),
    }
}

/// Reading what was written as a value of its type gives the value back, where the reader
/// of singles reads what their writer wrote.
pub proof fn law_text_round_trip<F: Fn(u32) -> String>(
    real_text: F,
    kind: Value,
    value: Value,
    text: String,
    number: Option<u32>,
)
    requires
        param_type(kind) == param_type(value),
        writes_value(real_text, value, text),
        value matches Value::F32(bits) ==> number == Some(bits),
    ensures
        value_reading(kind, text@, number) == Some(value),
{
    match value {
        Value::U8(v) => law_unsigned_read_back(v as nat, 0xff),
        Value::I8(v) => law_signed_read_back(v as int, 0x7f),
        Value::U16(v) => law_unsigned_read_back(v as nat, 0xffff),
        Value::I16(v) => law_signed_read_back(v as int, 0x7fff),
        Value::U32(v) => law_unsigned_read_back(v as nat, 0xffff_ffff),
        Value::I32(v) => law_signed_read_back(v as int, 0x7fff_ffff),
        Value::F32(v) => {},
    }
}

/// A text is only ever read as a value of the type asked for.
pub proof fn law_reading_keeps_type(kind: Value, s: Seq<char>, number: Option<u32>)
    ensures
        value_reading(kind, s, number) matches Some(v) ==> param_type(v) == param_type(kind),
{
}

} // verus!
