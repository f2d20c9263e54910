//! Values of parameters: packing, comparing, reading.

use crate::single::{
    equal_reals, exponent, fraction, lemma_log2_below, lemma_long_significand,
    lemma_short_significand, log2, nearest, nearest_signed, rounded_quotient, truncated, whole,
};
use crate::text::{signed_reading, unsigned_reading};
use crate::value::{
    bytewise_bits, bytewise_value, c_cast_bits, c_cast_value, equal_values, packed, param_type,
    unpacked, value_reading, MavParamType, Value,
};
use vstd::arithmetic::power2::{lemma2_to64, lemma_pow2_pos, lemma_pow2_unfold, pow2};
use vstd::prelude::*;

verus! {

/// The single of a natural number is the nearest there is: it is that number where
/// twenty-four bits are enough, and else no further from it than half of the distance
/// between two singles there; of two that are as near, the even one.
pub proof fn law_singles_are_nearest(n: nat)
    requires
        0 < n <= 0xffff_ffff,
    ensures
        nearest(0) == 0,
        nearest(n) < 0x8000_0000,
        ({
            let e = nearest(n) as int / 0x80_0000;
            let s = 0x80_0000 + nearest(n) as int % 0x80_0000;
            &&& 127 <= e
            &&& e <= 150 ==> s == n * pow2((150 - e) as nat)
            &&& e > 150 ==> 2 * (s * pow2((e - 150) as nat) - n) <= pow2((e - 150) as nat)
            &&& e > 150 ==> 2 * (n - s * pow2((e - 150) as nat)) <= pow2((e - 150) as nat)
            &&& e > 150 && (2 * (s * pow2((e - 150) as nat) - n) == pow2((e - 150) as nat) || 2 * (n
                - s * pow2((e - 150) as nat)) == pow2((e - 150) as nat)) ==> s % 2 == 0
        }),
{
    lemma2_to64();
    lemma_log2_below(n, 32);
    let l = log2(n);
    if l <= 23 {
        lemma_short_significand(n);
        let s = n * pow2((23 - l) as nat);
        assert(nearest(n) == (l + 126) * 0x80_0000 + s);
        assert(nearest(n) as int / 0x80_0000 == l + 127);
        assert((150 - (l + 127)) as nat == (23 - l) as nat);
    } else {
        lemma_long_significand(n);
        let k = (l - 23) as nat;
        let p = pow2(k);
        lemma_pow2_pos(k);
        let q = rounded_quotient(n, p);
        assert(nearest(n) == (l + 126) * 0x80_0000 + q);
        assert(n == p * (n / p) + n % p && 0 <= n % p < p) by (nonlinear_arith)
            requires
                p > 0,
        ;
        assert(2 * (q * p - n) <= p && 2 * (n - q * p) <= p) by (nonlinear_arith)
            requires
                n == p * (n / p) + n % p,
                0 <= n % p < p,
                (q == n / p && 2 * (n % p) <= p) || (q == n / p + 1 && 2 * (n % p) >= p),
        ;
        assert(2 * (q * p - n) == p || 2 * (n - q * p) == p ==> q % 2 == 0) by (nonlinear_arith)
            requires
                n == p * (n / p) + n % p,
                0 <= n % p < p,
                (q == n / p && (2 * (n % p) < p || (2 * (n % p) == p && (n / p) % 2 == 0))) || (q
                    == n / p + 1 && (2 * (n % p) > p || (2 * (n % p) == p && (n / p) % 2 != 0))),
        ;
        if q < 0x100_0000 {
            assert(nearest(n) as int / 0x80_0000 == l + 127);
            assert(nearest(n) as int % 0x80_0000 == q - 0x80_0000);
            assert(((l + 127) - 150) as nat == k);
        } else {
            assert(nearest(n) as int / 0x80_0000 == l + 128);
            assert(nearest(n) as int % 0x80_0000 == 0);
            assert(((l + 128) - 150) as nat == k + 1);
            lemma_pow2_unfold(k + 1);
            assert(0x80_0000 * (2 * p) == q * p) by (nonlinear_arith)
                requires
                    q == 0x100_0000,
            ;
        }
    }
}

/// The single of a number below zero is that of its size, with the sign bit set.
pub proof fn law_singles_have_signs(n: int)
    requires
        0 < n,
    ensures
        nearest_signed(-n) == 0x8000_0000 + nearest(n as nat),
        nearest_signed(n) == nearest(n as nat),
        nearest_signed(0) == 0,
{
}

/// A single is cast to an integer by cutting off what stands behind the point, down to the
/// smallest and up to the largest integer of the type: `n` is its size, cut off.
pub proof fn law_casts_cut_off(bits: u32, n: int, min: int, max: int)
    requires
        min <= 0 <= max,
        0 <= n,
        ({
            let e = (bits as int % 0x8000_0000) / 0x80_0000;
            let s = 0x80_0000 + bits as int % 0x80_0000;
            &&& e < 255
            &&& e < 127 ==> n == 0
            &&& 127 <= e <= 150 ==> n * pow2((150 - e) as nat) <= s < (n + 1) * pow2(
                (150 - e) as nat,
            )
            &&& 150 < e ==> n == s * pow2((e - 150) as nat)
        }),
    ensures
        bits < 0x8000_0000 ==> truncated(bits, min, max) == if n > max {
            max
        } else {
            n
        },
        bits >= 0x8000_0000 ==> truncated(bits, min, max) == if -n < min {
            min
        } else {
            -n
        },
{
    let e = exponent(bits);
    let s = 0x80_0000 + fraction(bits);
    if 127 <= e <= 150 {
        let p = pow2((150 - e) as nat);
        lemma_pow2_pos((150 - e) as nat);
        assert(s as int / p as int == n) by (nonlinear_arith)
            requires
                p > 0,
                n * p <= s < (n + 1) * p,
        ;
    }
    assert(whole(bits) == n);
}

/// What is no number is cast to zero, and the infinities to the largest and smallest
/// integers of the type.
pub proof fn law_casts_of_no_numbers(bits: u32, min: int, max: int)
    requires
        (bits as int % 0x8000_0000) / 0x80_0000 == 255,
    ensures
        truncated(bits, min, max) == if bits as int % 0x80_0000 != 0 {
            0
        } else if bits < 0x8000_0000 {
            max
        } else {
            min
        },
{
}

/// Singles are equal where their bits are, and the two zeros are; what is no number equals
/// nothing.
pub proof fn law_equal_singles(a: u32, b: u32)
    ensures
        equal_reals(a, b) == equal_reals(b, a),
        (a as int % 0x8000_0000) > 0x7f80_0000 ==> !equal_reals(a, b),
        (a as int % 0x8000_0000) <= 0x7f80_0000 ==> equal_reals(a, a),
        equal_reals(0, 0x8000_0000),
        a != b && (a as int % 0x8000_0000 != 0 || b as int % 0x8000_0000 != 0) ==> !equal_reals(
            a,
            b,
        ),
{
}

/// Values are compared as numbers of their type; values of two types differ.
pub proof fn law_equal_values(a: Value, b: Value)
    ensures
        param_type(a) != param_type(b) ==> !equal_values(a, b),
        param_type(a) == param_type(b) ==> match (a, b) {
            (Value::F32(x), Value::F32(y)) => equal_values(a, b) == equal_reals(x, y),
            _ => equal_values(a, b) == (a == b),
        },
{
}

/// The types that values go by on the wire.
pub proof fn law_types(bits: u32, n: int)
    ensures
        param_type(Value::U8(n as u8)) == MavParamType::Uint8,
        param_type(Value::I8(n as i8)) == MavParamType::Int8,
        param_type(Value::U16(n as u16)) == MavParamType::Uint16,
        param_type(Value::I16(n as i16)) == MavParamType::Int16,
        param_type(Value::U32(bits)) == MavParamType::Uint32,
        param_type(Value::I32(n as i32)) == MavParamType::Int32,
        param_type(Value::F32(bits)) == MavParamType::Real32,
{
}

/// Bytewise packing copies the bytes of a value, lowest first, into the lowest bytes of the
/// single, and leaves the others zero.
pub proof fn law_bytewise_packing(value: Value)
    ensures
        match value {
            Value::U8(v) => bytewise_bits(value) == v,
            Value::I8(v) => 0 <= bytewise_bits(value) < 0x100 && (bytewise_bits(value) == v
                || bytewise_bits(value) == v + 0x100),
            Value::U16(v) => bytewise_bits(value) == v,
            Value::I16(v) => 0 <= bytewise_bits(value) < 0x1_0000 && (bytewise_bits(value) == v
                || bytewise_bits(value) == v + 0x1_0000),
            Value::U32(v) => bytewise_bits(value) == v,
            Value::I32(v) => 0 <= bytewise_bits(value) < 0x1_0000_0000 && (bytewise_bits(value) == v
                || bytewise_bits(value) == v + 0x1_0000_0000),
            Value::F32(v) => bytewise_bits(value) == v,
        },
{
}

/// Unpacking takes the lowest bytes of a single, as many as the type has, and leaves out
/// the others. The types of eight bytes do not fit.
pub proof fn law_bytewise_unpacking(bits: u32, other: u32)
    ensures
        bytewise_value(bits, MavParamType::Uint8) matches Some(Value::U8(v)) && v == bits % 0x100,
        bytewise_value(bits, MavParamType::Int8) matches Some(Value::I8(v)) && (v == bits as int
            % 0x100 || v == bits as int % 0x100 - 0x100),
        bytewise_value(bits, MavParamType::Uint16) matches Some(Value::U16(v)) && v == bits
            % 0x1_0000,
        bytewise_value(bits, MavParamType::Int16) matches Some(Value::I16(v)) && (v == bits as int
            % 0x1_0000 || v == bits as int % 0x1_0000 - 0x1_0000),
        bytewise_value(bits, MavParamType::Uint32) == Some(Value::U32(bits)),
        bytewise_value(bits, MavParamType::Int32) matches Some(Value::I32(v)) && (v == bits || v
            == bits - 0x1_0000_0000),
        bytewise_value(bits, MavParamType::Real32) == Some(Value::F32(bits)),
        bytewise_value(bits, MavParamType::Uint64) is None,
        bytewise_value(bits, MavParamType::Int64) is None,
        bytewise_value(bits, MavParamType::Real64) is None,
{
}

/// Packing by a cast takes the single that is nearest to the number, and a single as it is.
pub proof fn law_cast_packing(value: Value)
    ensures
        match value {
            Value::U8(v) => c_cast_bits(value) == nearest_signed(v as int),
            Value::I8(v) => c_cast_bits(value) == nearest_signed(v as int),
            Value::U16(v) => c_cast_bits(value) == nearest_signed(v as int),
            Value::I16(v) => c_cast_bits(value) == nearest_signed(v as int),
            Value::U32(v) => c_cast_bits(value) == nearest_signed(v as int),
            Value::I32(v) => c_cast_bits(value) == nearest_signed(v as int),
            Value::F32(v) => c_cast_bits(value) == v,
        },
{
}

/// Unpacking by a cast keeps to the numbers of the type. The types of eight bytes are not
/// unpacked.
pub proof fn law_cast_unpacking(bits: u32)
    ensures
        c_cast_value(bits, MavParamType::Uint8) matches Some(Value::U8(v)) && v == truncated(
            bits,
            0,
            255,
        ),
        c_cast_value(bits, MavParamType::Int8) matches Some(Value::I8(v)) && v == truncated(
            bits,
            -128,
            127,
        ),
        c_cast_value(bits, MavParamType::Uint16) matches Some(Value::U16(v)) && v == truncated(
            bits,
            0,
            65535,
        ),
        c_cast_value(bits, MavParamType::Int16) matches Some(Value::I16(v)) && v == truncated(
            bits,
            -32768,
            32767,
        ),
        c_cast_value(bits, MavParamType::Uint32) matches Some(Value::U32(v)) && v == truncated(
            bits,
            0,
            4294967295,
        ),
        c_cast_value(bits, MavParamType::Int32) matches Some(Value::I32(v)) && v == truncated(
            bits,
            -2147483648,
            2147483647,
        ),
        c_cast_value(bits, MavParamType::Real32) == Some(Value::F32(bits)),
        c_cast_value(bits, MavParamType::Uint64) is None,
        c_cast_value(bits, MavParamType::Int64) is None,
        c_cast_value(bits, MavParamType::Real64) is None,
{
}

/// A vehicle that packs bytewise is served bytewise, whatever else it can do; one that
/// casts is served by casts; one that does neither is not served.
pub proof fn law_capabilities_choose_the_packing(
    cap: u64,
    value: Value,
    bits: u32,
    ty: MavParamType,
)
    ensures
        cap & 16 == 16 ==> {
            &&& packed(cap, value) == Some((bytewise_bits(value), param_type(value)))
            &&& unpacked(cap, bits, ty) == bytewise_value(bits, ty)
        },
        cap & 16 != 16 && cap & 131072 == 131072 ==> {
            &&& packed(cap, value) == Some((c_cast_bits(value) as int, param_type(value)))
            &&& unpacked(cap, bits, ty) == c_cast_value(bits, ty)
        },
        cap & 16 != 16 && cap & 131072 != 131072 ==> {
            &&& packed(cap, value) is None
            &&& unpacked(cap, bits, ty) is None
        },
{
}

/// A text reads as a value of a type where it reads as a number within its bounds.
pub proof fn law_values_are_read_within_bounds(kind: Value, s: Seq<char>, number: Option<u32>)
    ensures
        match kind {
            Value::U8(_) => match value_reading(kind, s, number) {
                Some(v) => v matches Value::U8(n) && unsigned_reading(s, 255) == Some(n as nat),
                None => unsigned_reading(s, 255) is None,
            },
            Value::I8(_) => match value_reading(kind, s, number) {
                Some(v) => v matches Value::I8(n) && signed_reading(s, 127) == Some(n as int),
                None => signed_reading(s, 127) is None,
            },
            Value::U16(_) => match value_reading(kind, s, number) {
                Some(v) => v matches Value::U16(n) && unsigned_reading(s, 65535) == Some(n as nat),
                None => unsigned_reading(s, 65535) is None,
            },
            Value::I16(_) => match value_reading(kind, s, number) {
                Some(v) => v matches Value::I16(n) && signed_reading(s, 32767) == Some(n as int),
                None => signed_reading(s, 32767) is None,
            },
            Value::U32(_) => match value_reading(kind, s, number) {
                Some(v) => v matches Value::U32(n) && unsigned_reading(s, 4294967295) == Some(
                    n as nat,
                ),
                None => unsigned_reading(s, 4294967295) is None,
            },
            Value::I32(_) => match value_reading(kind, s, number) {
                Some(v) => v matches Value::I32(n) && signed_reading(s, 2147483647) == Some(
                    n as int,
                ),
                None => signed_reading(s, 2147483647) is None,
            },
            Value::F32(_) => match value_reading(kind, s, number) {
                Some(v) => v matches Value::F32(bits) && number == Some(bits),
                None => number is None,
            },
        },
{
}

} // verus!
