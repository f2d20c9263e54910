//! Single-precision numbers by their bit patterns.
//!
//! The wire carries every parameter in an IEEE 754 single, and the ground station
//! keeps such a number as the `u32` with the same bits: one sign bit, eight
//! exponent bits, twenty-three fraction bits.

use vstd::arithmetic::power2::{
    lemma2_to64, lemma_pow2_adds, lemma_pow2_pos, lemma_pow2_strictly_increases, lemma_pow2_unfold,
    pow2,
};
use vstd::prelude::*;

verus! {

/// The sign bit is set.
pub open spec fn is_negative(bits: u32) -> bool {
    bits >= 0x8000_0000
}

/// The eight exponent bits.
pub open spec fn exponent(bits: u32) -> nat {
    ((bits % 0x8000_0000) / 0x80_0000) as nat
}

/// The twenty-three fraction bits.
pub open spec fn fraction(bits: u32) -> nat {
    (bits % 0x80_0000) as nat
}

pub open spec fn is_nan(bits: u32) -> bool {
    exponent(bits) == 255 && fraction(bits) != 0
}

pub open spec fn is_infinite(bits: u32) -> bool {
    exponent(bits) == 255 && fraction(bits) == 0
}

/// The magnitude of a finite number, rounded down to an integer. A normal number
/// is `2^23 + fraction` scaled by `2^(exponent - 150)`; all others lie below one.
pub open spec fn whole(bits: u32) -> nat {
    if exponent(bits) < 127 {
        0
    } else if exponent(bits) <= 150 {
        (0x80_0000 + fraction(bits)) / pow2((150 - exponent(bits)) as nat)
    } else {
        (0x80_0000 + fraction(bits)) * pow2((exponent(bits) - 150) as nat)
    }
}

pub open spec fn clamp(n: int, min: int, max: int) -> int {
    if n < min {
        min
    } else if n > max {
        max
    } else {
        n
    }
}

/// The cast of a number to an integer type with the bounds `min` and `max`:
/// rounded towards zero, saturating, and zero for a NaN.
pub open spec fn truncated(bits: u32, min: int, max: int) -> int {
    if is_nan(bits) {
        0
    } else if is_infinite(bits) {
        if is_negative(bits) {
            min
        } else {
            max
        }
    } else if is_negative(bits) {
        clamp(-(whole(bits) as int), min, max)
    } else {
        clamp(whole(bits) as int, min, max)
    }
}

/// The position of the highest set bit of a positive number.
pub open spec fn log2(n: nat) -> nat
    decreases n,
{
    if n < 2 {
        0
    } else {
        1 + log2(n / 2)
    }
}

/// `n / d`, rounded to the nearest integer, and to the even one of two.
pub open spec fn rounded_quotient(n: nat, d: nat) -> nat {
    if 2 * (n % d) < d || (2 * (n % d) == d && (n / d) % 2 == 0) {
        n / d
    } else {
        n / d + 1
    }
}

/// The bits of the number nearest to a natural number, ties to even. The leading
/// bit of the significand adds one to the exponent field.
pub open spec fn nearest(n: nat) -> nat {
    if n == 0 {
        0
    } else if log2(n) <= 23 {
        (log2(n) + 126) * 0x80_0000 + n * pow2((23 - log2(n)) as nat)
    } else {
        (log2(n) + 126) * 0x80_0000 + rounded_quotient(n, pow2((log2(n) - 23) as nat))
    }
}

/// The bits of the number nearest to an integer.
pub open spec fn nearest_signed(n: int) -> nat {
    if n < 0 {
        0x8000_0000 + nearest((-n) as nat)
    } else {
        nearest(n as nat)
    }
}

/// How IEEE 754 compares two numbers: a NaN equals nothing, and the two zeros
/// equal each other.
pub open spec fn equal_reals(a: u32, b: u32) -> bool {
    !is_nan(a) && !is_nan(b) && (a == b || (a % 0x8000_0000 == 0 && b % 0x8000_0000 == 0))
}

fn two_to(k: u64) -> (r: u64)
    requires
        k <= 31,
    ensures
        r == pow2(k as nat),
{
    let mut r: u64 = 1;
    let mut i: u64 = 0;
    proof {
        lemma2_to64();
    }
    while i < k
        invariant
            i <= k <= 31,
            r == pow2(i as nat),
        decreases k - i,
    {
        proof {
            lemma_pow2_unfold((i + 1) as nat);
            lemma_pow2_strictly_increases(i as nat, 32);
            lemma2_to64();
        }
        r = r * 2;
        i += 1;
    }
    r
}

fn nan(bits: u32) -> (r: bool)
    ensures
        r == is_nan(bits),
{
    (bits % 0x8000_0000) / 0x80_0000 == 255 && bits % 0x80_0000 != 0
}

/// Compares two numbers.
pub fn same_real(a: u32, b: u32) -> (r: bool)
    ensures
        r == equal_reals(a, b),
{
    !nan(a) && !nan(b) && (a == b || (a % 0x8000_0000 == 0 && b % 0x8000_0000 == 0))
}

/// The cast of a number to an integer type.
pub fn truncate(bits: u32, min: i64, max: i64) -> (r: i64)
    requires
        -0x8000_0000 <= min <= 0 <= max <= 0xffff_ffff,
    ensures
        r == truncated(bits, min as int, max as int),
{
    let e: u64 = ((bits % 0x8000_0000) / 0x80_0000) as u64;
    let f: u64 = (bits % 0x80_0000) as u64;
    let negative: bool = bits >= 0x8000_0000;
    if e == 255 && f != 0 {
        return 0;
    }
    if e < 127 {
        return 0;
    }
    if e >= 159 {
        proof {
            if e < 255 {
                lemma2_to64();
                assert(pow2(9) == 512);
                if e > 159 {
                    lemma_pow2_strictly_increases(9, (e - 150) as nat);
                }
                let p = pow2((e - 150) as nat);
                assert((0x80_0000 + f) * p >= 0x80_0000 * 512) by (nonlinear_arith)
                    requires
                        p >= 512,
                        f >= 0,
                ;
            }
        }
        return if negative {
            min
        } else {
            max
        };
    }
    let significand: u64 = 0x80_0000 + f;
    let size: u64 = if e <= 150 {
        let p = two_to(150 - e);
        proof {
            lemma_pow2_pos((150 - e) as nat);
            assert(significand / p <= significand) by (nonlinear_arith)
                requires
                    p >= 1,
                    significand >= 0,
            ;
        }
        significand / p
    } else {
        let p = two_to(e - 150);
        proof {
            lemma2_to64();
            lemma_pow2_strictly_increases((e - 150) as nat, 9);
            assert(significand * p <= 0x100_0000 * 512) by (nonlinear_arith)
                requires
                    p <= 512,
                    significand <= 0x100_0000,
            ;
        }
        significand * p
    };
    assert(size == whole(bits));
    let n: i64 = if negative {
        -(size as i64)
    } else {
        size as i64
    };
    if n < min {
        min
    } else if n > max {
        max
    } else {
        n
    }
}

proof fn lemma_log2(n: nat)
    requires
        n > 0,
    ensures
        pow2(log2(n)) <= n < pow2(log2(n) + 1),
    decreases n,
{
    if n < 2 {
        lemma2_to64();
    } else {
        lemma_log2(n / 2);
        lemma_pow2_unfold(log2(n));
        lemma_pow2_unfold(log2(n) + 1);
    }
}

pub proof fn lemma_log2_below(n: nat, k: nat)
    requires
        0 < n < pow2(k),
    ensures
        log2(n) < k,
{
    lemma_log2(n);
    if log2(n) >= k {
        if log2(n) > k {
            lemma_pow2_strictly_increases(k, log2(n));
        }
        assert(pow2(k) <= pow2(log2(n)));
    }
}

/// The significand of a number of at most twenty-four bits keeps all of them.
pub proof fn lemma_short_significand(n: nat)
    requires
        n > 0,
        log2(n) <= 23,
    ensures
        0x80_0000 <= n * pow2((23 - log2(n)) as nat) < 0x100_0000,
{
    let e = log2(n);
    let k = (23 - e) as nat;
    lemma_log2(n);
    lemma_pow2_adds(e, k);
    lemma_pow2_adds(e + 1, k);
    lemma2_to64();
    assert(e + k == 23 && e + 1 + k == 24);
    lemma_pow2_pos(k);
    let p = pow2(k);
    let lo = pow2(e);
    let hi = pow2(e + 1);
    assert(lo * p <= n * p < hi * p) by (nonlinear_arith)
        requires
            lo <= n < hi,
            p > 0,
    ;
}

/// The rounded significand of a longer number stays within twenty-four bits, or
/// carries into the exponent.
pub proof fn lemma_long_significand(n: nat)
    requires
        log2(n) > 23,
    ensures
        0x80_0000 <= rounded_quotient(n, pow2((log2(n) - 23) as nat)) <= 0x100_0000,
{
    let e = log2(n);
    let k = (e - 23) as nat;
    lemma_log2(n);
    lemma_pow2_adds(23, k);
    lemma_pow2_adds(24, k);
    lemma2_to64();
    lemma_pow2_pos(k);
    let p = pow2(k);
    assert(0x80_0000 <= n / p < 0x100_0000) by (nonlinear_arith)
        requires
            0x80_0000 * p <= n < 0x100_0000 * p,
            p > 0,
    ;
}

/// The bits of the number nearest to a natural number.
pub fn nearest_real(n: u32) -> (bits: u32)
    ensures
        bits == nearest(n as nat),
        bits < 0x8000_0000,
{
    if n == 0 {
        return 0;
    }
    let mut m: u32 = n;
    let mut e: u32 = 0;
    while m >= 2
        invariant
            m >= 1,
            log2(n as nat) == e + log2(m as nat),
            e + m <= n,
        decreases m,
    {
        m = m / 2;
        e += 1;
    }
    proof {
        lemma2_to64();
        lemma_log2_below(n as nat, 32);
    }
    if e <= 23 {
        let p = two_to((23 - e) as u64);
        proof {
            lemma_short_significand(n as nat);
        }
        let s: u64 = n as u64 * p;
        ((e as u64 + 126) * 0x80_0000 + s) as u32
    } else {
        let d = two_to((e - 23) as u64);
        proof {
            lemma_pow2_pos((e - 23) as nat);
            lemma_long_significand(n as nat);
        }
        let q: u64 = n as u64 / d;
        let r: u64 = n as u64 % d;
        let s: u64 = if r < d - r || (r == d - r && q % 2 == 0) {
            q
        } else {
            q + 1
        };
        ((e as u64 + 126) * 0x80_0000 + s) as u32
    }
}

/// The bits of the number nearest to an integer.
pub fn nearest_signed_real(n: i32) -> (bits: u32)
    ensures
        bits == nearest_signed(n as int),
{
    if n < 0 {
        let size: u32 = (-(n as i64)) as u32;
        0x8000_0000 + nearest_real(size)
    } else {
        nearest_real(n as u32)
    }
}

/// A natural number that a single holds without rounding: no bit below the
/// twenty-four highest is set.
pub open spec fn is_exact(n: nat) -> bool {
    log2(n) <= 23 || n % pow2((log2(n) - 23) as nat) == 0
}

/// A number of at most twenty-four bits is held without rounding.
pub proof fn lemma_short_is_exact(n: nat)
    requires
        n < 0x100_0000,
    ensures
        is_exact(n),
{
    if n > 0 {
        lemma2_to64();
        lemma_log2_below(n, 24);
    }
}

/// Casting an integer to a single and back gives the integer, where the single
/// holds it without rounding.
pub proof fn law_cast_back(n: int, min: int, max: int, bits: u32)
    requires
        -0x8000_0000 <= n <= 0xffff_ffff,
        min <= n <= max,
        is_exact(if n < 0 {
            (-n) as nat
        } else {
            n as nat
        }),
        bits == nearest_signed(n),
    ensures
        truncated(bits, min, max) == n,
{
    let size: nat = if n < 0 {
        (-n) as nat
    } else {
        n as nat
    };
    if size > 0 {
        lemma2_to64();
        lemma_log2_below(size, 32);
        let e = log2(size);
        if e <= 23 {
            let k = (23 - e) as nat;
            let p = pow2(k);
            let s = size * p;
            lemma_short_significand(size);
            assert(nearest(size) == (e + 126) * 0x80_0000 + s);
            assert((bits % 0x8000_0000) as int == nearest(size));
            assert(exponent(bits) == e + 127);
            assert(fraction(bits) == s - 0x80_0000);
            assert((150 - exponent(bits)) as nat == k);
            lemma_pow2_pos(k);
            assert(s / p == size) by (nonlinear_arith)
                requires
                    s == size * p,
                    p > 0,
            ;
            assert(whole(bits) == size);
        } else {
            let k = (e - 23) as nat;
            let p = pow2(k);
            lemma_pow2_pos(k);
            lemma_long_significand(size);
            let q = size / p;
            assert(q * p == size) by (nonlinear_arith)
                requires
                    q == size / p,
                    size % p == 0,
                    p > 0,
            ;
            assert(rounded_quotient(size, p) == q);
            lemma_log2(size);
            lemma_pow2_adds(24, k);
            assert(q < 0x100_0000) by (nonlinear_arith)
                requires
                    q * p < 0x100_0000 * p,
                    p > 0,
            ;
            assert((bits % 0x8000_0000) as int == nearest(size));
            assert(exponent(bits) == e + 127);
            assert(fraction(bits) == q - 0x80_0000);
            assert((exponent(bits) - 150) as nat == k);
            assert(whole(bits) == size);
        }
    }
}

/// Casting the largest integer of an unsigned or signed type of 32 bits to a single
/// rounds it up, and casting back saturates at it again.
pub proof fn law_cast_back_largest(max: int, bits: u32)
    requires
        max == 0xffff_ffff || max == 0x7fff_ffff,
        bits == nearest_signed(max),
    ensures
        truncated(bits, 0, max) == max,
        truncated(bits, -max - 1, max) == max,
{
    lemma2_to64();
    let n = max as nat;
    lemma_log2(n);
    let e = log2(n);
    lemma_log2_below(n, 32);
    if max == 0xffff_ffff {
        if e < 31 {
            lemma_pow2_strictly_increases(e + 1, 33);
            assert(pow2(31) == 0x8000_0000);
            if e + 1 < 31 {
                lemma_pow2_strictly_increases(e + 1, 31);
            }
        }
        assert(e == 31);
        assert(pow2(8) == 256);
        assert(nearest(n) == 159 * 0x80_0000);
        assert(exponent(bits) == 159);
        assert(pow2(9) == 512);
        assert(whole(bits) == 0x80_0000 * 512);
    } else {
        lemma_log2_below(n, 31);
        if e < 30 {
            assert(pow2(30) == 0x4000_0000);
            if e + 1 < 30 {
                lemma_pow2_strictly_increases(e + 1, 30);
            }
        }
        assert(e == 30);
        assert(pow2(7) == 128);
        assert(n == 0x7fff_ffff && n % 128 == 127 && n / 128 == 0xff_ffff);
        assert(rounded_quotient(n, pow2(7)) == 0x100_0000);
        assert((log2(n) - 23) as nat == 7);
        assert(nearest(n) == 158 * 0x80_0000);
        assert(exponent(bits) == 158);
        assert(pow2(8) == 256);
        assert(whole(bits) == 0x80_0000 * 256);
    }
}

} // verus!
