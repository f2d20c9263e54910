//! Texts: numerals, splitting, trimming, searching, and byte strings.

use crate::text::{
    before_nul, cstring_text, decimal, has_part, is_digit, is_numeral, is_space, lemma_decimal,
    lemma_position_is, lemma_position_of, numeral_value, position_of, signed_decimal,
    signed_reading, split_at_first, trimmed, unsigned_reading, without_plus,
};
use vstd::prelude::*;
use vstd::utf8::{decode_utf8, valid_utf8};

verus! {

/// Nothing but the digits from 0 to 9.
pub open spec fn digits_only(s: Seq<char>) -> bool {
    forall|i: int| 0 <= i < s.len() ==> 48 <= #[trigger] s[i] as int <= 57
}

/// A digit behind a number makes it ten times as large, and adds itself. What grows too
/// large is no number any more, and stays none.
pub proof fn law_numerals_are_read_digit_by_digit(s: Seq<char>, d: char, max: nat)
    requires
        digits_only(s),
        48 <= d as int <= 57,
    ensures
        s.len() == 0 ==> unsigned_reading(s.push(d), max) == if d as int - 48 <= max {
            Some((d as int - 48) as nat)
        } else {
            None
        },
        s.len() > 0 ==> unsigned_reading(s.push(d), max) == match unsigned_reading(s, max) {
            Some(n) => if n * 10 + (d as int - 48) <= max {
                Some((n * 10 + (d as int - 48)) as nat)
            } else {
                None
            },
            None => None,
        },
{
    let t = s.push(d);
    assert(t.drop_last() =~= s);
    assert(is_digit(d));
    assert forall|i: int| 0 <= i < t.len() implies is_digit(#[trigger] t[i]) by {
        if i < s.len() {
            assert(48 <= s[i] as int <= 57);
        }
    }
    assert(is_digit(t[0]));
    if s.len() > 0 {
        assert(is_numeral(s)) by {
            assert forall|i: int| 0 <= i < s.len() implies is_digit(#[trigger] s[i]) by {
                assert(48 <= s[i] as int <= 57);
            }
        }
        assert(is_digit(s[0]));
        assert(numeral_value(t) == numeral_value(s) * 10 + (d as nat - 48));
    } else {
        assert(numeral_value(s) == 0);
    }
}

/// A plus sign before digits changes nothing, and neither the empty text nor one with
/// another character is a number.
pub proof fn law_only_numerals_are_read(s: Seq<char>, max: nat)
    ensures
        digits_only(s) ==> unsigned_reading(seq!['+'] + s, max) == unsigned_reading(s, max),
        s.len() == 0 ==> unsigned_reading(s, max) is None,
        forall|i: int|
            0 <= i < s.len() && !(48 <= #[trigger] s[i] as int <= 57) && !(i == 0 && s[i] == '+')
                ==> unsigned_reading(s, max) is None,
        forall|i: int|
            0 <= i < s.len() && !(48 <= #[trigger] s[i] as int <= 57) && !(i == 0 && (s[i] == '+'
                || s[i] == '-')) ==> signed_reading(s, max) is None,
{
    let signed = seq!['+'] + s;
    assert(signed.skip(1) =~= s);
    if digits_only(s) && s.len() > 0 {
        assert(48 <= s[0] as int <= 57);
    }
    assert forall|i: int|
        0 <= i < s.len() && !(48 <= #[trigger] s[i] as int <= 57) && !(i == 0 && s[i]
            == '+') implies unsigned_reading(s, max) is None by {
        let rest = without_plus(s);
        if s[0] == '+' {
            assert(rest[i - 1] == s[i]);
        } else {
            assert(rest[i] == s[i]);
        }
    }
    assert forall|i: int|
        0 <= i < s.len() && !(48 <= #[trigger] s[i] as int <= 57) && !(i == 0 && (s[i] == '+'
            || s[i] == '-')) implies signed_reading(s, max) is None by {
        if s[0] == '-' {
            assert(s.skip(1)[i - 1] == s[i]);
        }
    }
}

/// A minus sign before digits takes the number away from zero, which reaches one further
/// than the numbers above zero; without it the number is read as one without a sign.
pub proof fn law_signs(s: Seq<char>, max: nat)
    requires
        digits_only(s),
    ensures
        signed_reading(seq!['-'] + s, max) == match unsigned_reading(s, max + 1) {
            Some(n) => Some(-(n as int)),
            None => None,
        },
        signed_reading(s, max) == match unsigned_reading(s, max) {
            Some(n) => Some(n as int),
            None => None,
        },
        signed_reading(seq!['+'] + s, max) == signed_reading(s, max),
{
    assert((seq!['-'] + s).skip(1) =~= s);
    assert((seq!['+'] + s).skip(1) =~= s);
    if s.len() > 0 {
        assert(48 <= s[0] as int <= 57);
    }
}

/// A number is written with digits only, with none too many, and behind a minus sign where
/// it is below zero.
pub proof fn law_numerals_are_short(n: nat)
    ensures
        decimal(n).len() > 0,
        digits_only(decimal(n)),
        decimal(n).len() > 1 ==> decimal(n)[0] != '0',
        signed_decimal(n as int) == decimal(n),
        n > 0 ==> signed_decimal(-(n as int)) == seq!['-'] + decimal(n),
        n < 10 ==> decimal(n).len() == 1 && decimal(n)[0] as int == 48 + n,
        n >= 10 ==> decimal(n).drop_last() == decimal(n / 10) && decimal(n).last() as int == 48 + n
            % 10,
{
    lemma_decimal(n);
    assert forall|i: int| 0 <= i < decimal(n).len() implies 48 <= #[trigger] decimal(n)[i] as int
        <= 57 by {
        assert(is_digit(decimal(n)[i]));
    }
    if n >= 10 {
        assert(decimal(n).drop_last() =~= decimal(n / 10));
    }
}

/// Splitting takes a text apart at the first separator: what comes out and the separator
/// make up the text, and there is none before. A text without it does not come apart.
pub proof fn law_splitting(s: Seq<char>, c: char, before: Seq<char>, behind: Seq<char>)
    ensures
        split_at_first(s, c) == Some((before, behind)) <==> s == before + seq![c] + behind
            && !before.contains(c),
        split_at_first(s, c) is None <==> !s.contains(c),
{
    lemma_position_of(s, c);
    let p = position_of(s, c);
    if p < s.len() {
        assert(s[p] == c);
        assert(s =~= s.take(p) + seq![c] + s.skip(p + 1));
        assert(!s.take(p).contains(c)) by {
            assert forall|i: int| 0 <= i < p implies #[trigger] s.take(p)[i] != c by {
                assert(s[i] != c);
            }
        }
    }
    if s == before + seq![c] + behind && !before.contains(c) {
        assert forall|i: int| 0 <= i < before.len() implies #[trigger] s[i] != c by {
            assert(s[i] == before[i]);
            assert(before.contains(before[i]));
        }
        assert(s[before.len() as int] == c);
        lemma_position_is(s, c, before.len() as int);
        assert(s.take(before.len() as int) =~= before);
        assert(s.skip(before.len() as int + 1) =~= behind);
    }
    if s.contains(c) {
        let i = choose|i: int| 0 <= i < s.len() && s[i] == c;
        assert(s[i] == c);
    }
}

/// White space before and behind a text is cut off, all of it and nothing else.
pub proof fn law_trimming(left: Seq<char>, s: Seq<char>, right: Seq<char>)
    requires
        forall|i: int| 0 <= i < left.len() ==> is_space(#[trigger] left[i]),
        forall|i: int| 0 <= i < right.len() ==> is_space(#[trigger] right[i]),
        s.len() > 0 ==> !is_space(s[0]) && !is_space(s.last()),
    ensures
        trimmed(left + s + right) == s,
    decreases left.len() + right.len(),
{
    let whole = left + s + right;
    if left.len() > 0 {
        assert(whole[0] == left[0]);
        assert(whole.skip(1) =~= left.skip(1) + s + right);
        assert forall|i: int| 0 <= i < left.skip(1).len() implies is_space(
            #[trigger] left.skip(1)[i],
        ) by {
            assert(left.skip(1)[i] == left[i + 1]);
        }
        law_trimming(left.skip(1), s, right);
    } else if right.len() > 0 {
        assert(whole =~= s + right);
        assert(whole.last() == right[right.len() - 1]);
        assert(whole.drop_last() =~= left + s + right.drop_last());
        assert forall|i: int| 0 <= i < right.drop_last().len() implies is_space(
            #[trigger] right.drop_last()[i],
        ) by {
            assert(right.drop_last()[i] == right[i]);
        }
        if s.len() == 0 {
            assert(whole[0] == right[0]);
            assert(whole.skip(1) =~= left + s + right.skip(1));
            assert forall|i: int| 0 <= i < right.skip(1).len() implies is_space(
                #[trigger] right.skip(1)[i],
            ) by {
                assert(right.skip(1)[i] == right[i + 1]);
            }
            law_trimming(left, s, right.skip(1));
        } else {
            assert(whole[0] == s[0]);
            law_trimming(left, s, right.drop_last());
        }
    } else {
        assert(whole =~= s);
    }
}

/// White space is what Unicode calls so: of ASCII the blank and the characters from 9 to
/// 13, and no letter, digit or sign.
pub proof fn law_white_space(c: char)
    requires
        (c as int) < 128,
    ensures
        is_space(c) <==> c as int == 32 || 9 <= c as int <= 13,
{
}

/// A text holds each of its parts, wherever it stands, and holds nothing that is not one.
pub proof fn law_parts(left: Seq<char>, part: Seq<char>, right: Seq<char>, s: Seq<char>)
    ensures
        has_part(left + part + right, part),
        has_part(s, part) ==> exists|l: Seq<char>, r: Seq<char>|
            s == #[trigger] (l + part + r),
        s.len() < part.len() ==> !has_part(s, part),
{
    let whole = left + part + right;
    let i = left.len() as int;
    assert(whole.subrange(i, i + part.len()) =~= part);
    if has_part(s, part) {
        let k = choose|k: int|
            0 <= k <= s.len() - part.len() && #[trigger] s.subrange(k, k + part.len()) == part;
        let l = s.take(k);
        let r = s.skip(k + part.len());
        assert(s =~= (l + part + r));
    }
}

/// A byte string holds what stands before its first zero, whatever stands behind it, and
/// all of it where there is none.
pub proof fn law_byte_strings(text: Seq<u8>, behind: Seq<u8>)
    requires
        !text.contains(0u8),
    ensures
        cstring_text(text) == if valid_utf8(text) {
            Some(decode_utf8(text))
        } else {
            None
        },
        cstring_text(text + seq![0u8] + behind) == cstring_text(text),
{
    assert forall|i: int| 0 <= i < text.len() implies #[trigger] text[i] != 0u8 by {
        assert(text.contains(text[i]));
    }
    lemma_position_is(text, 0u8, text.len() as int);
    assert(before_nul(text) =~= text);
    let whole = text + seq![0u8] + behind;
    assert forall|i: int| 0 <= i < text.len() implies #[trigger] whole[i] != 0u8 by {
        assert(whole[i] == text[i]);
    }
    lemma_position_is(whole, 0u8, text.len() as int);
    assert(before_nul(whole) =~= text);
}

} // verus!
