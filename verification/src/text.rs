//! Text primitives: decimal numerals, splitting, trimming and searching, all
//! stated over the sequence of characters that a string holds.

use vstd::prelude::*;

verus! {

/// `String::push` appends one character.
pub assume_specification[ String::push ](s: &mut String, c: char)
    ensures
        final(s)@ == old(s)@.push(c),
;

/// What `str::to_lowercase` makes of a text.
pub uninterp spec fn lowercase(text: Seq<char>) -> Seq<char>;

/// `str::to_lowercase`: the Unicode lowercase mapping of the text, a function of
/// the text alone.
pub assume_specification[ str::to_lowercase ](s: &str) -> (r: String)
    ensures
        r@ == lowercase(s@),
;

/// `std::str::from_utf8`, copied into an owned string: succeeds exactly on valid
/// UTF-8, and then gives the characters that the bytes encode.
#[verifier::external_body]
pub(crate) fn utf8_text(bytes: &[u8]) -> (r: Option<String>)
    ensures
        r is Some <==> vstd::utf8::valid_utf8(bytes@),
        r matches Some(t) ==> t@ == vstd::utf8::decode_utf8(bytes@),
{
    std::str::from_utf8(bytes).ok().map(str::to_string)
}

/// The characters of a text.
pub fn chars_of(s: &str) -> (v: Vec<char>)
    ensures
        v@ == s@,
{
    let mut v: Vec<char> = Vec::new();
    for c in it: s.chars()
        invariant
            v@ == s@.take(it.index() as int),
            it.seq() == s@,
    {
        v.push(c);
        assert(s@.take(it.index() as int + 1) =~= s@.take(it.index() as int).push(c));
    }
    assert(s@.take(s@.len() as int) =~= s@);
    v
}

/// The text made of the characters from `lo` up to `hi`.
pub fn text_between(chars: &Vec<char>, lo: usize, hi: usize) -> (s: String)
    requires
        lo <= hi <= chars@.len(),
    ensures
        s@ == chars@.subrange(lo as int, hi as int),
{
    let mut s = String::new();
    let mut i: usize = lo;
    while i < hi
        invariant
            lo <= i <= hi <= chars@.len(),
            s@ == chars@.subrange(lo as int, i as int),
        decreases hi - i,
    {
        s.push(chars[i]);
        assert(chars@.subrange(lo as int, i as int + 1) =~= chars@.subrange(
            lo as int,
            i as int,
        ).push(chars@[i as int]));
        i += 1;
    }
    s
}

/// Appends a whole text.
pub fn push_text(out: &mut String, s: &str)
    ensures
        final(out)@ == old(out)@ + s@,
{
    let chars = chars_of(s);
    let mut i: usize = 0;
    assert(old(out)@ + s@.take(0) =~= old(out)@);
    while i < chars.len()
        invariant
            i <= chars@.len(),
            chars@ == s@,
            out@ == old(out)@ + s@.take(i as int),
        decreases chars@.len() - i,
    {
        out.push(chars[i]);
        assert(old(out)@ + s@.take(i as int + 1) =~= (old(out)@ + s@.take(i as int)).push(
            s@[i as int],
        ));
        i += 1;
    }
    assert(s@.take(s@.len() as int) =~= s@);
}

/// Whether two texts hold the same characters.
pub fn same_text(a: &str, b: &str) -> (r: bool)
    ensures
        r == (a@ == b@),
{
    let x = chars_of(a);
    let y = chars_of(b);
    if x.len() != y.len() {
        return false;
    }
    let mut i: usize = 0;
    while i < x.len()
        invariant
            i <= x@.len(),
            x@ == a@,
            y@ == b@,
            x@.len() == y@.len(),
            forall|k: int| 0 <= k < i ==> x@[k] == y@[k],
        decreases x@.len() - i,
    {
        if x[i] != y[i] {
            return false;
        }
        i += 1;
    }
    assert(a@ =~= b@);
    true
}

/// Whether a text holds any character.
pub fn has_text(s: &str) -> (r: bool)
    ensures
        r == (s@.len() > 0),
{
    chars_of(s).len() > 0
}

// ---------------------------------------------------------------------------
// Decimal numerals
// ---------------------------------------------------------------------------

/// The digit for a number below ten.
pub open spec fn digit(d: nat) -> char {
    (48 + d) as char
}

pub open spec fn is_digit(c: char) -> bool {
    '0' <= c <= '9'
}

/// The decimal numeral of a number, without leading zeros.
pub open spec fn decimal(n: nat) -> Seq<char>
    decreases n,
{
    if n < 10 {
        seq![digit(n)]
    } else {
        decimal(n / 10).push(digit(n % 10))
    }
}

/// The decimal numeral of an integer, with a minus sign where it is negative.
pub open spec fn signed_decimal(n: int) -> Seq<char> {
    if n < 0 {
        seq!['-'] + decimal((-n) as nat)
    } else {
        decimal(n as nat)
    }
}

/// At least one character, and all of them digits.
pub open spec fn is_numeral(s: Seq<char>) -> bool {
    s.len() > 0 && forall|i: int| 0 <= i < s.len() ==> is_digit(#[trigger] s[i])
}

/// The number that a row of digits stands for.
pub open spec fn numeral_value(s: Seq<char>) -> nat
    decreases s.len(),
{
    if s.len() == 0 {
        0
    } else {
        numeral_value(s.drop_last()) * 10 + (s.last() as nat - 48) as nat
    }
}

/// A text without one leading plus sign.
pub open spec fn without_plus(s: Seq<char>) -> Seq<char> {
    if s.len() > 0 && s[0] == '+' {
        s.skip(1)
    } else {
        s
    }
}

/// How a text reads as an unsigned integer of at most `max`: an optional plus
/// sign, then digits only.
pub open spec fn unsigned_reading(s: Seq<char>, max: nat) -> Option<nat> {
    let digits = without_plus(s);
    if is_numeral(digits) && numeral_value(digits) <= max {
        Some(numeral_value(digits))
    } else {
        None
    }
}

/// How a text reads as a signed integer from `-max - 1` to `max`: an optional
/// plus or minus sign, then digits only.
pub open spec fn signed_reading(s: Seq<char>, max: nat) -> Option<int> {
    if s.len() > 0 && s[0] == '-' {
        if is_numeral(s.skip(1)) && numeral_value(s.skip(1)) <= max + 1 {
            Some(-(numeral_value(s.skip(1)) as int))
        } else {
            None
        }
    } else {
        match unsigned_reading(s, max) {
            Some(n) => Some(n as int),
            None => None,
        }
    }
}

fn push_digit(out: &mut String, d: u64)
    requires
        d < 10,
    ensures
        final(out)@ == old(out)@.push(digit(d as nat)),
{
    let code: u8 = 48 + d as u8;
    out.push(code as char);
}

/// Appends the decimal numeral of `n`.
pub fn push_decimal(out: &mut String, n: u64)
    ensures
        final(out)@ == old(out)@ + decimal(n as nat),
    decreases n,
{
    if n >= 10 {
        push_decimal(out, n / 10);
    }
    push_digit(out, n % 10);
    assert(final(out)@ =~= old(out)@ + decimal(n as nat));
}

/// The decimal numeral of `n`.
pub fn decimal_text(n: u64) -> (s: String)
    ensures
        s@ == decimal(n as nat),
{
    let mut s = String::new();
    push_decimal(&mut s, n);
    assert(s@ =~= decimal(n as nat));
    s
}

/// The decimal numeral of a signed number.
pub fn signed_decimal_text(n: i64) -> (s: String)
    requires
        n > i64::MIN,
    ensures
        s@ == signed_decimal(n as int),
{
    let mut s = String::new();
    if n < 0 {
        s.push('-');
        push_decimal(&mut s, (-n) as u64);
        assert(s@ =~= signed_decimal(n as int));
    } else {
        push_decimal(&mut s, n as u64);
        assert(s@ =~= signed_decimal(n as int));
    }
    s
}

proof fn lemma_numeral_value_grows(s: Seq<char>, i: int)
    requires
        0 <= i <= s.len(),
        forall|k: int| 0 <= k < i ==> is_digit(#[trigger] s[k]),
    ensures
        numeral_value(s.take(i)) <= numeral_value(s),
    decreases s.len() - i,
{
    if i < s.len() {
        let t = s.drop_last();
        assert(t.take(i) =~= s.take(i));
        assert(forall|k: int| 0 <= k < i ==> is_digit(#[trigger] t[k]));
        lemma_numeral_value_grows(t, i);
    } else {
        assert(s.take(i) =~= s);
    }
}

/// Reads the digits from `from` to the end; `None` where one is no digit, where
/// there is none, or where the number exceeds `max`.
fn read_digits(chars: &Vec<char>, from: usize, max: u64) -> (r: Option<u64>)
    requires
        from <= chars@.len(),
        max <= 0x1_0000_0000,
    ensures
        r matches Some(n) ==> is_numeral(chars@.skip(from as int)) && n == numeral_value(
            chars@.skip(from as int),
        ) && n <= max,
        r is None ==> !is_numeral(chars@.skip(from as int)) || numeral_value(
            chars@.skip(from as int),
        ) > max,
{
    let ghost s = chars@.skip(from as int);
    if from == chars.len() {
        return None;
    }
    let mut acc: u64 = 0;
    let mut i: usize = from;
    while i < chars.len()
        invariant
            from <= i <= chars@.len(),
            max <= 0x1_0000_0000,
            acc <= max,
            s == chars@.skip(from as int),
            forall|k: int| 0 <= k < i - from ==> is_digit(#[trigger] s[k]),
            acc == numeral_value(s.take(i - from)),
        decreases chars@.len() - i,
    {
        let c = chars[i];
        assert(s[i - from] == c);
        if c < '0' || c > '9' {
            return None;
        }
        let next: u64 = acc * 10 + (c as u64 - 48);
        let ghost t = s.take(i - from + 1);
        assert(t.drop_last() =~= s.take(i - from));
        assert(next == numeral_value(t));
        if next > max {
            proof {
                assert forall|k: int| 0 <= k < i - from + 1 implies is_digit(#[trigger] s[k]) by {}
                lemma_numeral_value_grows(s, i - from + 1);
            }
            return None;
        }
        acc = next;
        i += 1;
    }
    assert(s.take(s.len() as int) =~= s);
    Some(acc)
}

/// Reads a text as an unsigned integer of at most `max`.
pub fn parse_unsigned(s: &str, max: u32) -> (r: Option<u32>)
    ensures
        r matches Some(n) ==> unsigned_reading(s@, max as nat) == Some(n as nat),
        r is None ==> unsigned_reading(s@, max as nat) is None,
{
    let chars = chars_of(s);
    let from: usize = if chars.len() > 0 && chars[0] == '+' {
        1
    } else {
        0
    };
    assert(from == 0 ==> chars@.skip(0) =~= s@);
    match read_digits(&chars, from, max as u64) {
        Some(n) => Some(n as u32),
        None => None,
    }
}

/// Reads a text as a signed integer from `-max - 1` to `max`.
pub fn parse_signed(s: &str, max: i32) -> (r: Option<i32>)
    requires
        max >= 0,
    ensures
        r matches Some(n) ==> signed_reading(s@, max as nat) == Some(n as int),
        r is None ==> signed_reading(s@, max as nat) is None,
{
    let chars = chars_of(s);
    if chars.len() > 0 && chars[0] == '-' {
        match read_digits(&chars, 1, max as u64 + 1) {
            Some(n) => Some((-(n as i64)) as i32),
            None => None,
        }
    } else {
        match parse_unsigned(s, max as u32) {
            Some(n) => Some(n as i32),
            None => None,
        }
    }
}

/// A decimal numeral is a row of digits, without a needless leading zero, and
/// stands for its number.
pub proof fn lemma_decimal(n: nat)
    ensures
        is_numeral(decimal(n)),
        numeral_value(decimal(n)) == n,
        decimal(n).len() == 1 || decimal(n)[0] != '0',
        n == 0 || decimal(n)[0] != '0',
    decreases n,
{
    if n < 10 {
        let s = decimal(n);
        assert(s.drop_last() =~= Seq::<char>::empty());
        assert(numeral_value(s.drop_last()) == 0);
        assert(s.last() == digit(n));
    } else {
        lemma_decimal(n / 10);
        let s = decimal(n);
        assert(s.drop_last() =~= decimal(n / 10));
        assert(s.last() == digit(n % 10));
    }
}

/// Reading back the decimal numeral of an unsigned integer gives the integer.
pub proof fn law_unsigned_read_back(n: nat, max: nat)
    requires
        n <= max,
    ensures
        unsigned_reading(decimal(n), max) == Some(n),
{
    lemma_decimal(n);
}

/// Reading back the decimal numeral of a signed integer gives the integer.
pub proof fn law_signed_read_back(n: int, max: nat)
    requires
        -(max as int) - 1 <= n <= max,
    ensures
        signed_reading(signed_decimal(n), max) == Some(n),
{
    if n < 0 {
        lemma_decimal((-n) as nat);
        assert(signed_decimal(n).skip(1) =~= decimal((-n) as nat));
    } else {
        lemma_decimal(n as nat);
    }
}

/// A row of digits without a needless leading zero is the decimal numeral of its
/// number.
pub proof fn lemma_canonical_numeral(s: Seq<char>)
    requires
        is_numeral(s),
        s.len() == 1 || s[0] != '0',
    ensures
        s == decimal(numeral_value(s)),
        s.len() > 1 ==> numeral_value(s) >= 10,
        s.len() == 1 ==> numeral_value(s) < 10,
    decreases s.len(),
{
    let t = s.drop_last();
    let d = (s.last() as nat - 48) as nat;
    assert(is_digit(s[s.len() - 1]));
    if s.len() == 1 {
        assert(t =~= Seq::<char>::empty());
        assert(numeral_value(t) == 0);
        assert(s =~= seq![digit(d)]);
    } else {
        assert(forall|i: int| 0 <= i < t.len() ==> t[i] == s[i]);
        lemma_canonical_numeral(t);
        if t.len() == 1 {
            assert(numeral_value(t.drop_last()) == 0) by {
                assert(t.drop_last() =~= Seq::<char>::empty());
            }
            assert(is_digit(s[0]));
            assert(numeral_value(t) > 0);
        }
        assert(numeral_value(s) / 10 == numeral_value(t));
        assert(numeral_value(s) % 10 == d);
        assert(s =~= t.push(digit(d)));
    }
}

// ---------------------------------------------------------------------------
// Splitting, trimming, searching
// ---------------------------------------------------------------------------

/// The index of the first `c`, or the length where there is none.
pub open spec fn position_of<T>(s: Seq<T>, c: T) -> int
    decreases s.len(),
{
    if s.len() == 0 || s[0] == c {
        0
    } else {
        1 + position_of(s.skip(1), c)
    }
}

/// What stands before and behind the first `c`.
pub open spec fn split_at_first(s: Seq<char>, c: char) -> Option<(Seq<char>, Seq<char>)> {
    if position_of(s, c) < s.len() {
        Some((s.take(position_of(s, c)), s.skip(position_of(s, c) + 1)))
    } else {
        None
    }
}

/// `position_of` is the least index that holds `c`.
pub proof fn lemma_position_of<T>(s: Seq<T>, c: T)
    ensures
        0 <= position_of(s, c) <= s.len(),
        position_of(s, c) < s.len() ==> s[position_of(s, c)] == c,
        forall|i: int| 0 <= i < position_of(s, c) ==> #[trigger] s[i] != c,
    decreases s.len(),
{
    if s.len() > 0 && s[0] != c {
        let t = s.skip(1);
        lemma_position_of(t, c);
        assert forall|i: int| 0 <= i < position_of(s, c) implies #[trigger] s[i] != c by {
            if i > 0 {
                assert(t[i - 1] == s[i]);
            }
        }
        if position_of(t, c) < t.len() {
            assert(s[position_of(s, c)] == t[position_of(t, c)]);
        }
    }
}

/// An index that holds `c`, with none before it, is `position_of`.
pub proof fn lemma_position_is<T>(s: Seq<T>, c: T, p: int)
    requires
        0 <= p <= s.len(),
        p < s.len() ==> s[p] == c,
        forall|i: int| 0 <= i < p ==> #[trigger] s[i] != c,
    ensures
        position_of(s, c) == p,
{
    lemma_position_of(s, c);
    let q = position_of(s, c);
    if q < p {
        assert(s[q] != c);
    }
    if p < q {
        assert(s[p] != c);
    }
}

/// Splits a text at the first `c`.
pub fn split_once(s: &str, c: char) -> (r: Option<(String, String)>)
    ensures
        match r {
            Some((a, b)) => split_at_first(s@, c) == Some((a@, b@)),
            None => split_at_first(s@, c) is None,
        },
{
    let chars = chars_of(s);
    let mut i: usize = 0;
    while i < chars.len() && chars[i] != c
        invariant
            i <= chars@.len(),
            chars@ == s@,
            forall|k: int| 0 <= k < i ==> #[trigger] s@[k] != c,
        decreases chars@.len() - i,
    {
        i += 1;
    }
    proof {
        lemma_position_is(s@, c, i as int);
    }
    if i < chars.len() {
        let a = text_between(&chars, 0, i);
        let b = text_between(&chars, i + 1, chars.len());
        assert(a@ =~= s@.take(i as int));
        assert(b@ =~= s@.skip(i as int + 1));
        Some((a, b))
    } else {
        None
    }
}

/// Unicode's `White_Space` property.
pub open spec fn is_space(c: char) -> bool {
    ||| '\u{9}' <= c <= '\u{d}'
    ||| c == ' '
    ||| c == '\u{85}'
    ||| c == '\u{a0}'
    ||| c == '\u{1680}'
    ||| '\u{2000}' <= c <= '\u{200a}'
    ||| c == '\u{2028}'
    ||| c == '\u{2029}'
    ||| c == '\u{202f}'
    ||| c == '\u{205f}'
    ||| c == '\u{3000}'
}

fn space(c: char) -> (r: bool)
    ensures
        r == is_space(c),
{
    ('\u{9}' <= c && c <= '\u{d}') || c == ' ' || c == '\u{85}' || c == '\u{a0}' || c == '\u{1680}'
        || ('\u{2000}' <= c && c <= '\u{200a}') || c == '\u{2028}' || c == '\u{2029}' || c
        == '\u{202f}' || c == '\u{205f}' || c == '\u{3000}'
}

/// A text without the white space at its ends.
pub open spec fn trimmed(s: Seq<char>) -> Seq<char>
    decreases s.len(),
{
    if s.len() == 0 {
        s
    } else if is_space(s[0]) {
        trimmed(s.skip(1))
    } else if is_space(s.last()) {
        trimmed(s.drop_last())
    } else {
        s
    }
}

/// Removes the white space at both ends.
pub fn trim(s: &str) -> (r: String)
    ensures
        r@ == trimmed(s@),
{
    let chars = chars_of(s);
    let mut lo: usize = 0;
    let mut hi: usize = chars.len();
    assert(s@.subrange(0, s@.len() as int) =~= s@);
    while lo < hi && space(chars[lo])
        invariant
            lo <= hi == chars@.len(),
            chars@ == s@,
            trimmed(s@.subrange(lo as int, hi as int)) == trimmed(s@),
        decreases hi - lo,
    {
        assert(s@.subrange(lo as int, hi as int).skip(1) =~= s@.subrange(lo as int + 1, hi as int));
        lo += 1;
    }
    while lo < hi && space(chars[hi - 1])
        invariant
            lo <= hi <= chars@.len(),
            chars@ == s@,
            lo < hi ==> !is_space(s@[lo as int]),
            trimmed(s@.subrange(lo as int, hi as int)) == trimmed(s@),
        decreases hi,
    {
        let ghost t = s@.subrange(lo as int, hi as int);
        assert(t[0] == s@[lo as int] && t.last() == s@[hi - 1]);
        assert(t.drop_last() =~= s@.subrange(lo as int, hi - 1));
        hi -= 1;
    }
    text_between(&chars, lo, hi)
}

/// Trimming leaves a text alone that has no white space at its ends.
pub proof fn lemma_trimmed_same(s: Seq<char>)
    requires
        s.len() > 0 ==> !is_space(s[0]) && !is_space(s.last()),
    ensures
        trimmed(s) == s,
{
}

/// `part` stands somewhere in `s`, without a gap.
pub open spec fn has_part(s: Seq<char>, part: Seq<char>) -> bool {
    exists|i: int|
        0 <= i <= s.len() - part.len() && #[trigger] s.subrange(i, i + part.len()) == part
}

fn part_at(s: &Vec<char>, part: &Vec<char>, at: usize) -> (r: bool)
    requires
        at + part@.len() <= s@.len(),
    ensures
        r == (s@.subrange(at as int, at + part@.len()) == part@),
{
    let mut k: usize = 0;
    let size: usize = s.len();
    let ghost w = s@.subrange(at as int, at + part@.len());
    while k < part.len()
        invariant
            k <= part@.len(),
            size == s@.len(),
            at + part@.len() <= size,
            w == s@.subrange(at as int, at + part@.len()),
            forall|j: int| 0 <= j < k ==> w[j] == part@[j],
        decreases part@.len() - k,
    {
        if s[at + k] != part[k] {
            assert(w[k as int] != part@[k as int]);
            return false;
        }
        k += 1;
    }
    assert(w =~= part@);
    true
}

/// Whether `part` stands somewhere in `s`.
pub fn contains(s: &str, part: &str) -> (r: bool)
    ensures
        r == has_part(s@, part@),
{
    let text = chars_of(s);
    let needle = chars_of(part);
    if needle.len() > text.len() {
        return false;
    }
    let last: usize = text.len() - needle.len();
    let mut i: usize = 0;
    while i <= last
        invariant
            text@ == s@,
            needle@ == part@,
            last + needle@.len() == text@.len(),
            i <= last + 1,
            forall|k: int| 0 <= k < i ==> #[trigger] s@.subrange(k, k + part@.len()) != part@,
        decreases last + 1 - i,
    {
        if part_at(&text, &needle, i) {
            return true;
        }
        if i == last {
            assert(forall|k: int|
                0 <= k <= last ==> #[trigger] s@.subrange(k, k + part@.len()) != part@);
            return false;
        }
        i += 1;
    }
    false
}

// ---------------------------------------------------------------------------
// NUL-terminated byte strings
// ---------------------------------------------------------------------------

/// The bytes before the first NUL, or all of them.
pub open spec fn before_nul(bytes: Seq<u8>) -> Seq<u8> {
    bytes.take(position_of(bytes, 0u8))
}

/// The text that a NUL-terminated byte string holds; `None` where it is not UTF-8.
pub open spec fn cstring_text(bytes: Seq<u8>) -> Option<Seq<char>> {
    if vstd::utf8::valid_utf8(before_nul(bytes)) {
        Some(vstd::utf8::decode_utf8(before_nul(bytes)))
    } else {
        None
    }
}

/// Reads a byte string up to its first NUL as UTF-8 text.
pub fn string_from_cstring(cstring: &[u8]) -> (r: Option<String>)
    ensures
        match r {
            Some(t) => cstring_text(cstring@) == Some(t@),
            None => cstring_text(cstring@) is None,
        },
{
    let mut cut: Vec<u8> = Vec::new();
    let mut i: usize = 0;
    while i < cstring.len() && cstring[i] != 0
        invariant
            i <= cstring@.len(),
            cut@ == cstring@.take(i as int),
            forall|k: int| 0 <= k < i ==> #[trigger] cstring@[k] != 0u8,
        decreases cstring@.len() - i,
    {
        cut.push(cstring[i]);
        assert(cstring@.take(i as int + 1) =~= cstring@.take(i as int).push(cstring@[i as int]));
        i += 1;
    }
    proof {
        lemma_position_is(cstring@, 0u8, i as int);
    }
    utf8_text(cut.as_slice())
}

} // verus!
