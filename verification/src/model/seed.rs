//! Human-friendly encoding of the 64-bit deal seed.
//!
//! A `u64` seed is encoded as a pronounceable proquint string: four five-letter
//! "quints" joined by dashes, e.g. `lusab-babad-gutih-tugad`. Each quint packs
//! 16 bits as consonant-vowel-consonant-vowel-consonant, so the whole `u64`
//! round-trips exactly. Decoding also accepts a plain decimal `u64`.
use vstd::prelude::*;

use crate::model::text::push_char;
use vstd::string::StrSliceExecFns;

verus! {

/// The 16 consonants, each encoding 4 bits.
pub open spec fn consonants() -> Seq<char> {
    seq!['b', 'd', 'f', 'g', 'h', 'j', 'k', 'l', 'm', 'n', 'p', 'r', 's', 't', 'v', 'z']
}

/// The 4 vowels, each encoding 2 bits.
pub open spec fn vowels() -> Seq<char> {
    seq!['a', 'i', 'o', 'u']
}

/// The five letters (consonant, vowel, consonant, vowel, consonant) of a 16-bit
/// value, most significant field first.
pub open spec fn quint_chars(n: u16) -> Seq<char> {
    seq![
        consonants()[((n >> 12u16) & 0xFu16) as int],
        vowels()[((n >> 10u16) & 0x3u16) as int],
        consonants()[((n >> 6u16) & 0xFu16) as int],
        vowels()[((n >> 4u16) & 0x3u16) as int],
        consonants()[(n & 0xFu16) as int],
    ]
}

/// The `i`-th 16-bit group of a seed, most significant first.
pub open spec fn seed_group(seed: u64, i: int) -> u16 {
    (seed >> ((48 - 16 * i) as u64)) as u16
}

/// The proquint text of a seed: its four groups as quints, joined by dashes.
pub open spec fn encode_spec(seed: u64) -> Seq<char> {
    quint_chars(seed_group(seed, 0)) + seq!['-'] + quint_chars(seed_group(seed, 1)) + seq!['-']
        + quint_chars(seed_group(seed, 2)) + seq!['-'] + quint_chars(seed_group(seed, 3))
}

fn consonant(i: u16) -> (c: char)
    requires
        i < 16,
    ensures
        c == consonants()[i as int],
{
    match i {
        0 => 'b',
        1 => 'd',
        2 => 'f',
        3 => 'g',
        4 => 'h',
        5 => 'j',
        6 => 'k',
        7 => 'l',
        8 => 'm',
        9 => 'n',
        10 => 'p',
        11 => 'r',
        12 => 's',
        13 => 't',
        14 => 'v',
        _ => 'z',
    }
}

fn vowel(i: u16) -> (c: char)
    requires
        i < 4,
    ensures
        c == vowels()[i as int],
{
    match i {
        0 => 'a',
        1 => 'i',
        2 => 'o',
        _ => 'u',
    }
}

/// Encode a 16-bit value as one five-letter quint (C V C V C).
fn encode_quint(n: u16, out: &mut String)
    ensures
        final(out)@ == old(out)@ + quint_chars(n),
{
    let a = (n >> 12u16) & 0xF;
    let b = (n >> 10u16) & 0x3;
    let c = (n >> 6u16) & 0xF;
    let d = (n >> 4u16) & 0x3;
    let e = n & 0xF;
    assert(a < 16 && b < 4 && c < 16 && d < 4 && e < 16) by (bit_vector)
        requires
            a == (n >> 12u16) & 0xF,
            b == (n >> 10u16) & 0x3,
            c == (n >> 6u16) & 0xF,
            d == (n >> 4u16) & 0x3,
            e == n & 0xF,
    ;
    push_char(out, consonant(a));
    push_char(out, vowel(b));
    push_char(out, consonant(c));
    push_char(out, vowel(d));
    push_char(out, consonant(e));
    assert(final(out)@ =~= old(out)@ + quint_chars(n));
}

/// Encode a `u64` seed as a pronounceable proquint string (four dashed quints).
pub fn encode(seed: u64) -> (s: String)
    ensures
        s@ == encode_spec(seed),
{
    let mut s = String::new();
    let mut i: u64 = 0;
    while i < 4
        invariant
            i <= 4,
            i == 0 ==> s@ == Seq::<char>::empty(),
            i == 1 ==> s@ == quint_chars(seed_group(seed, 0)),
            i == 2 ==> s@ == quint_chars(seed_group(seed, 0)) + seq!['-'] + quint_chars(
                seed_group(seed, 1),
            ),
            i == 3 ==> s@ == quint_chars(seed_group(seed, 0)) + seq!['-'] + quint_chars(
                seed_group(seed, 1),
            ) + seq!['-'] + quint_chars(seed_group(seed, 2)),
            i == 4 ==> s@ == encode_spec(seed),
        decreases 4 - i,
    {
        if i > 0 {
            push_char(&mut s, '-');
        }
        let quint = (seed >> (48 - i * 16)) as u16;
        assert(quint == seed_group(seed, i as int));
        encode_quint(quint, &mut s);
        i = i + 1;
    }
    s
}

/// The 4-bit value of a consonant, if it is one.
pub open spec fn consonant_value(c: char) -> Option<u16> {
    if consonants().contains(c) {
        Some(consonants().index_of(c) as u16)
    } else {
        None
    }
}

/// The 2-bit value of a vowel, if it is one.
pub open spec fn vowel_value(c: char) -> Option<u16> {
    if vowels().contains(c) {
        Some(vowels().index_of(c) as u16)
    } else {
        None
    }
}

fn consonant_bits(c: char) -> (r: Option<u16>)
    ensures
        r == consonant_value(c),
{
    let mut i: u16 = 0;
    while i < 16
        invariant
            i <= 16,
            forall|j: int| 0 <= j < i ==> consonants()[j] != c,
        decreases 16 - i,
    {
        if consonant(i) == c {
            proof {
                assert(consonants().contains(c));
                consonants().index_of_first(c);
                assert(consonants()[i as int] == c);
                let k = consonants().index_of(c);
                assert(consonants()[k] == c);
                assert(k == i) by {
                    if k < i {
                        assert(consonants()[k] != c);
                    } else if k > i {
                        assert(consonants().no_duplicates());
                    }
                };
            }
            return Some(i);
        }
        i = i + 1;
    }
    None
}

fn vowel_bits(c: char) -> (r: Option<u16>)
    ensures
        r == vowel_value(c),
{
    let mut i: u16 = 0;
    while i < 4
        invariant
            i <= 4,
            forall|j: int| 0 <= j < i ==> vowels()[j] != c,
        decreases 4 - i,
    {
        if vowel(i) == c {
            proof {
                assert(vowels().contains(c));
                let k = vowels().index_of(c);
                assert(vowels()[k] == c);
                assert(k == i) by {
                    if k < i {
                        assert(vowels()[k] != c);
                    } else if k > i {
                        assert(vowels().no_duplicates());
                    }
                };
            }
            return Some(i);
        }
        i = i + 1;
    }
    None
}

/// ASCII whitespace as `u8::is_ascii_whitespace` defines it: space, tab,
/// line feed, form feed, carriage return.
pub open spec fn is_ascii_ws(c: char) -> bool {
    c == ' ' || c == '\t' || c == '\n' || c == '\x0C' || c == '\r'
}

/// ASCII lowercase: `A`..`Z` become `a`..`z`; every other character is kept.
pub open spec fn ascii_lower(c: char) -> char {
    if 'A' <= c <= 'Z' {
        ((c as u32) + 32) as char
    } else {
        c
    }
}

/// The input with ASCII whitespace and dashes dropped and letters lowercased.
pub open spec fn compact_spec(s: Seq<char>) -> Seq<char>
    decreases s.len(),
{
    if s.len() == 0 {
        Seq::empty()
    } else {
        let rest = compact_spec(s.drop_last());
        let c = s.last();
        if is_ascii_ws(c) || c == '-' {
            rest
        } else {
            rest.push(ascii_lower(c))
        }
    }
}

/// The 16-bit value of the quint at positions `5k..5k+5` of `cs`, if its
/// letters are consonant, vowel, consonant, vowel, consonant.
pub open spec fn quint_value(cs: Seq<char>, k: int) -> Option<nat> {
    let c0 = consonant_value(cs[5 * k]);
    let v1 = vowel_value(cs[5 * k + 1]);
    let c2 = consonant_value(cs[5 * k + 2]);
    let v3 = vowel_value(cs[5 * k + 3]);
    let c4 = consonant_value(cs[5 * k + 4]);
    if c0 is Some && v1 is Some && c2 is Some && v3 is Some && c4 is Some {
        Some(
            (c0->0 as nat) * 4096 + (v1->0 as nat) * 1024 + (c2->0 as nat) * 64 + (v3->0 as nat)
                * 16 + (c4->0 as nat),
        )
    } else {
        None
    }
}

/// The seed spelled by 20 compacted proquint letters, if they spell one.
pub open spec fn proquint_value(cs: Seq<char>) -> Option<u64> {
    if cs.len() == 20 && quint_value(cs, 0) is Some && quint_value(cs, 1) is Some && quint_value(
        cs,
        2,
    ) is Some && quint_value(cs, 3) is Some {
        Some(
            (((quint_value(cs, 0)->0 * 65536 + quint_value(cs, 1)->0) * 65536 + quint_value(
                cs,
                2,
            )->0) * 65536 + quint_value(cs, 3)->0) as u64,
        )
    } else {
        None
    }
}

/// Whether `c` has the Unicode `White_Space` property (what `char::is_whitespace`
/// tests).
pub open spec fn is_white_space(c: char) -> bool {
    ||| '\u{9}' <= c <= '\u{D}'
    ||| c == ' '
    ||| c == '\u{85}'
    ||| c == '\u{A0}'
    ||| c == '\u{1680}'
    ||| '\u{2000}' <= c <= '\u{200A}'
    ||| c == '\u{2028}'
    ||| c == '\u{2029}'
    ||| c == '\u{202F}'
    ||| c == '\u{205F}'
    ||| c == '\u{3000}'
}

/// The number of leading white-space characters.
pub open spec fn leading_white_space(s: Seq<char>) -> nat
    decreases s.len(),
{
    if s.len() > 0 && is_white_space(s[0]) {
        1 + leading_white_space(s.drop_first())
    } else {
        0
    }
}

/// The number of trailing white-space characters.
pub open spec fn trailing_white_space(s: Seq<char>) -> nat
    decreases s.len(),
{
    if s.len() > 0 && is_white_space(s.last()) {
        1 + trailing_white_space(s.drop_last())
    } else {
        0
    }
}

/// `s` without leading and trailing white space.
pub open spec fn trim_spec(s: Seq<char>) -> Seq<char> {
    let rest = s.skip(leading_white_space(s) as int);
    rest.take(rest.len() - trailing_white_space(rest))
}

/// The value of a digit character.
pub open spec fn digit_value(c: char) -> nat {
    ((c as u32) - ('0' as u32)) as nat
}

/// Whether every character is an ASCII digit.
pub open spec fn all_digits(s: Seq<char>) -> bool {
    forall|i: int| 0 <= i < s.len() ==> '0' <= #[trigger] s[i] <= '9'
}

/// The decimal value of a digit string.
pub open spec fn decimal_value(s: Seq<char>) -> nat
    decreases s.len(),
{
    if s.len() == 0 {
        0
    } else {
        decimal_value(s.drop_last()) * 10 + digit_value(s.last())
    }
}

/// How `u64`'s `FromStr` reads a string: an optional `+`, then one or more
/// ASCII digits whose decimal value fits in 64 bits; anything else is rejected.
pub open spec fn parse_u64_spec(s: Seq<char>) -> Option<u64> {
    let digits = if s.len() > 0 && s[0] == '+' {
        s.drop_first()
    } else {
        s
    };
    if digits.len() > 0 && all_digits(digits) && decimal_value(digits) <= u64::MAX {
        Some(decimal_value(digits) as u64)
    } else {
        None
    }
}

/// How a seed string decodes: the proquint it spells once compacted, else a
/// plain decimal `u64` once trimmed, else nothing.
pub open spec fn decode_spec(s: Seq<char>) -> Option<u64> {
    match proquint_value(compact_spec(s)) {
        Some(v) => Some(v),
        None => parse_u64_spec(trim_spec(s)),
    }
}

/// Whether `c` has the Unicode `White_Space` property.
fn white_space(c: char) -> (b: bool)
    ensures
        b == is_white_space(c),
{
    ('\u{9}' <= c && c <= '\u{D}') || c == ' ' || c == '\u{85}' || c == '\u{A0}' || c == '\u{1680}'
        || ('\u{2000}' <= c && c <= '\u{200A}') || c == '\u{2028}' || c == '\u{2029}' || c
        == '\u{202F}' || c == '\u{205F}' || c == '\u{3000}'
}

/// A text whose first `k` characters are white space, followed by none or by
/// one that is not, has `k` leading white-space characters.
proof fn lemma_leading_white_space(s: Seq<char>, k: int)
    requires
        0 <= k <= s.len(),
        forall|i: int| 0 <= i < k ==> is_white_space(#[trigger] s[i]),
        k < s.len() ==> !is_white_space(s[k]),
    ensures
        leading_white_space(s) == k,
    decreases k,
{
    if k > 0 {
        assert forall|i: int| 0 <= i < k - 1 implies is_white_space(#[trigger] s.drop_first()[i]) by {
            assert(s.drop_first()[i] == s[i + 1]);
        }
        if k < s.len() {
            assert(s.drop_first()[k - 1] == s[k]);
        }
        lemma_leading_white_space(s.drop_first(), k - 1);
    }
}

/// A text whose last `k` characters are white space, preceded by none or by
/// one that is not, has `k` trailing white-space characters.
proof fn lemma_trailing_white_space(s: Seq<char>, k: int)
    requires
        0 <= k <= s.len(),
        forall|i: int| s.len() - k <= i < s.len() ==> is_white_space(#[trigger] s[i]),
        k < s.len() ==> !is_white_space(s[s.len() - k - 1]),
    ensures
        trailing_white_space(s) == k,
    decreases k,
{
    if k > 0 {
        let t = s.drop_last();
        assert forall|i: int| t.len() - (k - 1) <= i < t.len() implies is_white_space(#[trigger] t[i]) by {
            assert(t[i] == s[i]);
        }
        if k < s.len() {
            assert(t[t.len() - (k - 1) - 1] == s[s.len() - k - 1]);
        }
        lemma_trailing_white_space(t, k - 1);
    }
}

/// Strips leading and trailing white space (the characters with the Unicode
/// `White_Space` property, as `str::trim` does).
pub(crate) fn trim_white_space(s: &str) -> (r: &str)
    ensures
        r@ == trim_spec(s@),
{
    let n = s.unicode_len();
    let mut lo: usize = 0;
    while lo < n && white_space(s.get_char(lo))
        invariant
            n == s@.len(),
            lo <= n,
            forall|i: int| 0 <= i < lo ==> is_white_space(#[trigger] s@[i]),
        decreases n - lo,
    {
        lo = lo + 1;
    }
    proof {
        lemma_leading_white_space(s@, lo as int);
    }
    let mut hi: usize = n;
    while hi > lo && white_space(s.get_char(hi - 1))
        invariant
            n == s@.len(),
            lo <= hi <= n,
            forall|i: int| hi <= i < n ==> is_white_space(#[trigger] s@[i]),
        decreases hi - lo,
    {
        hi = hi - 1;
    }
    let ghost rest = s@.skip(lo as int);
    proof {
        assert forall|i: int| rest.len() - (n - hi) <= i < rest.len() implies is_white_space(#[trigger] rest[i]) by {
            assert(rest[i] == s@[i + lo]);
        }
        if n - hi < rest.len() {
            assert(rest[rest.len() - (n - hi) - 1] == s@[hi - 1]);
        }
        lemma_trailing_white_space(rest, (n - hi) as int);
        assert(s@.subrange(lo as int, hi as int) =~= rest.take(rest.len() - (n - hi)));
    }
    s.substring_char(lo, hi)
}

/// ASCII-lowercase one character.
fn to_ascii_lower(c: char) -> (r: char)
    ensures
        r == ascii_lower(c),
{
    if 'A' <= c && c <= 'Z' {
        ((c as u8) + 32) as char
    } else {
        c
    }
}

/// Compact a seed string: drop ASCII whitespace and dashes, lowercase letters.
fn compact(input: &str) -> (r: Vec<char>)
    ensures
        r@ == compact_spec(input@),
{
    let n = input.unicode_len();
    let mut out: Vec<char> = Vec::new();
    let mut i: usize = 0;
    while i < n
        invariant
            n == input@.len(),
            i <= n,
            out@ == compact_spec(input@.take(i as int)),
        decreases n - i,
    {
        let c = input.get_char(i);
        let ghost prefix = input@.take(i as int + 1);
        assert(prefix.drop_last() =~= input@.take(i as int));
        assert(prefix.last() == c);
        if !(c == ' ' || c == '\t' || c == '\n' || c == '\x0C' || c == '\r' || c == '-') {
            out.push(to_ascii_lower(c));
        }
        i = i + 1;
    }
    assert(input@.take(n as int) =~= input@);
    out
}

/// Decode the value of the quint at positions `5k..5k+5`.
fn decode_quint(cs: &Vec<char>, k: usize) -> (r: Option<u64>)
    requires
        cs@.len() == 20,
        k < 4,
    ensures
        r matches Some(v) ==> quint_value(cs@, k as int) == Some(v as nat) && v < 65536,
        r is None ==> quint_value(cs@, k as int) is None,
{
    let c0 = consonant_bits(cs[5 * k]);
    let v1 = vowel_bits(cs[5 * k + 1]);
    let c2 = consonant_bits(cs[5 * k + 2]);
    let v3 = vowel_bits(cs[5 * k + 3]);
    let c4 = consonant_bits(cs[5 * k + 4]);
    match (c0, v1, c2, v3, c4) {
        (Some(a), Some(b), Some(c), Some(d), Some(e)) => {
            proof {
                lemma_letter_values_bounded(cs@[5 * k as int]);
                lemma_letter_values_bounded(cs@[5 * k + 2]);
                lemma_letter_values_bounded(cs@[5 * k + 4]);
                lemma_letter_values_bounded(cs@[5 * k + 1]);
                lemma_letter_values_bounded(cs@[5 * k + 3]);
            }
            let n: u16 = (a << 12u16) | (b << 10u16) | (c << 6u16) | (d << 4u16) | e;
            assert(n == a * 4096 + b * 1024 + c * 64 + d * 16 + e) by (bit_vector)
                requires
                    a < 16,
                    b < 4,
                    c < 16,
                    d < 4,
                    e < 16,
                    n == (a << 12u16) | (b << 10u16) | (c << 6u16) | (d << 4u16) | e,
            ;
            Some(n as u64)
        },
        _ => None,
    }
}

/// Letter values fit their fields: consonants below 16, vowels below 4.
proof fn lemma_letter_values_bounded(c: char)
    ensures
        consonant_value(c) matches Some(v) ==> v < 16,
        vowel_value(c) matches Some(v) ==> v < 4,
{
    if consonants().contains(c) {
        consonants().index_of_first(c);
    }
    if vowels().contains(c) {
        vowels().index_of_first(c);
    }
}

/// Decode 20 compacted proquint letters to a `u64`.
fn decode_proquint(compact: &Vec<char>) -> (r: Option<u64>)
    ensures
        r == proquint_value(compact@),
{
    if compact.len() != 20 {
        return None;
    }
    let q0 = match decode_quint(compact, 0) {
        Some(v) => v,
        None => {
            return None;
        },
    };
    let q1 = match decode_quint(compact, 1) {
        Some(v) => v,
        None => {
            return None;
        },
    };
    let q2 = match decode_quint(compact, 2) {
        Some(v) => v,
        None => {
            return None;
        },
    };
    let q3 = match decode_quint(compact, 3) {
        Some(v) => v,
        None => {
            return None;
        },
    };
    let seed: u64 = (q0 << 48u64) | (q1 << 32u64) | (q2 << 16u64) | q3;
    assert(seed == ((q0 * 65536 + q1) * 65536 + q2) * 65536 + q3) by (bit_vector)
        requires
            q0 < 65536,
            q1 < 65536,
            q2 < 65536,
            q3 < 65536,
            seed == (q0 << 48u64) | (q1 << 32u64) | (q2 << 16u64) | q3,
    ;
    Some(seed)
}

/// Decimal values only grow as digits are appended.
pub(crate) proof fn lemma_decimal_prefix_grows(s: Seq<char>, k: int)
    requires
        0 <= k <= s.len(),
        all_digits(s),
    ensures
        decimal_value(s.take(k)) <= decimal_value(s),
    decreases s.len() - k,
{
    if k < s.len() {
        lemma_decimal_prefix_grows(s, k + 1);
        assert(s.take(k + 1).drop_last() =~= s.take(k));
    } else {
        assert(s.take(k) =~= s);
    }
}

/// Parse a string the way `u64`'s `FromStr` does: an optional `+`, then one or
/// more ASCII digits whose value fits in 64 bits.
pub fn parse_u64(s: &str) -> (r: Option<u64>)
    ensures
        r == parse_u64_spec(s@),
{
    let n = s.unicode_len();
    let mut i: usize = 0;
    if n > 0 && s.get_char(0) == '+' {
        i = 1;
    }
    let ghost digits = if s@.len() > 0 && s@[0] == '+' {
        s@.drop_first()
    } else {
        s@
    };
    assert(digits =~= s@.skip(i as int));
    if i == n {
        return None;
    }
    let start = i;
    let mut value: u64 = 0;
    while i < n
        invariant
            n == s@.len(),
            start <= i <= n,
            start < n,
            digits == s@.skip(start as int),
            digits == (if s@.len() > 0 && s@[0] == '+' {
                s@.drop_first()
            } else {
                s@
            }),
            all_digits(digits.take(i - start)),
            value == decimal_value(digits.take(i - start)),
        decreases n - i,
    {
        let c = s.get_char(i);
        assert(digits.take(i - start + 1).drop_last() =~= digits.take(i - start));
        assert(digits[i - start] == c);
        if !('0' <= c && c <= '9') {
            assert(!all_digits(digits));
            return None;
        }
        let d = (c as u32 - '0' as u32) as u64;
        assert(all_digits(digits.take(i - start + 1)));
        if value > (u64::MAX - d) / 10 {
            proof {
                assert(decimal_value(digits.take(i - start + 1)) > u64::MAX) by (nonlinear_arith)
                    requires
                        decimal_value(digits.take(i - start + 1)) == value * 10 + d,
                        value > (u64::MAX - d) / 10,
                        d <= 9,
                ;
                if all_digits(digits) {
                    lemma_decimal_prefix_grows(digits, i - start + 1);
                }
            }
            return None;
        }
        value = value * 10 + d;
        i = i + 1;
    }
    assert(digits.take(i - start) =~= digits);
    Some(value)
}

/// Decode a seed string to its `u64`.
///
/// Accepts a proquint string (case-insensitive; dashes and whitespace ignored)
/// or a plain decimal `u64`. Returns `None` for anything else, so an invalid
/// seed is rejected rather than silently producing the wrong deal.
pub fn decode(input: &str) -> (r: Option<u64>)
    ensures
        r == decode_spec(input@),
{
    let compacted = compact(input);
    match decode_proquint(&compacted) {
        Some(v) => Some(v),
        None => parse_u64(trim_white_space(input)),
    }
}

/// Compacting distributes over concatenation.
proof fn lemma_compact_add(a: Seq<char>, b: Seq<char>)
    ensures
        compact_spec(a + b) == compact_spec(a) + compact_spec(b),
    decreases b.len(),
{
    if b.len() == 0 {
        assert(a + b =~= a);
        assert(compact_spec(a) + compact_spec(b) =~= compact_spec(a));
    } else {
        lemma_compact_add(a, b.drop_last());
        assert((a + b).drop_last() =~= a + b.drop_last());
        assert((a + b).last() == b.last());
        let rest = compact_spec(a) + compact_spec(b.drop_last());
        if !(is_ascii_ws(b.last()) || b.last() == '-') {
            assert(rest.push(ascii_lower(b.last())) =~= compact_spec(a) + compact_spec(
                b.drop_last(),
            ).push(ascii_lower(b.last())));
        }
    }
}

/// A quint's letters survive compacting unchanged.
proof fn lemma_compact_quint(n: u16)
    ensures
        compact_spec(quint_chars(n)) == quint_chars(n),
{
    let q = quint_chars(n);
    lemma_quint_fields(n);
    assert(q.take(0) =~= Seq::<char>::empty());
    assert forall|k: int| 0 <= k <= 5 implies compact_spec(#[trigger] q.take(k)) == q.take(k) by {
        lemma_compact_prefix(q, k);
    }
    assert(q.take(5) =~= q);
}

/// Each prefix of a quint compacts to itself.
proof fn lemma_compact_prefix(q: Seq<char>, k: int)
    requires
        q.len() == 5,
        0 <= k <= 5,
        forall|i: int| 0 <= i < 5 ==> 'a' <= #[trigger] q[i] <= 'z',
    ensures
        compact_spec(q.take(k)) == q.take(k),
    decreases k,
{
    if k > 0 {
        lemma_compact_prefix(q, k - 1);
        assert(q.take(k).drop_last() =~= q.take(k - 1));
        assert(q.take(k).last() == q[k - 1]);
        assert(q.take(k - 1).push(q[k - 1]) =~= q.take(k));
    } else {
        assert(q.take(0) =~= Seq::<char>::empty());
    }
}

/// The fields of a quint are in range, its letters are lowercase, and they
/// spell back the fields.
proof fn lemma_quint_fields(n: u16)
    ensures
        ((n >> 12u16) & 0xFu16) < 16,
        ((n >> 10u16) & 0x3u16) < 4,
        ((n >> 6u16) & 0xFu16) < 16,
        ((n >> 4u16) & 0x3u16) < 4,
        (n & 0xFu16) < 16,
        forall|i: int| 0 <= i < 5 ==> 'a' <= #[trigger] quint_chars(n)[i] <= 'z',
        ((n >> 12u16) & 0xFu16) * 4096 + ((n >> 10u16) & 0x3u16) * 1024 + ((n >> 6u16) & 0xFu16)
            * 64 + ((n >> 4u16) & 0x3u16) * 16 + (n & 0xFu16) == n,
{
    assert(((n >> 12u16) & 0xFu16) < 16 && ((n >> 10u16) & 0x3u16) < 4 && ((n >> 6u16) & 0xFu16)
        < 16 && ((n >> 4u16) & 0x3u16) < 4 && (n & 0xFu16) < 16) by (bit_vector);
    assert(((n >> 12u16) & 0xFu16) * 4096 + ((n >> 10u16) & 0x3u16) * 1024 + ((n >> 6u16)
        & 0xFu16) * 64 + ((n >> 4u16) & 0x3u16) * 16 + (n & 0xFu16) == n) by (bit_vector);
}

/// The value of the consonant at index `i` is `i`; likewise for vowels.
proof fn lemma_letter_index(i: int)
    ensures
        0 <= i < 16 ==> consonant_value(consonants()[i]) == Some(i as u16),
        0 <= i < 4 ==> vowel_value(vowels()[i]) == Some(i as u16),
{
    if 0 <= i < 16 {
        let c = consonants()[i];
        assert(consonants().contains(c));
        let k = consonants().index_of(c);
        assert(consonants()[k] == c);
        assert(k == i);
    }
    if 0 <= i < 4 {
        let c = vowels()[i];
        assert(vowels().contains(c));
        let k = vowels().index_of(c);
        assert(vowels()[k] == c);
        assert(k == i);
    }
}

/// A quint's letters read back as its value.
proof fn lemma_quint_value(cs: Seq<char>, k: int, n: u16)
    requires
        0 <= k < 4,
        cs.len() == 20,
        cs.subrange(5 * k, 5 * k + 5) == quint_chars(n),
    ensures
        quint_value(cs, k) == Some(n as nat),
{
    lemma_quint_fields(n);
    assert(cs[5 * k] == quint_chars(n)[0]);
    assert(cs[5 * k + 1] == quint_chars(n)[1]);
    assert(cs[5 * k + 2] == quint_chars(n)[2]);
    assert(cs[5 * k + 3] == quint_chars(n)[3]);
    assert(cs[5 * k + 4] == quint_chars(n)[4]);
    lemma_letter_index(((n >> 12u16) & 0xFu16) as int);
    lemma_letter_index(((n >> 10u16) & 0x3u16) as int);
    lemma_letter_index(((n >> 6u16) & 0xFu16) as int);
    lemma_letter_index(((n >> 4u16) & 0x3u16) as int);
    lemma_letter_index((n & 0xFu16) as int);
}

/// Decoding an encoded seed gives the seed back: every `u64` round-trips
/// through its proquint text.
pub proof fn lemma_decode_encode(seed: u64)
    ensures
        decode_spec(encode_spec(seed)) == Some(seed),
        proquint_value(compact_spec(encode_spec(seed))) == Some(seed),
{
    let g0 = seed_group(seed, 0);
    let g1 = seed_group(seed, 1);
    let g2 = seed_group(seed, 2);
    let g3 = seed_group(seed, 3);
    let dash = seq!['-'];
    assert(compact_spec(dash) =~= Seq::<char>::empty()) by {
        assert(dash.drop_last() =~= Seq::<char>::empty());
        assert(compact_spec(Seq::<char>::empty()) =~= Seq::<char>::empty());
        assert(dash.last() == '-');
    }
    lemma_compact_quint(g0);
    lemma_compact_quint(g1);
    lemma_compact_quint(g2);
    lemma_compact_quint(g3);
    let q0 = quint_chars(g0);
    let q1 = quint_chars(g1);
    let q2 = quint_chars(g2);
    let q3 = quint_chars(g3);
    lemma_compact_add(q0, dash);
    lemma_compact_add(q0 + dash, q1);
    lemma_compact_add(q0 + dash + q1, dash);
    lemma_compact_add(q0 + dash + q1 + dash, q2);
    lemma_compact_add(q0 + dash + q1 + dash + q2, dash);
    lemma_compact_add(q0 + dash + q1 + dash + q2 + dash, q3);
    let cs = q0 + q1 + q2 + q3;
    assert(compact_spec(encode_spec(seed)) =~= cs);
    assert(cs.subrange(0, 5) =~= q0);
    assert(cs.subrange(5, 10) =~= q1);
    assert(cs.subrange(10, 15) =~= q2);
    assert(cs.subrange(15, 20) =~= q3);
    lemma_quint_value(cs, 0, g0);
    lemma_quint_value(cs, 1, g1);
    lemma_quint_value(cs, 2, g2);
    lemma_quint_value(cs, 3, g3);
    assert(((g0 as nat * 65536 + g1 as nat) * 65536 + g2 as nat) * 65536 + g3 as nat == seed)
        by (bit_vector)
        requires
            g0 == (seed >> 48u64) as u16,
            g1 == (seed >> 32u64) as u16,
            g2 == (seed >> 16u64) as u16,
            g3 == (seed >> 0u64) as u16,
    ;
}

/// ASCII uppercase: `a`..`z` become `A`..`Z`; every other character is kept.
pub open spec fn ascii_upper(c: char) -> char {
    if 'a' <= c <= 'z' {
        ((c as u32) - 32) as char
    } else {
        c
    }
}

/// Whether compacting drops `c`.
pub open spec fn compact_drops(c: char) -> bool {
    is_ascii_ws(c) || c == '-'
}

/// Whether `d` compacts as `c` does.
pub open spec fn compacts_alike(c: char, d: char) -> bool {
    &&& compact_drops(c) == compact_drops(d)
    &&& !compact_drops(c) ==> ascii_lower(c) == ascii_lower(d)
}

/// Replacing every character by one that compacts alike leaves the compacted
/// text unchanged.
proof fn lemma_compact_map(s: Seq<char>, f: spec_fn(char) -> char)
    requires
        forall|c: char| #[trigger] compacts_alike(c, f(c)),
    ensures
        compact_spec(s.map_values(f)) == compact_spec(s),
    decreases s.len(),
{
    if s.len() > 0 {
        lemma_compact_map(s.drop_last(), f);
        assert(s.map_values(f).drop_last() =~= s.drop_last().map_values(f));
        assert(s.map_values(f).last() == f(s.last()));
        assert(compacts_alike(s.last(), f(s.last())));
    } else {
        assert(s.map_values(f) =~= Seq::<char>::empty());
    }
}

/// Dropping dashes leaves the compacted text unchanged.
proof fn lemma_compact_without_dashes(s: Seq<char>)
    ensures
        compact_spec(s.filter(|c: char| c != '-')) == compact_spec(s),
    decreases s.len(),
{
    reveal_with_fuel(Seq::filter, 2);
    if s.len() > 0 {
        lemma_compact_without_dashes(s.drop_last());
        let t = s.filter(|c: char| c != '-');
        let u = s.drop_last().filter(|c: char| c != '-');
        if s.last() != '-' {
            assert(t == u.push(s.last()));
            assert(t.drop_last() =~= u);
        } else {
            assert(t == u);
        }
    }
}

/// The text `s` in ASCII uppercase.
pub open spec fn upper_case(s: Seq<char>) -> Seq<char> {
    s.map_values(|c: char| ascii_upper(c))
}

/// The text `s` with every dash written as a space.
pub open spec fn dashes_as_spaces(s: Seq<char>) -> Seq<char> {
    s.map_values(|c: char| if c == '-' { ' ' } else { c })
}

/// The text `s` with its dashes left out.
pub open spec fn without_dashes(s: Seq<char>) -> Seq<char> {
    s.filter(|c: char| c != '-')
}

/// A seed's proquint decodes back to it whatever the case of its letters,
/// with its dashes written as spaces, or with no dashes at all.
pub proof fn lemma_decode_forgives_case_and_dashes(seed: u64)
    ensures
        decode_spec(upper_case(encode_spec(seed))) == Some(seed),
        decode_spec(dashes_as_spaces(encode_spec(seed))) == Some(seed),
        decode_spec(without_dashes(encode_spec(seed))) == Some(seed),
{
    lemma_decode_encode(seed);
    let e = encode_spec(seed);
    let up = |c: char| ascii_upper(c);
    let sp = |c: char| if c == '-' { ' ' } else { c };
    assert forall|c: char| #[trigger] compacts_alike(c, up(c)) by {}
    assert forall|c: char| #[trigger] compacts_alike(c, sp(c)) by {}
    lemma_compact_map(e, up);
    lemma_compact_map(e, sp);
    assert(upper_case(e) =~= e.map_values(up));
    assert(dashes_as_spaces(e) =~= e.map_values(sp));
    assert(compact_spec(upper_case(e)) == compact_spec(e));
    assert(compact_spec(dashes_as_spaces(e)) == compact_spec(e));
    lemma_compact_without_dashes(e);
}

} // verus!
