//! The Crockford base32 suffix codec: a 128-bit value and its 26-character
//! lowercase text form.
//!
//! The text is the number written in base 32 over the alphabet
//! `0123456789abcdefghjkmnpqrstvwxyz`, most significant digit first. Two
//! leading pad bits align 128 bits to 26 five-bit digits, so the leading
//! character of a canonical text is always in `'0'..='7'`.

use crate::errors::DecodeError;
use crate::radix::{
    digits_in_range, lemma_codec_pow_values, lemma_digits_in_range, lemma_digits_index,
    lemma_digits_len, lemma_digits_of_val, lemma_first_diff_props, lemma_first_diff_val_order,
    lemma_val_bound, lemma_val_first_digit_bound, lemma_val_of_digits, lemma_val_take_step,
    spec_digits, spec_val,
};
use crate::text::push_char;
use vstd::arithmetic::div_mod::{lemma_div_denominator, lemma_div_pos_is_pos};
use vstd::arithmetic::power::{
    lemma_pow1, lemma_pow_adds, lemma_pow_increases, lemma_pow_positive, pow,
};
use vstd::prelude::*;
use vstd::string::StrSliceExecFns;

verus! {

/// The 5-bit value of a Crockford base32 character, or -1 when the
/// character is outside the alphabet.
pub open spec fn spec_base32_val(c: char) -> int {
    if '0' <= c <= '9' {
        c as int - '0' as int
    } else if 'a' <= c <= 'h' {
        c as int - 'a' as int + 10
    } else if 'j' <= c <= 'k' {
        c as int - 'j' as int + 18
    } else if 'm' <= c <= 'n' {
        c as int - 'm' as int + 20
    } else if 'p' <= c <= 't' {
        c as int - 'p' as int + 22
    } else if 'v' <= c <= 'z' {
        c as int - 'v' as int + 27
    } else {
        -1
    }
}

/// A character of the lowercase Crockford base32 alphabet.
pub open spec fn is_base32_char(c: char) -> bool {
    spec_base32_val(c) != -1
}

/// The lowercase Crockford base32 character of a 5-bit digit.
pub open spec fn spec_base32_char(d: int) -> char {
    if d == 0 { '0' }
    else if d == 1 { '1' }
    else if d == 2 { '2' }
    else if d == 3 { '3' }
    else if d == 4 { '4' }
    else if d == 5 { '5' }
    else if d == 6 { '6' }
    else if d == 7 { '7' }
    else if d == 8 { '8' }
    else if d == 9 { '9' }
    else if d == 10 { 'a' }
    else if d == 11 { 'b' }
    else if d == 12 { 'c' }
    else if d == 13 { 'd' }
    else if d == 14 { 'e' }
    else if d == 15 { 'f' }
    else if d == 16 { 'g' }
    else if d == 17 { 'h' }
    else if d == 18 { 'j' }
    else if d == 19 { 'k' }
    else if d == 20 { 'm' }
    else if d == 21 { 'n' }
    else if d == 22 { 'p' }
    else if d == 23 { 'q' }
    else if d == 24 { 'r' }
    else if d == 25 { 's' }
    else if d == 26 { 't' }
    else if d == 27 { 'v' }
    else if d == 28 { 'w' }
    else if d == 29 { 'x' }
    else if d == 30 { 'y' }
    else { 'z' }
}

/// The digit values of a character sequence, -1 standing for a character
/// outside the alphabet.
pub open spec fn spec_char_vals(s: Seq<char>) -> Seq<int> {
    s.map_values(|c: char| spec_base32_val(c))
}

/// The canonical 26-character text of a 128-bit value.
pub open spec fn spec_encode(u: u128) -> Seq<char> {
    spec_digits(32, u as int, 26).map_values(|d: int| spec_base32_char(d))
}

/// The number written by a base32 text, most significant digit first.
pub open spec fn spec_text_val(s: Seq<char>) -> int {
    spec_val(32, spec_char_vals(s))
}

/// Canonical suffix text: 26 characters of the alphabet whose leading
/// character decodes below 8, so the value fits in 128 bits.
pub open spec fn is_canonical_text(s: Seq<char>) -> bool {
    &&& s.len() == 26
    &&& (forall|i: int| 0 <= i < 26 ==> is_base32_char(#[trigger] s[i]))
    &&& spec_base32_val(s[0]) < 8
}

/// The position of the first character outside the alphabet at or after
/// index `i`, if any.
pub open spec fn spec_first_invalid(s: Seq<char>, i: int) -> Option<int>
    decreases s.len() - i,
{
    if i < 0 || i >= s.len() {
        None
    } else if !is_base32_char(s[i]) {
        Some(i)
    } else {
        spec_first_invalid(s, i + 1)
    }
}

/// What decoding a text yields: the value, or the first error in the order
/// length, character, overflow.
pub open spec fn spec_decode(s: Seq<char>) -> Result<u128, DecodeError> {
    if s.len() != 26 {
        Err(DecodeError::InvalidLength(s.len() as usize))
    } else if spec_first_invalid(s, 0) is Some {
        let i = spec_first_invalid(s, 0)->Some_0;
        Err(DecodeError::InvalidCharacter(s[i], i as usize))
    } else if spec_base32_val(s[0]) >= 8 {
        Err(DecodeError::Overflow)
    } else {
        Ok(spec_text_val(s) as u128)
    }
}

/// An alphabet character carries a digit value below 32.
pub proof fn lemma_base32_val_range(c: char)
    requires
        is_base32_char(c),
    ensures
        0 <= spec_base32_val(c) < 32,
{
}

/// Writing a digit as a character and reading it back is the identity.
pub proof fn lemma_base32_char_val(d: int)
    requires
        0 <= d < 32,
    ensures
        is_base32_char(spec_base32_char(d)),
        spec_base32_val(spec_base32_char(d)) == d,
{
}

/// Reading a character's digit and writing it back is the identity.
pub proof fn lemma_base32_val_char(c: char)
    requires
        is_base32_char(c),
    ensures
        spec_base32_char(spec_base32_val(c)) == c,
{
}

proof fn lemma_first_invalid_props(s: Seq<char>, i: int)
    requires
        0 <= i <= s.len(),
    ensures
        match spec_first_invalid(s, i) {
            None => forall|j: int| i <= j < s.len() ==> is_base32_char(#[trigger] s[j]),
            Some(k) => i <= k < s.len() && !is_base32_char(s[k]) && forall|j: int|
                i <= j < k ==> is_base32_char(#[trigger] s[j]),
        },
    decreases s.len() - i,
{
    if i < s.len() && is_base32_char(s[i]) {
        lemma_first_invalid_props(s, i + 1);
    }
}

/// The alphabet is ordered: a larger digit writes a larger character, so
/// base32 texts sort as their values do.
pub proof fn lemma_base32_char_order(d1: int, d2: int)
    requires
        0 <= d1 < d2 < 32,
    ensures
        spec_base32_char(d1) < spec_base32_char(d2),
{
}

/// Encoding preserves the big-endian order of values: the texts of two
/// 128-bit values compare lexicographically exactly as the values do.
pub proof fn lemma_encode_preserves_order(u1: u128, u2: u128)
    ensures
        crate::text::spec_lex_cmp(spec_encode(u1), spec_encode(u2)) == (if u1 < u2 {
            core::cmp::Ordering::Less
        } else if u1 > u2 {
            core::cmp::Ordering::Greater
        } else {
            core::cmp::Ordering::Equal
        }),
{
    if u1 == u2 {
        crate::text::lemma_lex_cmp_eq(spec_encode(u1), spec_encode(u2));
    } else if u1 < u2 {
        lemma_encode_less(u1, u2);
    } else {
        lemma_encode_less(u2, u1);
        lemma_lex_flip(spec_encode(u2), spec_encode(u1));
    }
}

proof fn lemma_encode_less(u1: u128, u2: u128)
    requires
        u1 < u2,
    ensures
        crate::text::spec_lex_cmp(spec_encode(u1), spec_encode(u2)) == core::cmp::Ordering::Less,
{
    lemma_codec_pow_values();
    let d1 = spec_digits(32, u1 as int, 26);
    let d2 = spec_digits(32, u2 as int, 26);
    lemma_digits_len(32, u1 as int, 26);
    lemma_digits_len(32, u2 as int, 26);
    lemma_digits_in_range(32, u1 as int, 26);
    lemma_digits_in_range(32, u2 as int, 26);
    lemma_val_of_digits(32, u1 as int, 26);
    lemma_val_of_digits(32, u2 as int, 26);
    lemma_first_diff_props(d1, d2, 0);
    let s1 = spec_encode(u1);
    let s2 = spec_encode(u2);
    match crate::radix::spec_first_diff(d1, d2, 0) {
        None => {
            // Equal digits would write equal values.
            assert(d1 =~= d2);
            assert(false);
        },
        Some(j) => {
            assert(d1.take(j) =~= d2.take(j));
            if d1[j] > d2[j] {
                lemma_first_diff_val_order(32, d2, d1, j);
                assert(false);
            }
            lemma_first_diff_val_order(32, d1, d2, j);
            lemma_base32_char_order(d1[j], d2[j]);
            assert(s1.take(j) =~= s2.take(j)) by {
                assert forall|i: int| 0 <= i < j implies s1.take(j)[i] == s2.take(j)[i] by {
                    assert(d1[i] == d2[i]);
                    assert(s1[i] == spec_base32_char(d1[i]));
                    assert(s2[i] == spec_base32_char(d2[i]));
                }
            }
            assert(s1[j] == spec_base32_char(d1[j]));
            assert(s2[j] == spec_base32_char(d2[j]));
            crate::text::lemma_lex_first_diff(s1, s2, j);
        },
    }
}

proof fn lemma_lex_flip(a: Seq<char>, b: Seq<char>)
    requires
        crate::text::spec_lex_cmp(a, b) == core::cmp::Ordering::Less,
    ensures
        crate::text::spec_lex_cmp(b, a) == core::cmp::Ordering::Greater,
    decreases a.len(),
{
    if a.len() != 0 && b.len() != 0 && a.first() == b.first() {
        lemma_lex_flip(a.drop_first(), b.drop_first());
    }
}

/// A text that decodes successfully is canonical.
pub proof fn lemma_decode_ok_canonical(s: Seq<char>)
    requires
        spec_decode(s) is Ok,
    ensures
        is_canonical_text(s),
        spec_decode(s) == Ok::<u128, DecodeError>(spec_text_val(s) as u128),
{
    lemma_first_invalid_props(s, 0);
}

/// Every 128-bit value encodes to a canonical text that decodes back to it.
pub proof fn lemma_decode_encode(u: u128)
    ensures
        is_canonical_text(spec_encode(u)),
        spec_text_val(spec_encode(u)) == u,
        spec_decode(spec_encode(u)) == Ok::<u128, DecodeError>(u),
{
    lemma_codec_pow_values();
    let n = u as int;
    let ds = spec_digits(32, n, 26);
    let s = spec_encode(u);
    lemma_digits_len(32, n, 26);
    lemma_digits_in_range(32, n, 26);
    assert forall|i: int| 0 <= i < 26 implies is_base32_char(#[trigger] s[i])
        && spec_base32_val(s[i]) == ds[i] by {
        lemma_base32_char_val(ds[i]);
    }
    assert(spec_char_vals(s) =~= ds);
    lemma_val_of_digits(32, n, 26);
    // The leading digit is the value shifted down 125 bits, which is below 8.
    lemma_digits_index(32, n, 26, 0);
    lemma_pow_positive(32, 25);
    vstd::arithmetic::div_mod::lemma_multiply_divide_lt(n, pow(32, 25), 8);
    vstd::arithmetic::div_mod::lemma_div_pos_is_pos(n, pow(32, 25));
    vstd::arithmetic::div_mod::lemma_small_mod((n / pow(32, 25)) as nat, 32);
    lemma_first_invalid_props(s, 0);
}

/// Every canonical text is the encoding of the value it writes.
pub proof fn lemma_encode_decode(s: Seq<char>)
    requires
        is_canonical_text(s),
    ensures
        0 <= spec_text_val(s) <= u128::MAX,
        spec_encode(spec_text_val(s) as u128) == s,
        spec_decode(s) == Ok::<u128, DecodeError>(spec_text_val(s) as u128),
{
    lemma_codec_pow_values();
    let m = spec_char_vals(s);
    assert forall|i: int| 0 <= i < 26 implies 0 <= #[trigger] m[i] < 32 by {
        lemma_base32_val_range(s[i]);
    }
    lemma_val_bound(32, m);
    lemma_val_first_digit_bound(32, m);
    assert(m[0] <= 7);
    assert((m[0] + 1) * pow(32, 25) <= 8 * pow(32, 25)) by (nonlinear_arith)
        requires
            m[0] + 1 <= 8,
            pow(32, 25) > 0,
    {}
    let u = spec_text_val(s) as u128;
    lemma_digits_of_val(32, m);
    let ds = spec_digits(32, u as int, 26);
    assert(ds == m);
    assert forall|i: int| 0 <= i < 26 implies #[trigger] spec_encode(u)[i] == s[i] by {
        lemma_base32_val_char(s[i]);
    }
    assert(spec_encode(u) =~= s);
    lemma_first_invalid_props(s, 0);
}

/// The 5-bit value of a Crockford base32 character, or `None` when the
/// character is outside the alphabet.
pub fn base32_val(c: char) -> (r: Option<u8>)
    ensures
        r is Some <==> is_base32_char(c),
        r is Some ==> r->0 == spec_base32_val(c) && r->0 < 32,
{
    if '0' <= c && c <= '9' {
        Some(c as u8 - '0' as u8)
    } else if 'a' <= c && c <= 'h' {
        Some(c as u8 - 'a' as u8 + 10)
    } else if 'j' <= c && c <= 'k' {
        Some(c as u8 - 'j' as u8 + 18)
    } else if 'm' <= c && c <= 'n' {
        Some(c as u8 - 'm' as u8 + 20)
    } else if 'p' <= c && c <= 't' {
        Some(c as u8 - 'p' as u8 + 22)
    } else if 'v' <= c && c <= 'z' {
        Some(c as u8 - 'v' as u8 + 27)
    } else {
        None
    }
}

/// The lowercase Crockford base32 character of a 5-bit digit.
pub fn base32_char(d: u8) -> (c: char)
    requires
        d < 32,
    ensures
        c == spec_base32_char(d as int),
{
    match d {
        0 => '0',
        1 => '1',
        2 => '2',
        3 => '3',
        4 => '4',
        5 => '5',
        6 => '6',
        7 => '7',
        8 => '8',
        9 => '9',
        10 => 'a',
        11 => 'b',
        12 => 'c',
        13 => 'd',
        14 => 'e',
        15 => 'f',
        16 => 'g',
        17 => 'h',
        18 => 'j',
        19 => 'k',
        20 => 'm',
        21 => 'n',
        22 => 'p',
        23 => 'q',
        24 => 'r',
        25 => 's',
        26 => 't',
        27 => 'v',
        28 => 'w',
        29 => 'x',
        30 => 'y',
        _ => 'z',
    }
}

/// Encodes a 128-bit value as its canonical 26-character base32 text.
pub fn encode(u: u128) -> (r: String)
    ensures
        r@ == spec_encode(u),
        is_canonical_text(r@),
{
    proof {
        vstd::arithmetic::power::lemma_pow0(32);
    }
    let ghost n: int = u as int;
    let mut rev: Vec<u8> = Vec::new();
    let mut rem: u128 = u;
    let mut k: usize = 0;
    while k < 26
        invariant
            k <= 26,
            rem as int == n / pow(32, k as nat),
            n == u as int,
            rev@.len() == k,
            forall|i: int| 0 <= i < k ==> #[trigger] rev@[i] < 32
                && rev@[i] as int == spec_digits(32, n, 26)[25 - i],
        decreases 26 - k,
    {
        proof {
            lemma_digits_index(32, n, 26, 25 - k as int);
            lemma_pow_positive(32, k as nat);
            lemma_div_denominator(n, pow(32, k as nat), 32);
            lemma_pow_adds(32, k as nat, 1);
            lemma_pow1(32);
            lemma_div_pos_is_pos(n, pow(32, k as nat));
        }
        let d: u8 = (rem % 32) as u8;
        rev.push(d);
        rem = rem / 32;
        k += 1;
    }
    proof {
        lemma_digits_len(32, n, 26);
    }
    let mut text = String::new();
    let mut j: usize = 26;
    while j > 0
        invariant
            j <= 26,
            n == u as int,
            rev@.len() == 26,
            forall|i: int| 0 <= i < 26 ==> #[trigger] rev@[i] < 32
                && rev@[i] as int == spec_digits(32, n, 26)[25 - i],
            spec_digits(32, n, 26).len() == 26,
            text@.len() == 26 - j,
            forall|i: int| 0 <= i < 26 - j ==> #[trigger] text@[i]
                == spec_base32_char(spec_digits(32, n, 26)[i]),
        decreases j,
    {
        j -= 1;
        let c = base32_char(rev[j]);
        push_char(&mut text, c);
    }
    proof {
        lemma_digits_in_range(32, n, 26);
        assert(text@ =~= spec_encode(u));
        lemma_decode_encode(u);
    }
    text
}

/// Decodes a 26-character base32 text to its 128-bit value, rejecting a
/// wrong length, a character outside the alphabet, and a leading character
/// of value 8 or more.
pub fn decode(s: &str) -> (r: Result<u128, DecodeError>)
    ensures
        r == spec_decode(s@),
{
    let n = s.unicode_len();
    if n != 26 {
        return Err(DecodeError::InvalidLength(n));
    }
    let mut vals: Vec<u8> = Vec::new();
    let mut i: usize = 0;
    while i < 26
        invariant
            s@.len() == 26,
            i <= 26,
            vals@.len() == i,
            forall|j: int| 0 <= j < i ==> is_base32_char(#[trigger] s@[j])
                && vals@[j] < 32 && vals@[j] as int == spec_base32_val(s@[j]),
        decreases 26 - i,
    {
        let ghost old_vals = vals@;
        let c = s.get_char(i);
        match base32_val(c) {
            Some(v) => {
                vals.push(v);
                proof {
                    assert(vals@ == old_vals.push(v));
                    assert forall|j: int| 0 <= j < i + 1 implies is_base32_char(#[trigger] s@[j])
                        && vals@[j] < 32 && vals@[j] as int == spec_base32_val(s@[j]) by {
                        if j < i {
                            assert(vals@[j] == old_vals[j]);
                        } else {
                            assert(vals@[j] == v);
                        }
                    }
                }
            },
            None => {
                proof {
                    lemma_first_invalid_props(s@, 0);
                }
                return Err(DecodeError::InvalidCharacter(c, i));
            },
        }
        i += 1;
    }
    proof {
        lemma_first_invalid_props(s@, 0);
    }
    if vals[0] >= 8 {
        return Err(DecodeError::Overflow);
    }
    let ghost m: Seq<int> = spec_char_vals(s@);
    proof {
        assert forall|j: int| 0 <= j < 26 implies 0 <= #[trigger] m[j] < 32 by {
            lemma_base32_val_range(s@[j]);
        }
        lemma_codec_pow_values();
    }
    let mut acc: u128 = 0;
    let mut j: usize = 0;
    while j < 26
        invariant
            s@.len() == 26,
            j <= 26,
            vals@.len() == 26,
            forall|l: int| 0 <= l < 26 ==> is_base32_char(#[trigger] s@[l])
                && vals@[l] < 32 && vals@[l] as int == spec_base32_val(s@[l]),
            m == spec_char_vals(s@),
            forall|l: int| 0 <= l < 26 ==> 0 <= #[trigger] m[l] < 32,
            m[0] < 8,
            acc as int == spec_val(32, m.take(j as int)),
            pow(32, 25) == 0x20000000000000000000000000000000,
        decreases 26 - j,
    {
        proof {
            let t = m.take(j as int);
            if j > 0 {
                assert(t[0] == m[0]);
                assert(digits_in_range(32, t));
                lemma_val_first_digit_bound(32, t);
                lemma_pow_positive(32, (j - 1) as nat);
                assert((t[0] + 1) * pow(32, (j - 1) as nat) <= 8 * pow(32, (j - 1) as nat))
                    by (nonlinear_arith)
                    requires
                        t[0] + 1 <= 8,
                        pow(32, (j - 1) as nat) > 0,
                {}
                lemma_pow_adds(32, (j - 1) as nat, 1);
                lemma_pow1(32);
                assert(pow(32, j as nat) == pow(32, (j - 1) as nat) * 32);
                lemma_pow_increases(32, j as nat, 25);
                assert(acc * 32 + 31 < 8 * pow(32, j as nat));
            } else {
                assert(spec_val(32, t) == 0);
            }
            lemma_val_take_step(32, m, j as int);
        }
        acc = acc * 32 + (vals[j] as u128);
        j += 1;
    }
    proof {
        assert(m.take(26) =~= m);
    }
    Ok(acc)
}

} // verus!
