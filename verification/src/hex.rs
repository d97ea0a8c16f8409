//! The hyphenated hexadecimal text form of a 128-bit UUID: 32 lowercase hex
//! digits in five groups of 8-4-4-4-12, most significant digit first.
//! Rendering is lowercase; parsing accepts either case.

use crate::radix::{
    digits_in_range, lemma_codec_pow_values, lemma_digits_in_range, lemma_digits_index,
    lemma_digits_len, lemma_val_bound, lemma_val_take_step, spec_digits, spec_val,
};
use crate::text::push_char;
use vstd::arithmetic::div_mod::{lemma_div_denominator, lemma_div_pos_is_pos};
use vstd::arithmetic::power::{
    lemma_pow1, lemma_pow_adds, lemma_pow_increases, lemma_pow_positive, pow,
};
use vstd::prelude::*;
use vstd::string::StrSliceExecFns;

verus! {

/// The value of a hexadecimal digit character of either case, or -1 when
/// the character is not one.
pub open spec fn spec_hex_val(c: char) -> int {
    if '0' <= c <= '9' {
        c as int - '0' as int
    } else if 'a' <= c <= 'f' {
        c as int - 'a' as int + 10
    } else if 'A' <= c <= 'F' {
        c as int - 'A' as int + 10
    } else {
        -1
    }
}

pub open spec fn is_hex_char(c: char) -> bool {
    spec_hex_val(c) != -1
}

/// The lowercase character of a hexadecimal digit.
pub open spec fn spec_hex_char(d: int) -> char {
    if d == 0 { '0' }
    else if d == 1 { '1' }
    else if d == 2 { '2' }
    else if d == 3 { '3' }
    else if d == 4 { '4' }
    else if d == 5 { '5' }
    else if d == 6 { '6' }
    else if d == 7 { '7' }
    else if d == 8 { '8' }
    else if d == 9 { '9' }
    else if d == 10 { 'a' }
    else if d == 11 { 'b' }
    else if d == 12 { 'c' }
    else if d == 13 { 'd' }
    else if d == 14 { 'e' }
    else { 'f' }
}

/// The positions of the four hyphens in the 36-character text.
pub open spec fn is_hyphen_pos(i: int) -> bool {
    i == 8 || i == 13 || i == 18 || i == 23
}

/// The index of the hex digit standing at text position `i`.
pub open spec fn spec_slot_of_pos(i: int) -> int {
    if i < 8 { i }
    else if i < 13 { i - 1 }
    else if i < 18 { i - 2 }
    else if i < 23 { i - 3 }
    else { i - 4 }
}

/// The text position of hex digit `k` of 32.
pub open spec fn spec_pos_of_slot(k: int) -> int {
    if k < 8 { k }
    else if k < 12 { k + 1 }
    else if k < 16 { k + 2 }
    else if k < 20 { k + 3 }
    else { k + 4 }
}

/// The canonical hyphenated lowercase text of a 128-bit value.
pub open spec fn spec_uuid_text(u: u128) -> Seq<char> {
    Seq::new(36, |i: int| if is_hyphen_pos(i) {
        '-'
    } else {
        spec_hex_char(spec_digits(16, u as int, 32)[spec_slot_of_pos(i)])
    })
}

/// The hex digit values standing in a 36-character text, hyphens skipped.
pub open spec fn spec_text_digits(s: Seq<char>) -> Seq<int> {
    Seq::new(32, |k: int| spec_hex_val(s[spec_pos_of_slot(k)]))
}

/// Whether a 36-character sequence has the hyphenated shape: hyphens at
/// positions 8, 13, 18 and 23 and hex digits everywhere else.
pub open spec fn is_uuid_text(s: Seq<char>) -> bool {
    &&& s.len() == 36
    &&& (forall|i: int| 0 <= i < 36 && is_hyphen_pos(i) ==> s[i] == '-')
    &&& (forall|i: int| 0 <= i < 36 && !is_hyphen_pos(i) ==> is_hex_char(#[trigger] s[i]))
}

/// What parsing a hyphenated UUID text yields: its 128-bit value, or
/// nothing when the shape is wrong.
pub open spec fn spec_parse_uuid_text(s: Seq<char>) -> Option<u128> {
    if is_uuid_text(s) {
        Some(spec_val(16, spec_text_digits(s)) as u128)
    } else {
        None
    }
}

/// The value of a hexadecimal digit character, or `None` when the
/// character is not one.
pub fn hex_val(c: char) -> (r: Option<u8>)
    ensures
        r is Some <==> is_hex_char(c),
        r is Some ==> r->0 == spec_hex_val(c) && r->0 < 16,
{
    if '0' <= c && c <= '9' {
        Some(c as u8 - '0' as u8)
    } else if 'a' <= c && c <= 'f' {
        Some(c as u8 - 'a' as u8 + 10)
    } else if 'A' <= c && c <= 'F' {
        Some(c as u8 - 'A' as u8 + 10)
    } else {
        None
    }
}

/// The lowercase character of a hexadecimal digit.
pub fn hex_char(d: u8) -> (c: char)
    requires
        d < 16,
    ensures
        c == spec_hex_char(d as int),
{
    match d {
        0 => '0',
        1 => '1',
        2 => '2',
        3 => '3',
        4 => '4',
        5 => '5',
        6 => '6',
        7 => '7',
        8 => '8',
        9 => '9',
        10 => 'a',
        11 => 'b',
        12 => 'c',
        13 => 'd',
        14 => 'e',
        _ => 'f',
    }
}

/// Renders a 128-bit value as its hyphenated lowercase UUID text.
pub fn uuid_text(u: u128) -> (r: String)
    ensures
        r@ == spec_uuid_text(u),
        r@.len() == 36,
{
    proof {
        vstd::arithmetic::power::lemma_pow0(16);
    }
    let ghost n: int = u as int;
    let mut rev: Vec<u8> = Vec::new();
    let mut rem: u128 = u;
    let mut k: usize = 0;
    while k < 32
        invariant
            k <= 32,
            rem as int == n / pow(16, k as nat),
            n == u as int,
            rev@.len() == k,
            forall|i: int| 0 <= i < k ==> #[trigger] rev@[i] < 16
                && rev@[i] as int == spec_digits(16, n, 32)[31 - i],
        decreases 32 - k,
    {
        proof {
            lemma_digits_index(16, n, 32, 31 - k as int);
            lemma_pow_positive(16, k as nat);
            lemma_div_denominator(n, pow(16, k as nat), 16);
            lemma_pow_adds(16, k as nat, 1);
            lemma_pow1(16);
            lemma_div_pos_is_pos(n, pow(16, k as nat));
        }
        let d: u8 = (rem % 16) as u8;
        rev.push(d);
        rem = rem / 16;
        k += 1;
    }
    proof {
        lemma_digits_len(16, n, 32);
    }
    let mut text = String::new();
    let mut j: usize = 0;
    while j < 36
        invariant
            j <= 36,
            n == u as int,
            rev@.len() == 32,
            forall|i: int| 0 <= i < 32 ==> #[trigger] rev@[i] < 16
                && rev@[i] as int == spec_digits(16, n, 32)[31 - i],
            spec_digits(16, n, 32).len() == 32,
            text@.len() == j,
            forall|i: int| 0 <= i < j ==> #[trigger] text@[i] == spec_uuid_text(u)[i],
        decreases 36 - j,
    {
        if j == 8 || j == 13 || j == 18 || j == 23 {
            push_char(&mut text, '-');
        } else {
            let slot: usize = if j < 8 { j }
            else if j < 13 { j - 1 }
            else if j < 18 { j - 2 }
            else if j < 23 { j - 3 }
            else { j - 4 };
            let c = hex_char(rev[31 - slot]);
            push_char(&mut text, c);
        }
        j += 1;
    }
    proof {
        assert(text@ =~= spec_uuid_text(u));
    }
    text
}

/// Parses a hyphenated UUID text of either case to its 128-bit value.
pub fn parse_uuid_text(s: &str) -> (r: Option<u128>)
    ensures
        r == spec_parse_uuid_text(s@),
{
    if s.unicode_len() != 36 {
        return None;
    }
    if s.get_char(8) != '-' || s.get_char(13) != '-' || s.get_char(18) != '-'
        || s.get_char(23) != '-' {
        return None;
    }
    let mut vals: Vec<u8> = Vec::new();
    let mut k: usize = 0;
    while k < 32
        invariant
            s@.len() == 36,
            k <= 32,
            vals@.len() == k,
            forall|l: int| 0 <= l < k ==> is_hex_char(#[trigger] s@[spec_pos_of_slot(l)])
                && vals@[l] < 16 && vals@[l] as int == spec_hex_val(s@[spec_pos_of_slot(l)]),
        decreases 32 - k,
    {
        let pos: usize = if k < 8 { k }
        else if k < 12 { k + 1 }
        else if k < 16 { k + 2 }
        else if k < 20 { k + 3 }
        else { k + 4 };
        let c = s.get_char(pos);
        match hex_val(c) {
            Some(v) => {
                vals.push(v);
            },
            None => {
                proof {
                    assert(!is_hyphen_pos(spec_pos_of_slot(k as int)));
                }
                return None;
            },
        }
        k += 1;
    }
    proof {
        assert forall|i: int| 0 <= i < 36 && !is_hyphen_pos(i) implies is_hex_char(
            #[trigger] s@[i],
        ) by {
            assert(spec_pos_of_slot(spec_slot_of_pos(i)) == i);
            assert(0 <= spec_slot_of_pos(i) < 32);
        }
        assert(is_uuid_text(s@));
        lemma_codec_pow_values();
    }
    let ghost m: Seq<int> = spec_text_digits(s@);
    proof {
        assert forall|l: int| 0 <= l < 32 implies vals@[l] < 16 && vals@[l] as int
            == spec_hex_val(s@[spec_pos_of_slot(l)]) by {
            assert(is_hex_char(s@[spec_pos_of_slot(l)]));
        }
        assert forall|l: int| 0 <= l < 32 implies 0 <= #[trigger] m[l] < 16 by {
            assert(m[l] == spec_hex_val(s@[spec_pos_of_slot(l)]));
            assert(is_hex_char(s@[spec_pos_of_slot(l)]));
        }
    }
    let mut acc: u128 = 0;
    let mut j: usize = 0;
    while j < 32
        invariant
            s@.len() == 36,
            j <= 32,
            vals@.len() == 32,
            m == spec_text_digits(s@),
            forall|l: int| 0 <= l < 32 ==> vals@[l] < 16
                && vals@[l] as int == spec_hex_val(s@[spec_pos_of_slot(l)]),
            forall|l: int| 0 <= l < 32 ==> 0 <= #[trigger] m[l] < 16,
            acc as int == spec_val(16, m.take(j as int)),
            pow(16, 32) == 0x100000000000000000000000000000000,
        decreases 32 - j,
    {
        proof {
            let t = m.take(j as int);
            assert(digits_in_range(16, t));
            lemma_val_bound(16, t);
            lemma_pow_adds(16, j as nat, 1);
            lemma_pow1(16);
            lemma_pow_increases(16, (j + 1) as nat, 32);
            lemma_pow_positive(16, j as nat);
            assert(spec_val(16, t) * 16 + 15 < pow(16, (j + 1) as nat)) by (nonlinear_arith)
                requires
                    spec_val(16, t) < pow(16, j as nat),
                    pow(16, (j + 1) as nat) == pow(16, j as nat) * 16,
            {}
            lemma_val_take_step(16, m, j as int);
        }
        acc = acc * 16 + (vals[j] as u128);
        j += 1;
    }
    proof {
        assert(m.take(32) =~= m);
    }
    Some(acc)
}

} // verus!
