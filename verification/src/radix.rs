//! Positional numeral sequences: the digits of a number in a given base,
//! most significant digit first, and the value of such a digit sequence.
//!
//! The Crockford base32 suffix codec and the hexadecimal UUID text form are
//! both instances of these definitions, with base 32 and base 16.

use vstd::arithmetic::div_mod::{
    lemma_div_denominator, lemma_div_pos_is_pos, lemma_fundamental_div_mod,
    lemma_fundamental_div_mod_converse_div, lemma_fundamental_div_mod_converse_mod,
    lemma_mod_bound, lemma_multiply_divide_lt,
};
use vstd::arithmetic::power::{lemma_pow_multiplies, lemma_pow_positive, pow};
use vstd::arithmetic::power2::{lemma2_to64, lemma2_to64_rest, lemma_pow2_adds, pow2};
use vstd::prelude::*;

verus! {

/// The `k` digits of `n` in base `b`, most significant digit first.
pub open spec fn spec_digits(b: int, n: int, k: nat) -> Seq<int>
    decreases k,
{
    if k == 0 {
        Seq::empty()
    } else {
        spec_digits(b, n / b, (k - 1) as nat).push(n % b)
    }
}

/// The value of a digit sequence in base `b`, most significant digit first.
pub open spec fn spec_val(b: int, ds: Seq<int>) -> int
    decreases ds.len(),
{
    if ds.len() == 0 {
        0
    } else {
        spec_val(b, ds.drop_last()) * b + ds.last()
    }
}

/// Every entry of `ds` is a digit of base `b`.
pub open spec fn digits_in_range(b: int, ds: Seq<int>) -> bool {
    forall|i: int| 0 <= i < ds.len() ==> 0 <= #[trigger] ds[i] < b
}

pub proof fn lemma_digits_len(b: int, n: int, k: nat)
    ensures
        spec_digits(b, n, k).len() == k,
    decreases k,
{
    if k > 0 {
        lemma_digits_len(b, n / b, (k - 1) as nat);
    }
}

pub proof fn lemma_digits_in_range(b: int, n: int, k: nat)
    requires
        b >= 2,
        n >= 0,
    ensures
        digits_in_range(b, spec_digits(b, n, k)),
    decreases k,
{
    if k > 0 {
        lemma_mod_bound(n, b);
        lemma_div_pos_is_pos(n, b);
        lemma_digits_in_range(b, n / b, (k - 1) as nat);
        lemma_digits_len(b, n / b, (k - 1) as nat);
    }
}

/// A digit sequence in base `b` has a value in `[0, b^len)`.
pub proof fn lemma_val_bound(b: int, ds: Seq<int>)
    requires
        b >= 2,
        digits_in_range(b, ds),
    ensures
        0 <= spec_val(b, ds) < pow(b, ds.len()),
    decreases ds.len(),
{
    reveal(pow);
    if ds.len() > 0 {
        let dl = ds.drop_last();
        assert(digits_in_range(b, dl));
        lemma_val_bound(b, dl);
        lemma_pow_positive(b, (ds.len() - 1) as nat);
        assert(spec_val(b, dl) * b + ds.last() < pow(b, ds.len())) by (nonlinear_arith)
            requires
                spec_val(b, dl) < pow(b, (ds.len() - 1) as nat),
                pow(b, ds.len() as nat) == b * pow(b, (ds.len() - 1) as nat),
                0 <= ds.last() < b,
                b >= 2,
        {}
        assert(spec_val(b, dl) * b >= 0) by (nonlinear_arith)
            requires
                spec_val(b, dl) >= 0,
                b >= 2,
        {}
    }
}

/// A sharper bound: the value is below `(first digit + 1) * b^(len-1)`.
pub proof fn lemma_val_first_digit_bound(b: int, ds: Seq<int>)
    requires
        b >= 2,
        ds.len() > 0,
        digits_in_range(b, ds),
    ensures
        spec_val(b, ds) < (ds[0] + 1) * pow(b, (ds.len() - 1) as nat),
    decreases ds.len(),
{
    reveal(pow);
    if ds.len() == 1 {
        assert(ds.drop_last().len() == 0);
        assert(spec_val(b, ds.drop_last()) == 0);
        assert(spec_val(b, ds) == 0 * b + ds.last());
        assert(pow(b, 0) == 1);
    } else {
        let dl = ds.drop_last();
        assert(digits_in_range(b, dl));
        lemma_val_first_digit_bound(b, dl);
        assert(dl[0] == ds[0]);
        lemma_pow_positive(b, (ds.len() - 2) as nat);
        assert(spec_val(b, dl) * b + ds.last() < (ds[0] + 1) * pow(b, (ds.len() - 1) as nat))
            by (nonlinear_arith)
            requires
                spec_val(b, dl) < (ds[0] + 1) * pow(b, (ds.len() - 2) as nat),
                pow(b, (ds.len() - 1) as nat) == b * pow(b, (ds.len() - 2) as nat),
                0 <= ds.last() < b,
                b >= 2,
        {}
    }
}

/// Taking the digits of a value recovers the value.
pub proof fn lemma_val_of_digits(b: int, n: int, k: nat)
    requires
        b >= 2,
        0 <= n < pow(b, k),
    ensures
        spec_val(b, spec_digits(b, n, k)) == n,
    decreases k,
{
    reveal(pow);
    if k == 0 {
        assert(pow(b, 0) == 1);
    } else {
        lemma_pow_positive(b, (k - 1) as nat);
        lemma_multiply_divide_lt(n, b, pow(b, (k - 1) as nat));
        lemma_div_pos_is_pos(n, b);
        lemma_val_of_digits(b, n / b, (k - 1) as nat);
        lemma_digits_len(b, n / b, (k - 1) as nat);
        let ds = spec_digits(b, n, k);
        assert(ds.drop_last() =~= spec_digits(b, n / b, (k - 1) as nat));
        assert(ds.last() == n % b);
        assert(spec_val(b, ds) == spec_val(b, ds.drop_last()) * b + ds.last());
        lemma_fundamental_div_mod(n, b);
        assert((n / b) * b + n % b == n);
    }
}

/// Taking the value of a digit sequence recovers the digits.
pub proof fn lemma_digits_of_val(b: int, ds: Seq<int>)
    requires
        b >= 2,
        digits_in_range(b, ds),
    ensures
        spec_digits(b, spec_val(b, ds), ds.len()) == ds,
    decreases ds.len(),
{
    if ds.len() == 0 {
        assert(spec_digits(b, spec_val(b, ds), 0) =~= ds);
    } else {
        let dl = ds.drop_last();
        assert(digits_in_range(b, dl));
        lemma_val_bound(b, dl);
        let n = spec_val(b, ds);
        lemma_fundamental_div_mod_converse_div(n, b, spec_val(b, dl), ds.last());
        lemma_fundamental_div_mod_converse_mod(n, b, spec_val(b, dl), ds.last());
        lemma_digits_of_val(b, dl);
        assert(spec_digits(b, n, ds.len()) =~= ds);
    }
}

/// The digit at index `j` (most significant first) is `(n / b^(k-1-j)) % b`.
pub proof fn lemma_digits_index(b: int, n: int, k: nat, j: int)
    requires
        b >= 2,
        n >= 0,
        0 <= j < k,
    ensures
        spec_digits(b, n, k)[j] == (n / pow(b, (k - 1 - j) as nat)) % b,
    decreases k,
{
    reveal(pow);
    lemma_digits_len(b, n / b, (k - 1) as nat);
    if j == k - 1 {
        assert(pow(b, 0) == 1);
        assert(n / 1 == n);
    } else {
        lemma_div_pos_is_pos(n, b);
        lemma_digits_index(b, n / b, (k - 1) as nat, j);
        let e = (k - 2 - j) as nat;
        lemma_pow_positive(b, e);
        lemma_div_denominator(n, b, pow(b, e));
        assert(pow(b, (k - 1 - j) as nat) == b * pow(b, e));
    }
}

/// Splitting a digit sequence at index `j` splits its value: the leading
/// digits weigh `b^(len-j)`, the rest write the low part.
pub proof fn lemma_val_split(b: int, ds: Seq<int>, j: int)
    requires
        b >= 2,
        0 <= j <= ds.len(),
    ensures
        spec_val(b, ds) == spec_val(b, ds.take(j)) * pow(b, (ds.len() - j) as nat) + spec_val(
            b,
            ds.skip(j),
        ),
    decreases ds.len(),
{
    reveal(pow);
    if j == ds.len() {
        assert(ds.take(j) =~= ds);
        assert(ds.skip(j).len() == 0);
        assert(pow(b, 0) == 1);
    } else {
        let dl = ds.drop_last();
        lemma_val_split(b, dl, j);
        assert(dl.take(j) =~= ds.take(j));
        assert(ds.skip(j).drop_last() =~= dl.skip(j));
        assert(ds.skip(j).last() == ds.last());
        assert(spec_val(b, ds.skip(j)) == spec_val(b, dl.skip(j)) * b + ds.last());
        let c = spec_val(b, ds.take(j));
        let e = (ds.len() - 1 - j) as nat;
        assert(pow(b, (ds.len() - j) as nat) == b * pow(b, e));
        assert((c * pow(b, e) + spec_val(b, dl.skip(j))) * b == c * (b * pow(b, e)) + spec_val(
            b,
            dl.skip(j),
        ) * b) by (nonlinear_arith);
    }
}

/// The position of the first index where two digit sequences differ, at or
/// after index `i`, if any.
pub open spec fn spec_first_diff(d1: Seq<int>, d2: Seq<int>, i: int) -> Option<int>
    decreases d1.len() - i,
{
    if i < 0 || i >= d1.len() {
        None
    } else if d1[i] != d2[i] {
        Some(i)
    } else {
        spec_first_diff(d1, d2, i + 1)
    }
}

pub proof fn lemma_first_diff_props(d1: Seq<int>, d2: Seq<int>, i: int)
    requires
        d1.len() == d2.len(),
        0 <= i <= d1.len(),
    ensures
        match spec_first_diff(d1, d2, i) {
            None => forall|j: int| i <= j < d1.len() ==> d1[j] == #[trigger] d2[j],
            Some(k) => i <= k < d1.len() && d1[k] != d2[k] && forall|j: int|
                i <= j < k ==> d1[j] == #[trigger] d2[j],
        },
    decreases d1.len() - i,
{
    if i < d1.len() && d1[i] == d2[i] {
        lemma_first_diff_props(d1, d2, i + 1);
    }
}

/// Two equal-length digit sequences that agree up to an index where the
/// first holds the smaller digit write values in that order: the most
/// significant differing digit decides.
pub proof fn lemma_first_diff_val_order(b: int, d1: Seq<int>, d2: Seq<int>, j: int)
    requires
        b >= 2,
        d1.len() == d2.len(),
        digits_in_range(b, d1),
        digits_in_range(b, d2),
        0 <= j < d1.len(),
        d1.take(j) == d2.take(j),
        d1[j] < d2[j],
    ensures
        spec_val(b, d1) < spec_val(b, d2),
{
    reveal(pow);
    lemma_val_split(b, d1, j);
    lemma_val_split(b, d2, j);
    let m = (d1.len() - 1 - j) as nat;
    // Peel the digit at `j` off the low parts.
    lemma_val_split(b, d1.skip(j), 1);
    lemma_val_split(b, d2.skip(j), 1);
    assert(d1.skip(j).take(1) =~= seq![d1[j]]);
    assert(d2.skip(j).take(1) =~= seq![d2[j]]);
    assert(seq![d1[j]].drop_last() =~= Seq::<int>::empty());
    assert(seq![d2[j]].drop_last() =~= Seq::<int>::empty());
    assert(spec_val(b, Seq::<int>::empty()) == 0);
    assert(spec_val(b, seq![d1[j]]) == spec_val(b, seq![d1[j]].drop_last()) * b
        + seq![d1[j]].last());
    assert(spec_val(b, seq![d2[j]]) == spec_val(b, seq![d2[j]].drop_last()) * b
        + seq![d2[j]].last());
    assert(spec_val(b, seq![d1[j]]) == d1[j]);
    assert(spec_val(b, seq![d2[j]]) == d2[j]);
    let t1 = d1.skip(j).skip(1);
    let t2 = d2.skip(j).skip(1);
    assert(digits_in_range(b, t1));
    assert(digits_in_range(b, t2));
    lemma_val_bound(b, t1);
    lemma_val_bound(b, t2);
    assert(t1.len() == m);
    assert(t2.len() == m);
    // The smaller digit caps the low part below the larger digit's start.
    assert(d1[j] * pow(b, m) + spec_val(b, t1) < d2[j] * pow(b, m) + spec_val(b, t2))
        by (nonlinear_arith)
        requires
            d1[j] < d2[j],
            0 <= spec_val(b, t1) < pow(b, m),
            0 <= spec_val(b, t2),
            pow(b, m) > 0,
    {}
    lemma_pow_positive(b, (d1.len() - j) as nat);
    assert(spec_val(b, d1.take(j)) * pow(b, (d1.len() - j) as nat) == spec_val(b, d2.take(j))
        * pow(b, (d2.len() - j) as nat));
}

/// The concrete values of the large powers that the base32 and base16
/// codecs are built around.
pub proof fn lemma_codec_pow_values()
    ensures
        pow(2, 128) == 0x100000000000000000000000000000000,
        pow(32, 25) == 0x20000000000000000000000000000000,
        pow(32, 26) == 0x400000000000000000000000000000000,
        pow(16, 32) == 0x100000000000000000000000000000000,
{
    lemma2_to64();
    lemma2_to64_rest();
    lemma_pow2_adds(64, 61);
    lemma_pow2_adds(64, 64);
    lemma_pow2_adds(128, 2);
    lemma_pow_positive(2, 5);
    lemma_pow_positive(2, 4);
    lemma_pow_positive(2, 125);
    lemma_pow_positive(2, 128);
    lemma_pow_positive(2, 130);
    assert(pow(2, 5) == pow2(5));
    assert(pow(2, 4) == pow2(4));
    assert(pow(2, 125) == pow2(125));
    assert(pow(2, 128) == pow2(128));
    assert(pow(2, 130) == pow2(130));
    lemma_pow_multiplies(2, 5, 25);
    lemma_pow_multiplies(2, 5, 26);
    lemma_pow_multiplies(2, 4, 32);
    assert(pow(32, 25) == pow(pow(2, 5), 25));
    assert(pow(32, 26) == pow(pow(2, 5), 26));
    assert(pow(16, 32) == pow(pow(2, 4), 32));
}

/// Extending a digit-sequence prefix by one digit multiplies its value by
/// the base and adds that digit.
pub proof fn lemma_val_take_step(b: int, ds: Seq<int>, j: int)
    requires
        0 <= j < ds.len(),
    ensures
        spec_val(b, ds.take(j + 1)) == spec_val(b, ds.take(j)) * b + ds[j],
{
    assert(ds.take(j + 1).drop_last() =~= ds.take(j));
    assert(ds.take(j + 1).last() == ds[j]);
}

} // verus!
