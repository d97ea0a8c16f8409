//! Small executable helpers for building and comparing strings.

use vstd::prelude::*;

verus! {

/// Relies on `String::push`: appends exactly one character to the string.
#[verifier::external_body]
pub(crate) fn push_char(s: &mut String, c: char)
    ensures
        final(s)@ == old(s)@.push(c),
{
    s.push(c);
}

/// The lexicographic character-wise order of two character sequences.
pub open spec fn spec_lex_cmp(a: Seq<char>, b: Seq<char>) -> core::cmp::Ordering
    decreases a.len(),
{
    if a.len() == 0 && b.len() == 0 {
        core::cmp::Ordering::Equal
    } else if a.len() == 0 {
        core::cmp::Ordering::Less
    } else if b.len() == 0 {
        core::cmp::Ordering::Greater
    } else if a.first() < b.first() {
        core::cmp::Ordering::Less
    } else if a.first() > b.first() {
        core::cmp::Ordering::Greater
    } else {
        spec_lex_cmp(a.drop_first(), b.drop_first())
    }
}

/// Lexicographic order is equality exactly on equal sequences.
pub proof fn lemma_lex_cmp_eq(a: Seq<char>, b: Seq<char>)
    ensures
        spec_lex_cmp(a, b) == core::cmp::Ordering::Equal <==> a == b,
    decreases a.len(),
{
    if a.len() != 0 && b.len() != 0 && a.first() == b.first() {
        lemma_lex_cmp_eq(a.drop_first(), b.drop_first());
        if a.drop_first() == b.drop_first() && a.first() == b.first() {
            assert forall|i: int| 0 <= i < a.len() implies a[i] == b[i] by {
                if i > 0 {
                    assert(a[i] == a.drop_first()[i - 1]);
                    assert(b[i] == b.drop_first()[i - 1]);
                }
            }
            assert(a =~= b);
        }
        if a == b {
            assert(a.drop_first() =~= b.drop_first());
        }
    } else if a.len() == 0 && b.len() == 0 {
        assert(a =~= b);
    }
}

/// Two equal-length sequences that agree before an index where the first
/// holds the smaller character compare as less.
pub proof fn lemma_lex_first_diff(a: Seq<char>, b: Seq<char>, j: int)
    requires
        a.len() == b.len(),
        0 <= j < a.len(),
        a.take(j) == b.take(j),
        a[j] < b[j],
    ensures
        spec_lex_cmp(a, b) == core::cmp::Ordering::Less,
    decreases j,
{
    if j == 0 {
        assert(a.first() < b.first());
    } else {
        assert(a.take(j)[0] == a[0]);
        assert(b.take(j)[0] == b[0]);
        assert(a.first() == b.first());
        let a1 = a.drop_first();
        let b1 = b.drop_first();
        assert(a1.take(j - 1) =~= b1.take(j - 1)) by {
            assert forall|i: int| 0 <= i < j - 1 implies #[trigger] a1.take(j - 1)[i] == b1.take(
                j - 1,
            )[i] by {
                assert(a.take(j)[i + 1] == a[i + 1]);
                assert(b.take(j)[i + 1] == b[i + 1]);
                assert(a1[i] == a[i + 1]);
                assert(b1[i] == b[i + 1]);
            }
        }
        assert(a1[j - 1] == a[j] && b1[j - 1] == b[j]);
        lemma_lex_first_diff(a1, b1, j - 1);
    }
}

/// Compares two strings character by character.
pub fn lex_cmp(a: &str, b: &str) -> (o: core::cmp::Ordering)
    ensures
        o == spec_lex_cmp(a@, b@),
{
    let an = a.unicode_len();
    let bn = b.unicode_len();
    proof {
        assert(a@.skip(0) =~= a@);
        assert(b@.skip(0) =~= b@);
    }
    let mut i: usize = 0;
    while i < an && i < bn
        invariant
            i <= an,
            i <= bn,
            an == a@.len(),
            bn == b@.len(),
            spec_lex_cmp(a@, b@) == spec_lex_cmp(a@.skip(i as int), b@.skip(i as int)),
            forall|j: int| 0 <= j < i ==> a@[j] == b@[j],
        decreases an - i,
    {
        let ca = a.get_char(i);
        let cb = b.get_char(i);
        if ca < cb {
            return core::cmp::Ordering::Less;
        }
        if cb < ca {
            return core::cmp::Ordering::Greater;
        }
        proof {
            assert(a@.skip(i as int).drop_first() =~= a@.skip(i as int + 1));
            assert(b@.skip(i as int).drop_first() =~= b@.skip(i as int + 1));
        }
        i += 1;
    }
    proof {
        assert(a@.skip(i as int).len() == 0 || b@.skip(i as int).len() == 0);
    }
    if an == bn {
        core::cmp::Ordering::Equal
    } else if an < bn {
        core::cmp::Ordering::Less
    } else {
        core::cmp::Ordering::Greater
    }
}

} // verus!
