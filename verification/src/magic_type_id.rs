//! The composite identifier: a validated prefix and a suffix, with the
//! canonical text cached at construction. The text is `prefix_suffix`, or
//! just the suffix text when the prefix is empty. Parsing splits at the
//! last underscore, so prefixes may themselves contain underscores.
//!
//! Identifiers are ordered by suffix value first — for version 7 suffixes
//! that is timestamp order — and by prefix text only on equal suffixes;
//! the canonical text, which would sort by prefix first, is deliberately
//! not the sort key.

use crate::base32::{is_base32_char, lemma_decode_encode, spec_encode};
use crate::errors::{MagicTypeIdError, ValidationError};
use crate::prefix::{TypeIdPrefix, is_valid_prefix, lemma_valid_prefix_chars, spec_validate};
use crate::suffix::{TypeIdSuffix, spec_parse_suffix, spec_variant_ok, lemma_suffix_round_trip};
use crate::text::{lemma_lex_cmp_eq, lex_cmp, push_char, spec_lex_cmp};
use vstd::prelude::*;
use vstd::string::{StrSliceExecFns, StringExecFns};

verus! {

/// The canonical text of a prefix and a suffix text: joined by an
/// underscore, or the suffix text alone under the empty prefix.
pub open spec fn spec_render(p: Seq<char>, st: Seq<char>) -> Seq<char> {
    if p.len() == 0 {
        st
    } else {
        p + seq!['_'] + st
    }
}

/// The position of the last underscore in a text, if any.
pub open spec fn spec_last_underscore(s: Seq<char>) -> Option<int>
    decreases s.len(),
{
    if s.len() == 0 {
        None
    } else if s.last() == '_' {
        Some(s.len() - 1)
    } else {
        spec_last_underscore(s.drop_last())
    }
}

/// What parsing an identifier text yields: the prefix text and the suffix
/// value, or the first failing half's error. The text right of the last
/// underscore is the suffix; an underscore at position 0 leaves an empty
/// left side, which is rejected outright.
pub open spec fn spec_parse_id(s: Seq<char>) -> Result<(Seq<char>, u128), MagicTypeIdError> {
    match spec_last_underscore(s) {
        Some(i) => if i == 0 {
            Err(MagicTypeIdError::Prefix(ValidationError::InvalidStartCharacter))
        } else {
            match spec_validate(s.take(i)) {
                Ok(_) => match spec_parse_suffix(s.skip(i + 1)) {
                    Ok(u) => Ok((s.take(i), u)),
                    Err(e) => Err(MagicTypeIdError::Suffix(e)),
                },
                Err(e) => Err(MagicTypeIdError::Prefix(e)),
            }
        },
        None => match spec_parse_suffix(s) {
            Ok(u) => Ok((Seq::empty(), u)),
            Err(e) => Err(MagicTypeIdError::Suffix(e)),
        },
    }
}

/// The identifier order: by suffix value first, by prefix text on equal
/// suffixes.
pub open spec fn spec_id_cmp(au: u128, ap: Seq<char>, bu: u128, bp: Seq<char>)
    -> core::cmp::Ordering {
    if au < bu {
        core::cmp::Ordering::Less
    } else if au > bu {
        core::cmp::Ordering::Greater
    } else {
        spec_lex_cmp(ap, bp)
    }
}

/// Where the last underscore stands: at the reported position stands an
/// underscore and none after it; `None` means the text has none at all.
pub proof fn lemma_last_underscore_props(s: Seq<char>)
    ensures
        match spec_last_underscore(s) {
            Some(i) => 0 <= i < s.len() && s[i] == '_' && forall|j: int|
                i < j < s.len() ==> s[j] != '_',
            None => forall|j: int| 0 <= j < s.len() ==> s[j] != '_',
        },
    decreases s.len(),
{
    if s.len() > 0 && s.last() != '_' {
        let dl = s.drop_last();
        lemma_last_underscore_props(dl);
        match spec_last_underscore(dl) {
            Some(i) => {
                assert(s[i] == dl[i]);
                assert forall|j: int| i < j < s.len() implies s[j] != '_' by {
                    if j < s.len() - 1 {
                        assert(s[j] == dl[j]);
                    }
                }
            },
            None => {
                assert forall|j: int| 0 <= j < s.len() implies s[j] != '_' by {
                    if j < s.len() - 1 {
                        assert(s[j] == dl[j]);
                    }
                }
            },
        }
    }
}

/// A valid identifier text renders back from its parts: parsing the
/// rendering of a valid prefix and a variant-respecting suffix recovers
/// exactly those parts.
pub proof fn lemma_parse_render(p: Seq<char>, u: u128)
    requires
        is_valid_prefix(p),
        spec_variant_ok(u),
    ensures
        spec_parse_id(spec_render(p, spec_encode(u))) == Ok::<(Seq<char>, u128), MagicTypeIdError>(
            (p, u),
        ),
{
    lemma_decode_encode(u);
    let st = spec_encode(u);
    assert forall|j: int| 0 <= j < st.len() implies st[j] != '_' by {
        assert(is_base32_char(st[j]));
    }
    let s = spec_render(p, st);
    lemma_suffix_round_trip(u);
    if p.len() == 0 {
        lemma_last_underscore_props(s);
        if spec_last_underscore(s) is Some {
            let i = spec_last_underscore(s)->Some_0;
            assert(s[i] != '_');
        }
        assert(spec_parse_id(s) == Ok::<(Seq<char>, u128), MagicTypeIdError>((Seq::empty(), u)));
        assert(Seq::<char>::empty() =~= p);
    } else {
        lemma_valid_prefix_chars(p);
        let n = p.len();
        assert(s.len() == n + 27);
        assert(s[n as int] == '_');
        lemma_last_underscore_props(s);
        match spec_last_underscore(s) {
            None => {
                assert(false);
            },
            Some(i) => {
                // No underscore stands right of position n, so the last
                // one is exactly there.
                assert forall|j: int| n < j < s.len() implies s[j] != '_' by {
                    assert(s[j] == st[j - n - 1]);
                    assert(is_base32_char(st[j - n - 1]));
                }
                if i < n {
                    assert(s[n as int] == '_');
                    assert(false);
                }
                if i > n {
                    assert(s[i] != '_');
                    assert(false);
                }
                assert(i == n);
                assert(s.take(i) =~= p);
                assert(s.skip(i + 1) =~= st);
            },
        }
    }
}

/// Canonical texts are unique: two identifiers carry the same canonical
/// text exactly when their prefixes and suffix values are the same.
pub proof fn lemma_canonical_text_unique(p1: Seq<char>, u1: u128, p2: Seq<char>, u2: u128)
    requires
        is_valid_prefix(p1),
        is_valid_prefix(p2),
    ensures
        spec_render(p1, spec_encode(u1)) == spec_render(p2, spec_encode(u2)) <==> (p1 == p2 && u1
            == u2),
{
    lemma_decode_encode(u1);
    lemma_decode_encode(u2);
    let s1 = spec_render(p1, spec_encode(u1));
    let s2 = spec_render(p2, spec_encode(u2));
    if p1 == p2 && u1 == u2 {
        assert(s1 =~= s2);
    }
    if s1 == s2 {
        if p1.len() == 0 && p2.len() == 0 {
            assert(spec_encode(u1) == spec_encode(u2));
            assert(crate::base32::spec_text_val(spec_encode(u1)) == u1);
            assert(p1 =~= p2);
        } else if p1.len() > 0 && p2.len() > 0 {
            assert(s1.len() == p1.len() + 27);
            assert(s2.len() == p2.len() + 27);
            assert(p1.len() == p2.len());
            assert forall|j: int| 0 <= j < p1.len() implies p1[j] == p2[j] by {
                assert(s1[j] == p1[j]);
                assert(s2[j] == p2[j]);
            }
            assert(p1 =~= p2);
            assert forall|j: int| 0 <= j < 26 implies spec_encode(u1)[j] == spec_encode(u2)[j] by {
                assert(s1[p1.len() + 1 + j] == spec_encode(u1)[j]);
                assert(s2[p2.len() + 1 + j] == spec_encode(u2)[j]);
            }
            assert(spec_encode(u1) =~= spec_encode(u2));
            assert(crate::base32::spec_text_val(spec_encode(u1)) == u1);
        } else {
            // One prefix is empty and the other is not: the texts differ
            // already in length.
            assert(s1.len() != s2.len());
            assert(false);
        }
    }
}

/// Version 7 identifiers sort by time: whatever their prefixes, the
/// identifier whose suffix carries the smaller millisecond timestamp
/// orders below the other, because the suffix value is the primary key.
pub proof fn lemma_v7_identifier_order(au: u128, ap: Seq<char>, bu: u128, bp: Seq<char>)
    requires
        crate::uuid128::spec_millis(au) < crate::uuid128::spec_millis(bu),
    ensures
        spec_id_cmp(au, ap, bu, bp) == core::cmp::Ordering::Less,
{
    crate::uuid128::lemma_millis_order(au, bu);
}

/// An identifier: a validated prefix, a suffix, and the cached canonical
/// text the two render to.
#[derive(Debug, Hash)]
pub struct MagicTypeId {
    prefix: TypeIdPrefix,
    suffix: TypeIdSuffix,
    text: String,
}

impl MagicTypeId {
    #[verifier::type_invariant]
    spec fn type_inv(self) -> bool {
        self.text@ == spec_render(self.prefix@, spec_encode(self.suffix@))
    }

    /// The prefix text.
    pub closed spec fn spec_prefix(&self) -> Seq<char> {
        self.prefix@
    }

    /// The suffix's UUID value.
    pub closed spec fn spec_uuid(&self) -> u128 {
        self.suffix@
    }

    /// The canonical text.
    pub open spec fn spec_text(&self) -> Seq<char> {
        spec_render(self.spec_prefix(), spec_encode(self.spec_uuid()))
    }

    /// Joins a prefix and a suffix, caching their canonical text.
    pub fn new(prefix: TypeIdPrefix, suffix: TypeIdSuffix) -> (r: MagicTypeId)
        ensures
            r.spec_prefix() == prefix@,
            r.spec_uuid() == suffix@,
    {
        let text: String;
        if prefix.is_empty() {
            text = suffix.as_str().to_owned();
        } else {
            let mut t = prefix.as_str().to_owned();
            push_char(&mut t, '_');
            t.append(suffix.as_str());
            proof {
                assert(t@ =~= prefix@ + seq!['_'] + spec_encode(suffix@));
            }
            text = t;
        }
        MagicTypeId { prefix, suffix, text }
    }

    /// The prefix.
    pub fn prefix(&self) -> (r: &TypeIdPrefix)
        ensures
            r@ == self.spec_prefix(),
    {
        &self.prefix
    }

    /// The suffix.
    pub fn suffix(&self) -> (r: &TypeIdSuffix)
        ensures
            r@ == self.spec_uuid(),
    {
        &self.suffix
    }

    /// The cached canonical text.
    pub fn as_str(&self) -> (r: &str)
        ensures
            r@ == self.spec_text(),
    {
        proof {
            use_type_invariant(self);
        }
        self.text.as_str()
    }

    /// Parses an identifier: the text right of the last underscore is the
    /// suffix and the text left of it the prefix; without an underscore
    /// the whole text is the suffix and the prefix is empty. On success
    /// the cached text equals the input.
    pub fn parse(s: &str) -> (r: Result<MagicTypeId, MagicTypeIdError>)
        ensures
            r is Ok <==> spec_parse_id(s@) is Ok,
            r matches Ok(id) ==> spec_parse_id(s@) matches Ok(pu) && id.spec_prefix() == pu.0
                && id.spec_uuid() == pu.1 && id.spec_text() == s@,
            r matches Err(e) ==> spec_parse_id(s@) == Err::<(Seq<char>, u128), MagicTypeIdError>(e),
    {
        let n = s.unicode_len();
        match last_underscore_pos(s) {
            Some(i) => {
                if i == 0 {
                    return Err(MagicTypeIdError::Prefix(ValidationError::InvalidStartCharacter));
                }
                proof {
                    lemma_last_underscore_props(s@);
                }
                let prefix_part = s.substring_char(0, i);
                let suffix_part = s.substring_char(i + 1, n);
                match TypeIdPrefix::validate(prefix_part) {
                    Err(e) => Err(MagicTypeIdError::Prefix(e)),
                    Ok(p) => match TypeIdSuffix::parse_str(suffix_part) {
                        Err(e) => Err(MagicTypeIdError::Suffix(e)),
                        Ok(x) => {
                            proof {
                                assert(s@ =~= s@.take(i as int) + seq!['_'] + s@.skip(i as int + 1));
                            }
                            Ok(MagicTypeId { prefix: p, suffix: x, text: s.to_owned() })
                        },
                    },
                }
            },
            None => match TypeIdSuffix::parse_str(s) {
                Err(e) => Err(MagicTypeIdError::Suffix(e)),
                Ok(x) => {
                    proof {
                        assert(Seq::<char>::empty() =~= Seq::<char>::empty());
                    }
                    Ok(MagicTypeId { prefix: TypeIdPrefix::empty(), suffix: x, text: s.to_owned() })
                },
            },
        }
    }
}

/// The position of the last underscore in the string, if any.
pub fn last_underscore_pos(s: &str) -> (r: Option<usize>)
    ensures
        r matches Some(i) ==> spec_last_underscore(s@) == Some(i as int) && i < s@.len(),
        r is None ==> spec_last_underscore(s@) is None,
{
    let n = s.unicode_len();
    proof {
        assert(s@.take(n as int) =~= s@);
    }
    let mut i: usize = n;
    while i > 0
        invariant
            i <= n,
            n == s@.len(),
            spec_last_underscore(s@) == spec_last_underscore(s@.take(i as int)),
        decreases i,
    {
        let c = s.get_char(i - 1);
        proof {
            assert(s@.take(i as int).last() == s@[i as int - 1]);
            assert(s@.take(i as int).drop_last() =~= s@.take(i as int - 1));
        }
        if c == '_' {
            return Some(i - 1);
        }
        i -= 1;
    }
    None
}

impl Clone for MagicTypeId {
    /// An identical identifier.
    fn clone(&self) -> (r: Self)
        ensures
            r.spec_prefix() == self.spec_prefix(),
            r.spec_uuid() == self.spec_uuid(),
    {
        proof {
            use_type_invariant(self);
        }
        MagicTypeId {
            prefix: self.prefix.clone(),
            suffix: self.suffix.clone(),
            text: self.text.clone(),
        }
    }
}

impl PartialEq for MagicTypeId {
    /// Identifiers are equal exactly when prefix and suffix are equal —
    /// equivalently, when their canonical texts are equal.
    fn eq(&self, other: &Self) -> (r: bool) {
        let bits_eq = self.suffix.to_uuid() == other.suffix.to_uuid();
        let pc = lex_cmp(self.prefix.as_str(), other.prefix.as_str());
        proof {
            lemma_lex_cmp_eq(self.prefix@, other.prefix@);
        }
        bits_eq && matches!(pc, core::cmp::Ordering::Equal)
    }
}

impl vstd::std_specs::cmp::PartialEqSpecImpl for MagicTypeId {
    open spec fn obeys_eq_spec() -> bool {
        true
    }

    open spec fn eq_spec(&self, other: &MagicTypeId) -> bool {
        self.spec_prefix() == other.spec_prefix() && self.spec_uuid() == other.spec_uuid()
    }
}

impl core::cmp::Eq for MagicTypeId {

}

impl PartialOrd for MagicTypeId {
    /// The identifier order: by suffix value first — for version 7
    /// suffixes, time order — and by prefix text on equal suffixes.
    fn partial_cmp(&self, other: &Self) -> (r: Option<core::cmp::Ordering>) {
        let su = self.suffix.to_uuid();
        let ou = other.suffix.to_uuid();
        if su < ou {
            Some(core::cmp::Ordering::Less)
        } else if su > ou {
            Some(core::cmp::Ordering::Greater)
        } else {
            Some(lex_cmp(self.prefix.as_str(), other.prefix.as_str()))
        }
    }
}

impl vstd::std_specs::cmp::PartialOrdSpecImpl for MagicTypeId {
    open spec fn obeys_partial_cmp_spec() -> bool {
        true
    }

    open spec fn partial_cmp_spec(&self, other: &MagicTypeId) -> Option<core::cmp::Ordering> {
        Some(spec_id_cmp(self.spec_uuid(), self.spec_prefix(), other.spec_uuid(),
            other.spec_prefix()))
    }
}

impl core::str::FromStr for MagicTypeId {
    type Err = MagicTypeIdError;

    /// Parses an identifier from its text form.
    fn from_str(s: &str) -> Result<MagicTypeId, MagicTypeIdError> {
        MagicTypeId::parse(s)
    }
}

} // verus!
