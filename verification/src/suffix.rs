//! The suffix: a 128-bit UUID paired with its cached 26-character
//! Crockford base32 text. Parsing decodes the text and, for the recognized
//! versions 3 to 7, additionally demands the RFC 4122 variant; the nil
//! UUID and unrecognized versions pass the codec unchecked.

use crate::base32::{
    decode, encode, lemma_decode_encode, lemma_encode_decode, spec_decode, spec_encode,
};
use crate::errors::DecodeError;
use crate::generate::{UuidVersion, spec_v3_uuid, spec_v5_uuid, uuid_v3, uuid_v5};
use crate::hex::{spec_uuid_text, uuid_text};
use crate::namespace::NamespaceId;
use crate::uuid128::{spec_millis, spec_variant, spec_version, lemma_millis_order, variant_of,
    version_of};
use vstd::prelude::*;

verus! {

/// One of the UUID versions this library generates: 3, 4, 5, 6 or 7.
pub open spec fn is_recognized_version(v: int) -> bool {
    v == 3 || v == 4 || v == 5 || v == 6 || v == 7
}

/// The variant rule a parsed suffix must satisfy: a UUID of a recognized
/// version carries the RFC 4122 variant. The nil UUID and unrecognized
/// versions are exempt.
pub open spec fn spec_variant_ok(u: u128) -> bool {
    is_recognized_version(spec_version(u)) ==> spec_variant(u) == 2
}

/// What parsing a suffix yields: the decoded value, or the first error in
/// the order length, character, overflow, variant.
pub open spec fn spec_parse_suffix(s: Seq<char>) -> Result<u128, DecodeError> {
    match spec_decode(s) {
        Ok(u) => if !spec_variant_ok(u) {
            Err(DecodeError::InvalidVariant)
        } else {
            Ok(u)
        },
        Err(e) => Err(e),
    }
}

/// A suffix: a 128-bit UUID and its cached canonical base32 text.
#[derive(Debug, Hash)]
pub struct TypeIdSuffix {
    bits: u128,
    text: String,
}

impl View for TypeIdSuffix {
    type V = u128;

    closed spec fn view(&self) -> u128 {
        self.bits
    }
}

impl PartialEq for TypeIdSuffix {
    /// Suffixes are equal exactly when they wrap the same UUID.
    fn eq(&self, other: &Self) -> (r: bool) {
        self.bits == other.bits
    }
}

impl vstd::std_specs::cmp::PartialEqSpecImpl for TypeIdSuffix {
    open spec fn obeys_eq_spec() -> bool {
        true
    }

    open spec fn eq_spec(&self, other: &TypeIdSuffix) -> bool {
        self@ == other@
    }
}

impl core::cmp::Eq for TypeIdSuffix {

}

impl Clone for TypeIdSuffix {
    /// An identical suffix.
    fn clone(&self) -> (r: Self)
        ensures
            r@ == self@,
    {
        proof {
            use_type_invariant(self);
        }
        TypeIdSuffix { bits: self.bits, text: self.text.clone() }
    }
}

impl TypeIdSuffix {
    #[verifier::type_invariant]
    spec fn type_inv(self) -> bool {
        self.text@ == spec_encode(self.bits)
    }

    /// Wraps a UUID unchanged, caching its canonical text.
    pub fn from_uuid(uuid: u128) -> (r: TypeIdSuffix)
        ensures
            r@ == uuid,
    {
        TypeIdSuffix { bits: uuid, text: encode(uuid) }
    }

    /// Generates a fresh suffix of the given version: the nil version
    /// yields the all-zero UUID, and every other version carries its
    /// version nibble and the RFC 4122 variant.
    pub fn new<V: UuidVersion>() -> (r: TypeIdSuffix)
        ensures
            spec_version(r@) == V::spec_version_num(),
            V::spec_version_num() == 0 ==> r@ == 0,
            V::spec_version_num() != 0 ==> spec_variant(r@) == 2,
    {
        TypeIdSuffix::from_uuid(V::generate())
    }

    /// The MD5 name-based suffix of a namespace and a name: the same
    /// inputs always yield the same suffix, with version 3 and the
    /// RFC 4122 variant.
    pub fn new_v3(namespace: NamespaceId, name: &[u8]) -> (r: TypeIdSuffix)
        ensures
            r@ == spec_v3_uuid(namespace@, name@),
            spec_version(r@) == 3,
            spec_variant(r@) == 2,
    {
        TypeIdSuffix::from_uuid(uuid_v3(namespace.as_uuid(), name))
    }

    /// The SHA-1 name-based suffix of a namespace and a name: the same
    /// inputs always yield the same suffix, with version 5 and the
    /// RFC 4122 variant.
    pub fn new_v5(namespace: NamespaceId, name: &[u8]) -> (r: TypeIdSuffix)
        ensures
            r@ == spec_v5_uuid(namespace@, name@),
            spec_version(r@) == 5,
            spec_variant(r@) == 2,
    {
        TypeIdSuffix::from_uuid(uuid_v5(namespace.as_uuid(), name))
    }

    /// Parses a 26-character base32 text into a suffix, rejecting a wrong
    /// length, a character outside the alphabet, a leading character of 8
    /// or more, and a recognized version without the RFC 4122 variant.
    /// On success the cached text equals the input.
    pub fn parse_str(s: &str) -> (r: Result<TypeIdSuffix, DecodeError>)
        ensures
            r is Ok <==> spec_parse_suffix(s@) is Ok,
            r matches Ok(x) ==> x@ == spec_parse_suffix(s@)->Ok_0 && spec_encode(x@) == s@,
            r matches Err(e) ==> spec_parse_suffix(s@) == Err::<u128, DecodeError>(e),
    {
        match decode(s) {
            Ok(u) => {
                let v = version_of(u);
                if (v == 3 || v == 4 || v == 5 || v == 6 || v == 7) && variant_of(u) != 2 {
                    return Err(DecodeError::InvalidVariant);
                }
                proof {
                    crate::base32::lemma_decode_ok_canonical(s@);
                    lemma_encode_decode(s@);
                }
                Ok(TypeIdSuffix { bits: u, text: s.to_owned() })
            },
            Err(e) => Err(e),
        }
    }

    /// The wrapped UUID.
    pub fn to_uuid(&self) -> (r: u128)
        ensures
            r == self@,
    {
        self.bits
    }

    /// The cached canonical 26-character text.
    pub fn as_str(&self) -> (r: &str)
        ensures
            r@ == spec_encode(self@),
    {
        proof {
            use_type_invariant(self);
        }
        self.text.as_str()
    }

    /// The hyphenated lowercase text of the wrapped UUID.
    pub fn uuid_str(&self) -> (r: String)
        ensures
            r@ == spec_uuid_text(self@),
    {
        uuid_text(self.bits)
    }

    /// The version field of the wrapped UUID, as an integer in `0..16`.
    pub fn version(&self) -> (v: u8)
        ensures
            v as int == spec_version(self@),
            v < 16,
    {
        version_of(self.bits)
    }
}

impl core::default::Default for TypeIdSuffix {
    /// A fresh version 7 suffix.
    fn default() -> (r: TypeIdSuffix)
        ensures
            spec_version(r@) == 7,
            spec_variant(r@) == 2,
    {
        TypeIdSuffix::new::<crate::generate::V7>()
    }
}

impl core::str::FromStr for TypeIdSuffix {
    type Err = DecodeError;

    /// Parses a 26-character base32 text into a suffix.
    fn from_str(s: &str) -> Result<TypeIdSuffix, DecodeError> {
        TypeIdSuffix::parse_str(s)
    }
}

/// Every 128-bit value that satisfies the variant rule round-trips: its
/// canonical text parses back to the same value.
pub proof fn lemma_suffix_round_trip(u: u128)
    requires
        spec_variant_ok(u),
    ensures
        spec_parse_suffix(spec_encode(u)) == Ok::<u128, DecodeError>(u),
{
    lemma_decode_encode(u);
}

/// Parsing preserves the version field: the suffix of a UUID of any
/// version, recognized or not, decodes back with that version, and the nil
/// UUID with version 0.
pub proof fn lemma_version_preserved(u: u128)
    requires
        spec_variant_ok(u),
    ensures
        spec_parse_suffix(spec_encode(u)) matches Ok(v) && spec_version(v) == spec_version(u),
        u == 0 ==> spec_version(u) == 0,
{
    lemma_suffix_round_trip(u);
}

/// Name-based generation is deterministic: any two version 3 suffixes of
/// the same namespace and name carry the same UUID, on every run and every
/// machine, and likewise any two version 5 suffixes. This is immediate
/// from the contracts: each is a function of namespace and name alone.
pub proof fn lemma_name_based_deterministic(ns: u128, name: Seq<u8>, a: u128, b: u128)
    requires
        a == spec_v3_uuid(ns, name) || a == spec_v5_uuid(ns, name),
        b == spec_v3_uuid(ns, name) || b == spec_v5_uuid(ns, name),
    ensures
        a == spec_v3_uuid(ns, name) && b == spec_v3_uuid(ns, name) ==> a == b,
        a == spec_v5_uuid(ns, name) && b == spec_v5_uuid(ns, name) ==> a == b,
{
}

/// Of two version 7 suffixes, the one with the smaller millisecond
/// timestamp is the smaller 128-bit value: big-endian suffix order follows
/// time.
pub proof fn lemma_v7_time_order(a: u128, b: u128)
    requires
        spec_millis(a) < spec_millis(b),
    ensures
        a < b,
{
    lemma_millis_order(a, b);
}

} // verus!
