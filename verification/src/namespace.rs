//! Namespace identifiers for version 3 and version 5 UUID generation,
//! including the four well-known namespaces of RFC 4122.

use crate::errors::DecodeError;
use crate::hex::{spec_parse_uuid_text, spec_uuid_text, parse_uuid_text, uuid_text};
use vstd::prelude::*;

verus! {

/// A namespace identifier: a UUID used as the seed of name-based (version
/// 3 and version 5) UUID generation.
#[derive(Debug, Clone, Copy, PartialEq, Eq, Hash)]
pub struct NamespaceId {
    bits: u128,
}

impl View for NamespaceId {
    type V = u128;

    closed spec fn view(&self) -> u128 {
        self.bits
    }
}

/// The DNS namespace of RFC 4122, `6ba7b810-9dad-11d1-80b4-00c04fd430c8`.
pub open spec fn spec_dns_namespace() -> u128 {
    0x6ba7b810_9dad_11d1_80b4_00c04fd430c8
}

/// The URL namespace of RFC 4122, `6ba7b811-9dad-11d1-80b4-00c04fd430c8`.
pub open spec fn spec_url_namespace() -> u128 {
    0x6ba7b811_9dad_11d1_80b4_00c04fd430c8
}

/// The OID namespace of RFC 4122, `6ba7b812-9dad-11d1-80b4-00c04fd430c8`.
pub open spec fn spec_oid_namespace() -> u128 {
    0x6ba7b812_9dad_11d1_80b4_00c04fd430c8
}

/// The X.500 namespace of RFC 4122, `6ba7b814-9dad-11d1-80b4-00c04fd430c8`.
pub open spec fn spec_x500_namespace() -> u128 {
    0x6ba7b814_9dad_11d1_80b4_00c04fd430c8
}

impl NamespaceId {
    /// Wraps a UUID value as a namespace identifier.
    pub fn new(uuid: u128) -> (r: NamespaceId)
        ensures
            r@ == uuid,
    {
        NamespaceId { bits: uuid }
    }

    /// The namespace UUID value.
    pub fn as_uuid(&self) -> (r: u128)
        ensures
            r == self@,
    {
        self.bits
    }

    /// The namespace UUID value, consuming the identifier.
    pub fn into_uuid(self) -> (r: u128)
        ensures
            r == self@,
    {
        self.bits
    }

    /// The DNS namespace of RFC 4122, for domain names.
    pub fn dns() -> (r: NamespaceId)
        ensures
            r@ == spec_dns_namespace(),
    {
        NamespaceId { bits: 0x6ba7b810_9dad_11d1_80b4_00c04fd430c8 }
    }

    /// The URL namespace of RFC 4122, for URLs.
    pub fn url() -> (r: NamespaceId)
        ensures
            r@ == spec_url_namespace(),
    {
        NamespaceId { bits: 0x6ba7b811_9dad_11d1_80b4_00c04fd430c8 }
    }

    /// The OID namespace of RFC 4122, for ISO object identifiers.
    pub fn oid() -> (r: NamespaceId)
        ensures
            r@ == spec_oid_namespace(),
    {
        NamespaceId { bits: 0x6ba7b812_9dad_11d1_80b4_00c04fd430c8 }
    }

    /// The X.500 namespace of RFC 4122, for X.500 distinguished names.
    pub fn x500() -> (r: NamespaceId)
        ensures
            r@ == spec_x500_namespace(),
    {
        NamespaceId { bits: 0x6ba7b814_9dad_11d1_80b4_00c04fd430c8 }
    }

    /// Parses a namespace from the hyphenated UUID text form, either case;
    /// anything else is rejected with the raw input.
    pub fn parse(s: &str) -> (r: Result<NamespaceId, DecodeError>)
        ensures
            r is Ok <==> spec_parse_uuid_text(s@) is Some,
            r matches Ok(n) ==> n@ == spec_parse_uuid_text(s@)->Some_0,
            r matches Err(e) ==> e matches DecodeError::InvalidNamespace(raw) && raw@ == s@,
    {
        match parse_uuid_text(s) {
            Some(u) => Ok(NamespaceId { bits: u }),
            None => Err(DecodeError::InvalidNamespace(s.to_owned())),
        }
    }

    /// The hyphenated lowercase text of the namespace UUID.
    pub fn to_uuid_string(&self) -> (r: String)
        ensures
            r@ == spec_uuid_text(self@),
    {
        uuid_text(self.bits)
    }
}

impl core::str::FromStr for NamespaceId {
    type Err = DecodeError;

    /// Parses a namespace from the hyphenated UUID text form.
    fn from_str(s: &str) -> Result<NamespaceId, DecodeError> {
        NamespaceId::parse(s)
    }
}

} // verus!
