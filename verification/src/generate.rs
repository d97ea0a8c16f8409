//! UUID generation: versions 3 and 5 (name-based), 4 (random), 6 and 7
//! (time-ordered), and the nil UUID. The bits come from the `uuid` crate;
//! everything this library then does with them is verified against the
//! version and variant facts stated here.

use crate::uuid128::{spec_variant, spec_version};
use vstd::prelude::*;

verus! {

/// The MD5 name-based UUID of a namespace and a name, a pure function of
/// the two; `uuid::Uuid::new_v3` computes it.
pub uninterp spec fn spec_v3_uuid(ns: u128, name: Seq<u8>) -> u128;

/// The SHA-1 name-based UUID of a namespace and a name, a pure function of
/// the two; `uuid::Uuid::new_v5` computes it.
pub uninterp spec fn spec_v5_uuid(ns: u128, name: Seq<u8>) -> u128;

/// Relies on `uuid::Uuid::new_v3`: the MD5 name-based UUID of the
/// namespace and name, a deterministic function of the two alone, stamped
/// with version 3 and the RFC 4122 variant.
#[verifier::external_body]
pub(crate) fn uuid_v3(ns: u128, name: &[u8]) -> (r: u128)
    ensures
        r == spec_v3_uuid(ns, name@),
        spec_version(r) == 3,
        spec_variant(r) == 2,
{
    uuid::Uuid::new_v3(&uuid::Uuid::from_u128(ns), name).as_u128()
}

/// Relies on `uuid::Uuid::new_v5`: the SHA-1 name-based UUID of the
/// namespace and name, a deterministic function of the two alone, stamped
/// with version 5 and the RFC 4122 variant.
#[verifier::external_body]
pub(crate) fn uuid_v5(ns: u128, name: &[u8]) -> (r: u128)
    ensures
        r == spec_v5_uuid(ns, name@),
        spec_version(r) == 5,
        spec_variant(r) == 2,
{
    uuid::Uuid::new_v5(&uuid::Uuid::from_u128(ns), name).as_u128()
}

/// Relies on `uuid::Uuid::new_v4`: random bits from the operating system,
/// stamped with version 4 and the RFC 4122 variant; nothing else holds of
/// them.
#[verifier::external_body]
pub(crate) fn uuid_v4() -> (r: u128)
    ensures
        spec_version(r) == 4,
        spec_variant(r) == 2,
{
    uuid::Uuid::new_v4().as_u128()
}

/// Relies on `uuid::Uuid::now_v7`: the current Unix millisecond and random
/// bits, stamped with version 7 and the RFC 4122 variant; the clock decides
/// the rest, so nothing else holds of it.
#[verifier::external_body]
pub(crate) fn uuid_v7_now() -> (r: u128)
    ensures
        spec_version(r) == 7,
        spec_variant(r) == 2,
{
    uuid::Uuid::now_v7().as_u128()
}

/// Relies on `uuid::Uuid::now_v6`: the current timestamp rearranged to
/// sort lexically, with the given node bits, stamped with version 6 and
/// the RFC 4122 variant; the clock decides the rest.
#[verifier::external_body]
pub(crate) fn uuid_v6_now(node: &[u8; 6]) -> (r: u128)
    ensures
        spec_version(r) == 6,
        spec_variant(r) == 2,
{
    uuid::Uuid::now_v6(node).as_u128()
}

/// A marker for a UUID version that can be generated without arguments.
///
/// `spec_version_num` is the version nibble that generated values carry;
/// generated nil values are zero, and generated versioned values carry the
/// RFC 4122 variant.
pub trait UuidVersion {
    spec fn spec_version_num() -> int;

    fn generate() -> (u: u128)
        ensures
            spec_version(u) == Self::spec_version_num(),
            Self::spec_version_num() == 0 ==> u == 0,
            Self::spec_version_num() != 0 ==> spec_variant(u) == 2,
    ;
}

/// The nil UUID: all 128 bits zero.
pub struct Nil;

/// Version 3: MD5 name-based. Generated without arguments, it hashes the
/// empty name under the nil namespace; use the name-based constructors to
/// choose the inputs.
pub struct V3;

/// Version 4: random.
pub struct V4;

/// Version 5: SHA-1 name-based. Generated without arguments, it hashes the
/// empty name under the nil namespace; use the name-based constructors to
/// choose the inputs.
pub struct V5;

/// Version 6: timestamp rearranged to sort lexically, with random node bits.
pub struct V6;

/// Version 7: Unix millisecond timestamp followed by random bits.
pub struct V7;

impl UuidVersion for Nil {
    open spec fn spec_version_num() -> int {
        0
    }

    fn generate() -> (u: u128) {
        0
    }
}

impl UuidVersion for V3 {
    open spec fn spec_version_num() -> int {
        3
    }

    fn generate() -> (u: u128) {
        let name: [u8; 0] = [];
        uuid_v3(0, name.as_slice())
    }
}

impl UuidVersion for V4 {
    open spec fn spec_version_num() -> int {
        4
    }

    fn generate() -> (u: u128) {
        uuid_v4()
    }
}

impl UuidVersion for V5 {
    open spec fn spec_version_num() -> int {
        5
    }

    fn generate() -> (u: u128) {
        let name: [u8; 0] = [];
        uuid_v5(0, name.as_slice())
    }
}

impl UuidVersion for V6 {
    open spec fn spec_version_num() -> int {
        6
    }

    fn generate() -> (u: u128) {
        let mut bits = uuid_v4();
        let b0 = (bits % 256) as u8;
        bits = bits / 256;
        let b1 = (bits % 256) as u8;
        bits = bits / 256;
        let b2 = (bits % 256) as u8;
        bits = bits / 256;
        let b3 = (bits % 256) as u8;
        bits = bits / 256;
        let b4 = (bits % 256) as u8;
        bits = bits / 256;
        let b5 = (bits % 256) as u8;
        let node: [u8; 6] = [b0, b1, b2, b3, b4, b5];
        uuid_v6_now(&node)
    }
}

impl UuidVersion for V7 {
    open spec fn spec_version_num() -> int {
        7
    }

    fn generate() -> (u: u128) {
        uuid_v7_now()
    }
}

} // verus!
