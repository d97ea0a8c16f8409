//! Identifier operations on plain strings: extracting and validating the
//! halves of an identifier text, and creating identifiers that take the
//! string as their prefix, sanitized or strictly validated.

use crate::base32::spec_encode;
use crate::errors::{DecodeError, InvalidSuffixReason, MagicTypeIdError};
use crate::generate::{UuidVersion, spec_v3_uuid, spec_v5_uuid};
use crate::hex::{spec_uuid_text, uuid_text};
use crate::magic_type_id::{MagicTypeId, spec_last_underscore, last_underscore_pos};
use crate::namespace::NamespaceId;
use crate::prefix::{TypeIdPrefix, spec_sanitize, spec_validate};
use crate::suffix::{TypeIdSuffix, spec_parse_suffix};
use crate::uuid128::{spec_variant, spec_version};
use vstd::prelude::*;
use vstd::string::StrSliceExecFns;

verus! {

/// What extracting the prefix half of a text yields: the text left of the
/// last underscore, strictly validated; without an underscore, or on the
/// empty string, the empty prefix.
pub open spec fn spec_ext_prefix(s: Seq<char>) -> Result<Seq<char>, MagicTypeIdError> {
    if s.len() == 0 {
        Ok(Seq::empty())
    } else {
        match spec_last_underscore(s) {
            Some(i) => match spec_validate(s.take(i)) {
                Ok(_) => Ok(s.take(i)),
                Err(e) => Err(MagicTypeIdError::Prefix(e)),
            },
            None => Ok(Seq::empty()),
        }
    }
}

/// What extracting the suffix half of a text yields: the text right of
/// the last underscore — the whole text without one — decoded as a
/// suffix; the empty string is rejected outright.
pub open spec fn spec_ext_suffix(s: Seq<char>) -> Result<u128, MagicTypeIdError> {
    if s.len() == 0 {
        Err(
            MagicTypeIdError::Suffix(
                DecodeError::InvalidSuffix(InvalidSuffixReason::InvalidLength),
            ),
        )
    } else {
        let part = match spec_last_underscore(s) {
            Some(i) => s.skip(i + 1),
            None => s,
        };
        match spec_parse_suffix(part) {
            Ok(u) => Ok(u),
            Err(e) => Err(MagicTypeIdError::Suffix(e)),
        }
    }
}

/// Identifier operations on string-like values.
pub trait MagicTypeIdExt: View<V = Seq<char>> {
    /// Extracts and validates the prefix half, as a `TypeIdPrefix`.
    fn prefix(&self) -> (r: Result<TypeIdPrefix, MagicTypeIdError>)
        ensures
            r is Ok <==> spec_ext_prefix(self.view()) is Ok,
            r matches Ok(p) ==> p@ == spec_ext_prefix(self.view())->Ok_0,
            r matches Err(e) ==> spec_ext_prefix(self.view()) == Err::<Seq<char>, MagicTypeIdError>(
                e,
            ),
    ;

    /// Extracts and decodes the suffix half, as a `TypeIdSuffix`.
    fn suffix(&self) -> (r: Result<TypeIdSuffix, MagicTypeIdError>)
        ensures
            r is Ok <==> spec_ext_suffix(self.view()) is Ok,
            r matches Ok(x) ==> x@ == spec_ext_suffix(self.view())->Ok_0,
            r matches Err(e) ==> spec_ext_suffix(self.view()) == Err::<u128, MagicTypeIdError>(e),
    ;

    /// Extracts the suffix half and decodes it to a UUID value.
    fn uuid(&self) -> (r: Result<u128, MagicTypeIdError>)
        ensures
            r is Ok <==> spec_ext_suffix(self.view()) is Ok,
            r matches Ok(u) ==> u == spec_ext_suffix(self.view())->Ok_0,
            r matches Err(e) ==> spec_ext_suffix(self.view()) == Err::<u128, MagicTypeIdError>(e),
    ;

    /// Extracts and validates the prefix half, as its text.
    fn prefix_str(&self) -> (r: Result<String, MagicTypeIdError>)
        ensures
            r is Ok <==> spec_ext_prefix(self.view()) is Ok,
            r matches Ok(p) ==> p@ == spec_ext_prefix(self.view())->Ok_0,
            r matches Err(e) ==> spec_ext_prefix(self.view()) == Err::<Seq<char>, MagicTypeIdError>(
                e,
            ),
    ;

    /// Extracts and decodes the suffix half, as its canonical text.
    fn suffix_str(&self) -> (r: Result<String, MagicTypeIdError>)
        ensures
            r is Ok <==> spec_ext_suffix(self.view()) is Ok,
            r matches Ok(t) ==> t@ == spec_encode(spec_ext_suffix(self.view())->Ok_0),
            r matches Err(e) ==> spec_ext_suffix(self.view()) == Err::<u128, MagicTypeIdError>(e),
    ;

    /// Extracts the suffix half and renders its UUID in the hyphenated
    /// hexadecimal form.
    fn uuid_str(&self) -> (r: Result<String, MagicTypeIdError>)
        ensures
            r is Ok <==> spec_ext_suffix(self.view()) is Ok,
            r matches Ok(t) ==> t@ == spec_uuid_text(spec_ext_suffix(self.view())->Ok_0),
            r matches Err(e) ==> spec_ext_suffix(self.view()) == Err::<u128, MagicTypeIdError>(e),
    ;

    /// An identifier with this string sanitized into the prefix and a
    /// fresh UUID of the given version as suffix.
    fn create_type_id<V: UuidVersion>(&self) -> (r: MagicTypeId)
        ensures
            r.spec_prefix() == spec_sanitize(self.view()),
            spec_version(r.spec_uuid()) == V::spec_version_num(),
            V::spec_version_num() == 0 ==> r.spec_uuid() == 0,
            V::spec_version_num() != 0 ==> spec_variant(r.spec_uuid()) == 2,
    ;

    /// An identifier with this string sanitized into the prefix and the
    /// given suffix.
    fn create_type_id_with_suffix<V: UuidVersion>(&self, suffix: TypeIdSuffix) -> (r: MagicTypeId)
        ensures
            r.spec_prefix() == spec_sanitize(self.view()),
            r.spec_uuid() == suffix@,
    ;

    /// An identifier with this string validated strictly as the prefix
    /// and a fresh UUID of the given version as suffix; an invalid prefix
    /// is the one reason to fail.
    fn try_create_type_id<V: UuidVersion>(&self) -> (r: Result<MagicTypeId, MagicTypeIdError>)
        ensures
            r is Ok <==> spec_validate(self.view()) is Ok,
            r matches Ok(id) ==> id.spec_prefix() == self.view() && spec_version(id.spec_uuid())
                == V::spec_version_num() && (V::spec_version_num() != 0 ==> spec_variant(
                id.spec_uuid(),
            ) == 2) && (V::spec_version_num() == 0 ==> id.spec_uuid() == 0),
            r matches Err(e) ==> e matches MagicTypeIdError::Prefix(v) && spec_validate(self.view())
                == Err::<(), crate::errors::ValidationError>(v),
    ;

    /// An identifier with this string validated strictly as the prefix
    /// and the given suffix; an invalid prefix is the one reason to fail.
    fn try_create_type_id_with_suffix<V: UuidVersion>(&self, suffix: TypeIdSuffix) -> (r: Result<
        MagicTypeId,
        MagicTypeIdError,
    >)
        ensures
            r is Ok <==> spec_validate(self.view()) is Ok,
            r matches Ok(id) ==> id.spec_prefix() == self.view() && id.spec_uuid() == suffix@,
            r matches Err(e) ==> e matches MagicTypeIdError::Prefix(v) && spec_validate(self.view())
                == Err::<(), crate::errors::ValidationError>(v),
    ;

    /// An identifier with this string sanitized into the prefix and the
    /// MD5 name-based suffix of the namespace and name: the same inputs
    /// always yield the same identifier.
    fn create_type_id_v3(&self, namespace: NamespaceId, name: &[u8]) -> (r: MagicTypeId)
        ensures
            r.spec_prefix() == spec_sanitize(self.view()),
            r.spec_uuid() == spec_v3_uuid(namespace@, name@),
            spec_version(r.spec_uuid()) == 3,
            spec_variant(r.spec_uuid()) == 2,
    ;

    /// An identifier with this string sanitized into the prefix and the
    /// SHA-1 name-based suffix of the namespace and name: the same inputs
    /// always yield the same identifier.
    fn create_type_id_v5(&self, namespace: NamespaceId, name: &[u8]) -> (r: MagicTypeId)
        ensures
            r.spec_prefix() == spec_sanitize(self.view()),
            r.spec_uuid() == spec_v5_uuid(namespace@, name@),
            spec_version(r.spec_uuid()) == 5,
            spec_variant(r.spec_uuid()) == 2,
    ;

    /// An identifier with this string validated strictly as the prefix
    /// and the MD5 name-based suffix of the namespace and name.
    fn try_create_type_id_v3(&self, namespace: NamespaceId, name: &[u8]) -> (r: Result<
        MagicTypeId,
        MagicTypeIdError,
    >)
        ensures
            r is Ok <==> spec_validate(self.view()) is Ok,
            r matches Ok(id) ==> id.spec_prefix() == self.view() && id.spec_uuid() == spec_v3_uuid(
                namespace@,
                name@,
            ),
            r matches Err(e) ==> e matches MagicTypeIdError::Prefix(v) && spec_validate(self.view())
                == Err::<(), crate::errors::ValidationError>(v),
    ;

    /// An identifier with this string validated strictly as the prefix
    /// and the SHA-1 name-based suffix of the namespace and name.
    fn try_create_type_id_v5(&self, namespace: NamespaceId, name: &[u8]) -> (r: Result<
        MagicTypeId,
        MagicTypeIdError,
    >)
        ensures
            r is Ok <==> spec_validate(self.view()) is Ok,
            r matches Ok(id) ==> id.spec_prefix() == self.view() && id.spec_uuid() == spec_v5_uuid(
                namespace@,
                name@,
            ),
            r matches Err(e) ==> e matches MagicTypeIdError::Prefix(v) && spec_validate(self.view())
                == Err::<(), crate::errors::ValidationError>(v),
    ;
}

impl MagicTypeIdExt for str {
    fn prefix(&self) -> (r: Result<TypeIdPrefix, MagicTypeIdError>) {
        if self.is_empty() {
            return Ok(TypeIdPrefix::empty());
        }
        match last_underscore_pos(self) {
            Some(i) => {
                let part = self.substring_char(0, i);
                match TypeIdPrefix::validate(part) {
                    Ok(p) => Ok(p),
                    Err(e) => Err(MagicTypeIdError::Prefix(e)),
                }
            },
            None => Ok(TypeIdPrefix::empty()),
        }
    }

    fn suffix(&self) -> (r: Result<TypeIdSuffix, MagicTypeIdError>) {
        let n = self.unicode_len();
        if n == 0 {
            return Err(
                MagicTypeIdError::Suffix(
                    DecodeError::InvalidSuffix(InvalidSuffixReason::InvalidLength),
                ),
            );
        }
        let part = match last_underscore_pos(self) {
            Some(i) => self.substring_char(i + 1, n),
            None => self,
        };
        match TypeIdSuffix::parse_str(part) {
            Ok(x) => Ok(x),
            Err(e) => Err(MagicTypeIdError::Suffix(e)),
        }
    }

    fn uuid(&self) -> (r: Result<u128, MagicTypeIdError>) {
        match self.suffix() {
            Ok(x) => Ok(x.to_uuid()),
            Err(e) => Err(e),
        }
    }

    fn prefix_str(&self) -> (r: Result<String, MagicTypeIdError>) {
        match self.prefix() {
            Ok(p) => Ok(p.as_str().to_owned()),
            Err(e) => Err(e),
        }
    }

    fn suffix_str(&self) -> (r: Result<String, MagicTypeIdError>) {
        match self.suffix() {
            Ok(x) => Ok(x.as_str().to_owned()),
            Err(e) => Err(e),
        }
    }

    fn uuid_str(&self) -> (r: Result<String, MagicTypeIdError>) {
        match self.uuid() {
            Ok(u) => Ok(uuid_text(u)),
            Err(e) => Err(e),
        }
    }

    fn create_type_id<V: UuidVersion>(&self) -> (r: MagicTypeId) {
        let prefix = TypeIdPrefix::sanitize(self);
        let suffix = TypeIdSuffix::new::<V>();
        MagicTypeId::new(prefix, suffix)
    }

    fn create_type_id_with_suffix<V: UuidVersion>(&self, suffix: TypeIdSuffix) -> (r: MagicTypeId) {
        let prefix = TypeIdPrefix::sanitize(self);
        MagicTypeId::new(prefix, suffix)
    }

    fn try_create_type_id<V: UuidVersion>(&self) -> (r: Result<MagicTypeId, MagicTypeIdError>) {
        match TypeIdPrefix::validate(self) {
            Ok(p) => {
                let suffix = TypeIdSuffix::new::<V>();
                Ok(MagicTypeId::new(p, suffix))
            },
            Err(e) => Err(MagicTypeIdError::Prefix(e)),
        }
    }

    fn try_create_type_id_with_suffix<V: UuidVersion>(&self, suffix: TypeIdSuffix) -> (r: Result<
        MagicTypeId,
        MagicTypeIdError,
    >) {
        match TypeIdPrefix::validate(self) {
            Ok(p) => Ok(MagicTypeId::new(p, suffix)),
            Err(e) => Err(MagicTypeIdError::Prefix(e)),
        }
    }

    fn create_type_id_v3(&self, namespace: NamespaceId, name: &[u8]) -> (r: MagicTypeId) {
        let prefix = TypeIdPrefix::sanitize(self);
        let suffix = TypeIdSuffix::new_v3(namespace, name);
        MagicTypeId::new(prefix, suffix)
    }

    fn create_type_id_v5(&self, namespace: NamespaceId, name: &[u8]) -> (r: MagicTypeId) {
        let prefix = TypeIdPrefix::sanitize(self);
        let suffix = TypeIdSuffix::new_v5(namespace, name);
        MagicTypeId::new(prefix, suffix)
    }

    fn try_create_type_id_v3(&self, namespace: NamespaceId, name: &[u8]) -> (r: Result<
        MagicTypeId,
        MagicTypeIdError,
    >) {
        match TypeIdPrefix::validate(self) {
            Ok(p) => Ok(MagicTypeId::new(p, TypeIdSuffix::new_v3(namespace, name))),
            Err(e) => Err(MagicTypeIdError::Prefix(e)),
        }
    }

    fn try_create_type_id_v5(&self, namespace: NamespaceId, name: &[u8]) -> (r: Result<
        MagicTypeId,
        MagicTypeIdError,
    >) {
        match TypeIdPrefix::validate(self) {
            Ok(p) => Ok(MagicTypeId::new(p, TypeIdSuffix::new_v5(namespace, name))),
            Err(e) => Err(MagicTypeIdError::Prefix(e)),
        }
    }
}

} // verus!
