//! TypeID identifiers: a lowercase type prefix joined by an underscore to a
//! 26-character Crockford-base32 encoding of a 128-bit UUID.
//!
//! The pieces, leaves first: [`radix`] holds the positional-numeral facts
//! the codecs rest on; [`base32`] maps a 128-bit value to and from its
//! 26-character suffix text; [`hex`] does the same for the hyphenated UUID
//! text form; [`uuid128`] reads the version and variant bit fields;
//! [`generate`] produces fresh UUIDs of versions 3 to 7 through the `uuid`
//! crate; [`prefix`] validates and sanitizes type tags; [`suffix`] and
//! [`magic_type_id`] combine codec, tag and UUID into the parsed,
//! canonically rendered identifier; and [`magic_type_id_ext`] offers the
//! same operations directly on strings.

pub mod base32;
pub mod errors;
pub mod generate;
pub mod hex;
pub mod magic_type_id;
pub mod magic_type_id_ext;
pub mod namespace;
pub mod prefix;
pub mod radix;
pub mod suffix;
pub mod text;
pub mod uuid128;

pub use crate::errors::{DecodeError, InvalidSuffixReason, MagicTypeIdError, ValidationError};
pub use crate::generate::{Nil, UuidVersion, V3, V4, V5, V6, V7};
pub use crate::magic_type_id::MagicTypeId;
pub use crate::magic_type_id_ext::MagicTypeIdExt;
pub use crate::namespace::NamespaceId;
pub use crate::prefix::{TypeIdPrefix, create_prefix_sanitized, try_create_prefix};
pub use crate::suffix::TypeIdSuffix;
