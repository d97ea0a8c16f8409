//! Error values for prefix validation, suffix decoding, and identifier
//! parsing. All failures are reported synchronously as values; nothing is
//! recovered internally.

use vstd::prelude::*;
use vstd::string::StringExecFns;

verus! {

/// Why a string is not a valid type prefix.
#[derive(Debug, Clone, PartialEq, Eq)]
pub enum ValidationError {
    /// The input is longer than 63 characters; holds the actual length.
    TooLong(usize),
    /// A character outside `[a-z_]`; holds the character and its position.
    InvalidCharacter(char, usize),
    /// The first character is not a lowercase ASCII letter.
    InvalidStartCharacter,
    /// The last character is not a lowercase ASCII letter.
    InvalidEndCharacter,
}

/// The category of a suffix decoding failure, without its details.
#[derive(Debug, Clone, PartialEq, Eq)]
pub enum InvalidSuffixReason {
    InvalidLength,
    InvalidCharacter,
    Overflow,
    InvalidVariant,
}

/// Why a string does not decode to a suffix, or to a namespace UUID.
#[derive(Debug, Clone, PartialEq, Eq)]
pub enum DecodeError {
    /// The suffix text is not 26 characters long; holds the actual length.
    InvalidLength(usize),
    /// A character outside the Crockford base32 alphabet; holds the
    /// character and its position.
    InvalidCharacter(char, usize),
    /// The leading character decodes to 8 or more, so the value would not
    /// fit in 128 bits.
    Overflow,
    /// The decoded UUID has a non-zero version nibble but its variant bits
    /// are not `10`.
    InvalidVariant,
    /// An umbrella for callers that do not care which detail failed.
    InvalidSuffix(InvalidSuffixReason),
    /// A namespace UUID string is not in the hyphenated hexadecimal form;
    /// holds the raw input.
    InvalidNamespace(String),
}

/// Why a string is not a valid identifier: its prefix half or its suffix
/// half failed.
#[derive(Debug, Clone, PartialEq, Eq)]
pub enum MagicTypeIdError {
    Prefix(ValidationError),
    Suffix(DecodeError),
}

impl ValidationError {
    /// A human-readable description of the failure.
    pub fn message(&self) -> String {
        match self {
            ValidationError::TooLong(_) => String::from_str(
                "input exceeds 63 characters",
            ),
            ValidationError::InvalidCharacter(_, _) => String::from_str(
                "input contains a character other than a lowercase ASCII letter or an underscore",
            ),
            ValidationError::InvalidStartCharacter => String::from_str(
                "input must start with a lowercase ASCII letter",
            ),
            ValidationError::InvalidEndCharacter => String::from_str(
                "input must end with a lowercase ASCII letter",
            ),
        }
    }
}

impl DecodeError {
    /// A human-readable description of the failure.
    pub fn message(&self) -> String {
        match self {
            DecodeError::InvalidLength(_) => String::from_str("suffix must be 26 characters long"),
            DecodeError::InvalidCharacter(_, _) => String::from_str(
                "suffix contains a character outside the Crockford base32 alphabet",
            ),
            DecodeError::Overflow => String::from_str(
                "suffix decodes to a value that does not fit in 128 bits",
            ),
            DecodeError::InvalidVariant => String::from_str(
                "decoded UUID has a version but not the RFC 4122 variant",
            ),
            DecodeError::InvalidSuffix(_) => String::from_str("suffix is not valid"),
            DecodeError::InvalidNamespace(_) => String::from_str(
                "namespace is not a hyphenated UUID string",
            ),
        }
    }
}

impl MagicTypeIdError {
    /// A human-readable description of the failure, prefixed with the
    /// failing category: `Prefix error: ` or `Suffix error: `.
    pub fn message(&self) -> (r: String)
        ensures
            self matches MagicTypeIdError::Prefix(_) ==> r@.take(14) == "Prefix error: "@,
            self matches MagicTypeIdError::Suffix(_) ==> r@.take(14) == "Suffix error: "@,
    {
        proof {
            reveal_strlit("Prefix error: ");
            reveal_strlit("Suffix error: ");
        }
        let r = match self {
            MagicTypeIdError::Prefix(e) => {
                let mut s = String::from_str("Prefix error: ");
                s.append(e.message().as_str());
                s
            },
            MagicTypeIdError::Suffix(e) => {
                let mut s = String::from_str("Suffix error: ");
                s.append(e.message().as_str());
                s
            },
        };
        proof {
            match self {
                MagicTypeIdError::Prefix(_) => {
                    assert(r@.take(14) =~= "Prefix error: "@);
                },
                MagicTypeIdError::Suffix(_) => {
                    assert(r@.take(14) =~= "Suffix error: "@);
                },
            }
        }
        r
    }
}

impl core::convert::From<ValidationError> for MagicTypeIdError {
    /// Wraps a prefix failure in the identifier error.
    fn from(e: ValidationError) -> (r: MagicTypeIdError) {
        MagicTypeIdError::Prefix(e)
    }
}

impl vstd::std_specs::convert::FromSpecImpl<ValidationError> for MagicTypeIdError {
    open spec fn obeys_from_spec() -> bool {
        true
    }

    open spec fn from_spec(e: ValidationError) -> MagicTypeIdError {
        MagicTypeIdError::Prefix(e)
    }
}

impl core::convert::From<DecodeError> for MagicTypeIdError {
    /// Wraps a suffix failure in the identifier error.
    fn from(e: DecodeError) -> (r: MagicTypeIdError) {
        MagicTypeIdError::Suffix(e)
    }
}

impl vstd::std_specs::convert::FromSpecImpl<DecodeError> for MagicTypeIdError {
    open spec fn obeys_from_spec() -> bool {
        true
    }

    open spec fn from_spec(e: DecodeError) -> MagicTypeIdError {
        MagicTypeIdError::Suffix(e)
    }
}

} // verus!
