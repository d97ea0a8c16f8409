//! Fixed identifier text vectors: well-formed ones round-trip through
//! parsing, rendering, and the hyphenated UUID form; malformed ones are
//! rejected, while sanitizing their prefix half still yields a usable
//! prefix.

use mti::{MagicTypeId, MagicTypeIdExt, TypeIdPrefix, TypeIdSuffix, V7};

fn check_valid(prefix: &str, typeid: &str, uuid: &str) {
    // Decoding: the halves of the text come back out.
    assert_eq!(typeid.uuid_str().unwrap(), uuid, "Decoding failed");
    assert_eq!(typeid.prefix_str().unwrap(), prefix, "Decoding failed");

    // Encoding: the same identifier is rebuilt from its parts.
    let prefix_val = if prefix.is_empty() {
        TypeIdPrefix::default()
    } else {
        mti::try_create_prefix(prefix).unwrap()
    };
    if !prefix.is_empty() {
        assert_eq!(prefix_val.as_str(), prefix, "Encoding prefix failed");
    }

    let uuid_bits = mti::hex::parse_uuid_text(uuid).unwrap();
    let suffix = TypeIdSuffix::from_uuid(uuid_bits);
    assert_eq!(suffix.uuid_str(), uuid, "Encoding suffix failed");

    let type_id = MagicTypeId::new(prefix_val, suffix);
    assert_eq!(type_id.as_str(), typeid, "Encoding failed");
}

fn check_invalid(prefix: &str, typeid: &str) {
    // None of these identifier texts may parse.
    let type_id: Result<MagicTypeId, _> = typeid.parse();
    assert!(type_id.is_err());

    // Some of the prefixes are merely dirty: sanitizing coerces them into
    // a valid prefix, possibly the empty one, and either way an identifier
    // can be built from the result.
    let sanitized_prefix = mti::create_prefix_sanitized(prefix);
    let new_type_id = sanitized_prefix.as_str().try_create_type_id::<V7>();
    assert!(new_type_id.is_ok());
    if sanitized_prefix.as_str().is_empty() {
        assert!(new_type_id.unwrap().prefix().is_empty());
    } else {
        assert_eq!(new_type_id.unwrap().prefix().as_str(), sanitized_prefix.as_str());
    }
}

#[test]
fn vector_nil() {
    check_valid("", "00000000000000000000000000", "00000000-0000-0000-0000-000000000000");
}

#[test]
fn vector_one() {
    check_valid("", "00000000000000000000000001", "00000000-0000-0000-0000-000000000001");
}

#[test]
fn vector_ten() {
    check_valid("", "0000000000000000000000000a", "00000000-0000-0000-0000-00000000000a");
}

#[test]
fn vector_sixteen() {
    check_valid("", "0000000000000000000000000g", "00000000-0000-0000-0000-000000000010");
}

#[test]
fn vector_thirty_two() {
    check_valid("", "00000000000000000000000010", "00000000-0000-0000-0000-000000000020");
}

#[test]
fn vector_max_valid() {
    check_valid("", "7zzzzzzzzzzzzzzzzzzzzzzzzz", "ffffffff-ffff-ffff-ffff-ffffffffffff");
}

#[test]
fn vector_valid_uuidv7() {
    check_valid(
        "prefix",
        "prefix_01h455vb4pex5vsknk084sn02q",
        "01890a5d-ac96-774b-bcce-b302099a8057",
    );
}

#[test]
fn vector_prefix_underscore() {
    check_valid(
        "pre_fix",
        "pre_fix_00000000000000000000000000",
        "00000000-0000-0000-0000-000000000000",
    );
}

#[test]
fn vector_prefix_uppercase() {
    check_invalid("PREFIX", "PREFIX_00000000000000000000000000");
}

#[test]
fn vector_prefix_numeric() {
    check_invalid("12345", "12345_00000000000000000000000000");
}

#[test]
fn vector_prefix_period() {
    check_invalid("pre.fix", "pre.fix_00000000000000000000000000");
}

#[test]
fn vector_prefix_non_ascii() {
    check_invalid("préfix", "préfix_00000000000000000000000000");
}

#[test]
fn vector_prefix_spaces() {
    check_invalid("  prefix", "  prefix_00000000000000000000000000");
}

#[test]
fn vector_prefix_64_chars() {
    check_invalid(
        "abcdefghijklmnopqrstuvwxyzabcdefghijklmnopqrstuvwxyzabcdefghijkl",
        "abcdefghijklmnopqrstuvwxyzabcdefghijklmnopqrstuvwxyzabcdefghijkl_00000000000000000000000000",
    );
}

#[test]
fn vector_separator_empty_prefix() {
    check_invalid("", "_00000000000000000000000000");
}

#[test]
fn vector_separator_empty() {
    check_invalid("", "_");
}

#[test]
fn vector_suffix_short() {
    check_invalid("prefix", "prefix_1234567890123456789012345");
}

#[test]
fn vector_suffix_long() {
    check_invalid("prefix", "prefix_123456789012345678901234567");
}

#[test]
fn vector_suffix_spaces() {
    check_invalid("prefix", "prefix_1234567890123456789012345 ");
}

#[test]
fn vector_suffix_uppercase() {
    check_invalid("prefix", "prefix_0123456789ABCDEFGHJKMNPQRS");
}

#[test]
fn vector_suffix_hyphens() {
    check_invalid("prefix", "prefix_123456789-123456789-123456");
}

#[test]
fn vector_suffix_wrong_alphabet() {
    check_invalid("prefix", "prefix_ooooooiiiiiiuuuuuuulllllll");
}

#[test]
fn vector_suffix_ambiguous_crockford() {
    check_invalid("prefix", "prefix_i23456789ol23456789oi23456");
}

#[test]
fn vector_suffix_hyphens_crockford() {
    check_invalid("prefix", "prefix_123456789-0123456789-0123456");
}

#[test]
fn vector_suffix_overflow() {
    check_invalid("prefix", "prefix_8zzzzzzzzzzzzzzzzzzzzzzzzz");
}

#[test]
fn vector_prefix_underscore_start() {
    check_invalid("_prefix", "_prefix_00000000000000000000000000");
}

#[test]
fn vector_prefix_underscore_end() {
    check_invalid("prefix_", "prefix__00000000000000000000000000");
}
