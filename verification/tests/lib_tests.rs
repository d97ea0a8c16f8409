//! Identifier creation and parsing through the crate's main entry points.

use mti::{MagicTypeId, MagicTypeIdError, MagicTypeIdExt, NamespaceId, TypeIdSuffix, V3, V6, V7};

#[test]
fn test_slug_id() {
    let suffix = TypeIdSuffix::default();
    let slug_id = MagicTypeId::new(mti::create_prefix_sanitized("prefix"), suffix);
    let slug_two: MagicTypeId = "another_prefix_01h455vb4pex5vsknk084sn02q".parse().unwrap();
    let slug_bad: Result<MagicTypeId, MagicTypeIdError> =
        "another_prefix_01h455vb4pNOPEsknk084sn02q".parse();

    assert_eq!(slug_two.prefix().as_str(), "another_prefix");
    assert_eq!(slug_id.prefix().as_str(), "prefix");
    assert!(slug_bad.is_err());
}

#[test]
fn test_slug_id_ext() {
    let slug_str = "prefix_01h455vb4pex5vsknk084sn02q";
    assert_eq!(slug_str.prefix_str().unwrap(), "prefix");
    assert_eq!(slug_str.prefix_str().unwrap().as_str(), "prefix");
    assert_eq!(slug_str.uuid_str().unwrap().len(), 36);

    let no_prefix = "01h455vb4pex5vsknk084sn02q";
    assert_eq!(no_prefix.prefix_str().unwrap(), "");
    assert!(no_prefix.prefix_str().unwrap().is_empty());
    assert_eq!(no_prefix.uuid_str().unwrap().len(), 36);

    let invalid_prefix = "Invalid_Prefix_01h455vb4pex5vsknk084sn02q";
    assert_eq!(
        mti::create_prefix_sanitized(invalid_prefix).as_str(),
        "invalid_prefix_hvbpexvsknksnq"
    );
    assert!(invalid_prefix.prefix_str().is_err());
    assert_eq!(invalid_prefix.uuid_str().unwrap().len(), 36);

    let invalid_suffix = "prefix_invalid";
    assert_eq!(invalid_suffix.prefix_str().unwrap(), "prefix");
    assert_eq!(invalid_suffix.prefix_str().unwrap().as_str(), "prefix");
    assert!(invalid_suffix.suffix_str().is_err());
}

#[test]
fn test_nil() {
    let slug_id: MagicTypeId = "00000000000000000000000000".parse().unwrap();
    assert!(slug_id.prefix().is_empty());
    assert_eq!(slug_id.suffix().uuid_str(), "00000000-0000-0000-0000-000000000000");
}

#[test]
fn test_new_creation_methods() {
    // Test create_type_id.
    let slug: MagicTypeId = "test_prefix".create_type_id::<V7>();
    assert_eq!(slug.prefix().as_str(), "test_prefix");
    assert_eq!(slug.suffix().as_str().len(), 26);

    // Test create_type_id with a different UUID version.
    let slug_other: MagicTypeId = "other_prefix".create_type_id::<V3>();
    assert_eq!(slug_other.prefix().as_str(), "other_prefix");
    assert_eq!(slug_other.suffix().as_str().len(), 26);

    // Test try_create_type_id with a valid prefix.
    let slug_try: Result<MagicTypeId, _> = "valid_prefix".try_create_type_id::<V7>();
    assert!(slug_try.is_ok());
    assert_eq!(slug_try.unwrap().prefix().as_str(), "valid_prefix");

    // Test try_create_type_id with an invalid prefix.
    let invalid_result: Result<MagicTypeId, _> = "Invalid Prefix".try_create_type_id::<V6>();
    assert!(invalid_result.is_err());
}

#[test]
fn doc_smoke_tests() {
    // Sanitized creation (always produces a valid prefix).
    let sanitized_id = "Invalid Prefix!".create_type_id::<V7>();
    assert!(sanitized_id.as_str().starts_with("invalidprefix_"));
    // Strict creation (returns an error for invalid prefixes).
    let result = "Invalid Prefix!".try_create_type_id::<V7>();
    assert!(result.is_err());

    let id = "user".create_type_id::<V7>();
    assert!(id.as_str().starts_with("user_"));
    assert_eq!(id.as_str().len(), 31);

    // Use in string comparisons.
    assert_eq!(id.as_str(), id.as_str().to_string());

    let id_str = "product_01h455vb4pex5vsknk084sn02q";
    let magic_id: MagicTypeId = id_str.parse().unwrap();

    assert_eq!(magic_id.prefix().as_str(), "product");
    assert_eq!(magic_id.suffix().as_str(), "01h455vb4pex5vsknk084sn02q");

    // Extract the UUID.
    let uuid = magic_id.suffix().uuid_str();
    println!("Extracted UUID: {}", uuid);

    let namespace = NamespaceId::parse("6ba7b810-9dad-11d1-80b4-00c04fd430c8").unwrap();
    let name = "example.com";
    let v5_suffix = TypeIdSuffix::new_v5(namespace, name.as_bytes());
    let domain_id = MagicTypeId::new(mti::try_create_prefix("domain").unwrap(), v5_suffix);
    assert_eq!(
        domain_id.as_str().uuid_str().unwrap(),
        "cfbff0d1-9375-5685-968c-48ce8b15ae17"
    );
}
