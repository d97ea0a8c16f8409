//! The string extension operations: extracting identifier halves and
//! creating identifiers from prefix strings.

use mti::{MagicTypeIdExt, Nil, V4, V7};

#[test]
fn test_magic_typeid_ext_capabilities() {
    // Test with a valid identifier string.
    let valid_str = "user_01h455vb4pex5vsknk084sn02q";

    // Test the prefix_str method.
    assert_eq!(valid_str.prefix_str().unwrap(), "user");

    // Test it again through a binding.
    let try_prefix = valid_str.prefix_str().unwrap();
    assert_eq!(try_prefix, "user");

    // Test the suffix_str method.
    let try_suffix = valid_str.suffix_str().unwrap();
    assert_eq!(try_suffix.len(), 26);

    // Test the uuid_str method.
    let try_uuid = valid_str.uuid_str().unwrap();
    assert_eq!(try_uuid.len(), 36); // UUID string length

    // Test sanitized creation.
    let magic_id = "user".create_type_id::<V7>();
    assert_eq!(magic_id.prefix().as_str(), "user");
    assert_eq!(magic_id.suffix().as_str().len(), 26);

    // Test strict creation.
    let try_magic_id = "user".try_create_type_id::<V4>().unwrap();
    assert_eq!(try_magic_id.prefix().as_str(), "user");
    assert_eq!(try_magic_id.suffix().as_str().len(), 26);

    // Test with a string containing only a suffix.
    let suffix_only = "01h455vb4pex5vsknk084sn02q";
    assert_eq!(suffix_only.prefix_str().unwrap(), "");
    assert!(suffix_only.prefix_str().unwrap().is_empty());
    assert_eq!(suffix_only.suffix_str().unwrap().len(), 26);
    assert_eq!(suffix_only.uuid_str().unwrap().len(), 36);

    // Test with an invalid prefix.
    let invalid_prefix = "Invalid Prefix_01h455vb4pex5vsknk084sn02q";
    assert_eq!(
        mti::create_prefix_sanitized(invalid_prefix).as_str(),
        "invalidprefix_hvbpexvsknksnq"
    );
    assert!(invalid_prefix.prefix_str().is_err());
    assert_eq!(invalid_prefix.suffix_str().unwrap().len(), 26);
    assert_eq!(invalid_prefix.uuid_str().unwrap().len(), 36);

    // Test with an invalid suffix.
    let invalid_suffix = "user_invalid_suffix";
    assert_eq!(invalid_suffix.prefix_str().unwrap(), "user_invalid");
    assert!(invalid_suffix.prefix_str().is_ok());
    assert!(invalid_suffix.suffix_str().is_err());
    assert!(invalid_suffix.uuid_str().is_err());

    // Test creating identifiers with different UUID versions.
    let v4_id = "test_v4".create_type_id::<V4>();
    let v7_id = "test_v7".create_type_id::<V7>();
    assert_ne!(v4_id.suffix(), v7_id.suffix());

    // Test strict creation with invalid input.
    let invalid_create = "123".try_create_type_id::<V4>();
    assert!(invalid_create.is_err());
}

#[test]
fn test_prefix() {
    assert_eq!("user_01h455vb4pex5vsknk084sn02q".prefix_str().unwrap(), "user");
    assert_eq!(
        mti::create_prefix_sanitized("Invalid_Prefix_01h455vb4pex5vsknk084sn02q").as_str(),
        "invalid_prefix_hvbpexvsknksnq"
    );
    assert_eq!("123InvalidStart".prefix_str().unwrap(), "");
    assert_eq!("".prefix_str().unwrap(), "");
    // Create a new identifier from an extracted prefix.
    let prefix = "user_00000000000000000000000000".prefix().unwrap();
    let new_id = prefix.as_str().create_type_id::<Nil>();
    assert_eq!(new_id.as_str(), "user_00000000000000000000000000");
    assert_eq!(
        new_id.as_str().uuid_str().unwrap(),
        "00000000-0000-0000-0000-000000000000"
    );
}

#[test]
fn magic_type_id_ext_test_prefix() {
    assert_eq!("user_01h455vb4pex5vsknk084sn02q".prefix_str().unwrap(), "user");
    assert_eq!(
        mti::create_prefix_sanitized("Invalid_Prefix_01h455vb4pex5vsknk084sn02q").as_str(),
        "invalid_prefix_hvbpexvsknksnq"
    );
    assert_eq!("123InvalidStart".prefix_str().unwrap(), "");
    assert_eq!("".prefix_str().unwrap(), "");
    // Create a new identifier from an extracted prefix.
    let prefix = "user_00000000000000000000000000".prefix().unwrap();
    let new_id = prefix.as_str().create_type_id::<Nil>();
    assert_eq!(new_id.as_str(), "user_00000000000000000000000000");
    assert_eq!(
        new_id.as_str().uuid_str().unwrap(),
        "00000000-0000-0000-0000-000000000000"
    );
}
