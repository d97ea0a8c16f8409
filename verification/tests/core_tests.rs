//! Core identifier behavior: construction, string-like use, parsing, and
//! component access.

use mti::{MagicTypeId, MagicTypeIdExt, Nil, TypeIdPrefix, TypeIdSuffix, V4, V7};
use std::collections::HashMap;

fn takes_str(s: &str) {
    assert!(s.starts_with("user_"));
}

fn takes_as_ref<T: AsRef<str>>(s: T) {
    assert!(s.as_ref().starts_with("user_"));
}

#[test]
fn test_magic_typeid_capabilities() {
    // Create a MagicTypeId.
    let prefix: TypeIdPrefix = mti::try_create_prefix("user").expect("Valid prefix");
    let suffix = TypeIdSuffix::new::<Nil>(); // Using Nil for deterministic testing
    let magic_id = MagicTypeId::new(prefix, suffix);

    // Test string-like behavior.
    let magic_str = magic_id.as_str().to_string();
    assert!(magic_id.as_str().starts_with("user_"));
    assert_eq!(magic_id.as_str().len(), 31); // "user" + "_" + 26 chars for suffix
    assert_eq!(magic_id.as_str(), "user_00000000000000000000000000");

    // Can be used as a string slice.
    let len = magic_id.as_str().len();
    assert_eq!(len, 31);
    assert!(magic_id.as_str().contains("user_"));
    assert!(!magic_id.as_str().contains("admin_"));

    // Can be compared directly with strings.
    assert_eq!(magic_id.as_str(), magic_str);
    assert_eq!(magic_str, magic_id.as_str());
    assert!(magic_id.as_str().starts_with("user_"));
    assert!(magic_id.as_str().ends_with(&magic_str[5..]));

    // Can be used with string methods.
    let upper = magic_id.as_str().to_uppercase();
    assert!(upper.starts_with("USER_"));

    // The text can stand in for the identifier.
    takes_str(magic_id.as_str());
    takes_as_ref(magic_id.as_str());

    // Identifiers can key a map.
    let mut map = HashMap::new();
    let _ = map.insert(magic_id.clone(), "value");
    assert!(map.contains_key(&magic_id));

    // Test component access.
    assert_eq!(magic_id.prefix().as_str(), "user");
    assert_eq!(magic_id.suffix().as_str().len(), 26);

    // Test parsing back.
    let parsed: MagicTypeId = magic_str.parse().expect("Valid MagicTypeId");
    assert_eq!(parsed, magic_id);

    // Test with no prefix.
    let no_prefix_id = MagicTypeId::new(TypeIdPrefix::default(), TypeIdSuffix::new::<V4>());
    assert!(!no_prefix_id.as_str().contains('_'));
    assert_eq!(no_prefix_id.as_str().len(), 26);

    // Test equality with the rendered text.
    assert_eq!(magic_id.as_str(), magic_str.as_str());
    assert_eq!(magic_str.as_str(), magic_id.as_str());
}

#[test]
fn test_general() {
    assert!(mti::try_create_prefix("user").is_ok());
    assert!(mti::try_create_prefix("HelloWorld").is_err());
    assert!("HelloWorld".try_create_type_id::<V7>().is_err());
    assert_eq!("HelloWorld".create_type_id::<V7>().prefix().as_str(), "helloworld");
}
