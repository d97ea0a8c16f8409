//! Scenario and boundary tests: round trips, ordering, sanitization, and
//! one input for every error variant.

use mti::uuid128::{millis_of, variant_of, version_of};
use mti::{
    DecodeError, InvalidSuffixReason, MagicTypeId, MagicTypeIdError, MagicTypeIdExt, NamespaceId,
    Nil, TypeIdSuffix, V3, V4, V5, V6, V7, ValidationError,
};

fn busy_wait_millis(ms: u64) {
    let start = std::time::Instant::now();
    while start.elapsed() < std::time::Duration::from_millis(ms) {}
}

#[test]
fn suffix_round_trip_concrete_values() {
    // Nil, maximum, and a version 7 value all decode back to themselves.
    let values: [u128; 3] = [
        0,
        0xffffffff_ffff_ffff_ffff_ffffffffffff,
        0x01890a5d_ac96_774b_bcce_b302099a8057,
    ];
    let mut k = 0;
    while k < values.len() {
        let u = values[k];
        let suffix = TypeIdSuffix::from_uuid(u);
        let text = suffix.as_str().to_string();
        assert_eq!(text.len(), 26);
        let back = TypeIdSuffix::parse_str(&text).unwrap();
        assert_eq!(back.to_uuid(), u);
        assert_eq!(back.as_str(), text);
        k += 1;
    }
}

#[test]
fn identifier_round_trip_concrete() {
    // An identifier with an underscore-bearing prefix parses back whole.
    let prefix = mti::try_create_prefix("user_profile").unwrap();
    let suffix = TypeIdSuffix::from_uuid(0x01890a5d_ac96_774b_bcce_b302099a8057);
    let id = MagicTypeId::new(prefix, suffix);
    let back: MagicTypeId = id.as_str().parse().unwrap();
    assert_eq!(back, id);
    assert_eq!(back.prefix().as_str(), "user_profile");
    assert_eq!(back.as_str(), id.as_str());
}

#[test]
fn canonical_text_uniqueness() {
    let a = MagicTypeId::new(
        mti::try_create_prefix("user").unwrap(),
        TypeIdSuffix::from_uuid(7),
    );
    let b = MagicTypeId::new(
        mti::try_create_prefix("user").unwrap(),
        TypeIdSuffix::from_uuid(7),
    );
    let c = MagicTypeId::new(
        mti::try_create_prefix("user").unwrap(),
        TypeIdSuffix::from_uuid(8),
    );
    let d = MagicTypeId::new(
        mti::try_create_prefix("usef").unwrap(),
        TypeIdSuffix::from_uuid(7),
    );
    assert_eq!(a, b);
    assert_eq!(a.as_str(), b.as_str());
    assert_ne!(a, c);
    assert_ne!(a.as_str(), c.as_str());
    assert_ne!(a, d);
    assert_ne!(a.as_str(), d.as_str());
}

#[test]
fn sanitize_idempotence_and_agreement() {
    let inputs = [
        "Invalid Prefix!123",
        "  _USER_NAME_  ",
        "préfix",
        "__a__b__",
        "",
        "user_profile",
        "a",
    ];
    let mut k = 0;
    while k < inputs.len() {
        let once = mti::create_prefix_sanitized(inputs[k]);
        let twice = mti::create_prefix_sanitized(once.as_str());
        assert_eq!(once.as_str(), twice.as_str());
        k += 1;
    }
    // A strictly valid prefix sanitizes to itself.
    let valid = "user_profile";
    assert!(mti::try_create_prefix(valid).is_ok());
    assert_eq!(mti::create_prefix_sanitized(valid).as_str(), valid);
}

#[test]
fn v7_time_monotone_order() {
    let a = TypeIdSuffix::new::<V7>();
    busy_wait_millis(10);
    let b = TypeIdSuffix::new::<V7>();
    assert!(millis_of(a.to_uuid()) < millis_of(b.to_uuid()));
    assert!(a.to_uuid() < b.to_uuid());
}

#[test]
fn version_preservation_all_versions() {
    let versions: [u8; 6] = [0, 3, 4, 5, 6, 7];
    let mut k = 0;
    while k < versions.len() {
        let v = versions[k];
        let id = match v {
            0 => "tag".create_type_id::<Nil>(),
            3 => "tag".create_type_id::<V3>(),
            4 => "tag".create_type_id::<V4>(),
            5 => "tag".create_type_id::<V5>(),
            6 => "tag".create_type_id::<V6>(),
            _ => "tag".create_type_id::<V7>(),
        };
        let back: MagicTypeId = id.as_str().parse().unwrap();
        assert_eq!(version_of(back.suffix().to_uuid()), v);
        if v != 0 {
            assert_eq!(variant_of(back.suffix().to_uuid()), 2);
        } else {
            assert_eq!(back.suffix().to_uuid(), 0);
        }
        k += 1;
    }
}

#[test]
fn name_based_determinism() {
    // Version 3 and version 5 suffixes are functions of namespace and name.
    let a3 = TypeIdSuffix::new_v3(NamespaceId::url(), b"https://example.com/a");
    let b3 = TypeIdSuffix::new_v3(NamespaceId::url(), b"https://example.com/a");
    assert_eq!(a3, b3);
    let a5 = TypeIdSuffix::new_v5(NamespaceId::url(), b"https://example.com/a");
    let b5 = TypeIdSuffix::new_v5(NamespaceId::url(), b"https://example.com/a");
    assert_eq!(a5, b5);
    assert_ne!(a3, a5);
    // The version 5 digest differs from what either input alone would give.
    assert_ne!(a5.to_uuid(), NamespaceId::url().as_uuid());
}

#[test]
fn leading_seven_decodes_leading_eight_overflows() {
    assert!(TypeIdSuffix::parse_str("7zzzzzzzzzzzzzzzzzzzzzzzzz").is_ok());
    assert_eq!(
        TypeIdSuffix::parse_str("8zzzzzzzzzzzzzzzzzzzzzzzzz"),
        Err(DecodeError::Overflow)
    );
}

#[test]
fn prefix_length_boundary() {
    let ok = "a".repeat(63);
    assert!(mti::try_create_prefix(&ok).is_ok());
    let too_long = "a".repeat(64);
    assert_eq!(
        mti::try_create_prefix(&too_long).err(),
        Some(ValidationError::TooLong(64))
    );
}

#[test]
fn trailing_underscore_prefix_rejects() {
    let r: Result<MagicTypeId, _> = "prefix__00000000000000000000000000".parse();
    assert!(matches!(
        r,
        Err(MagicTypeIdError::Prefix(ValidationError::InvalidEndCharacter))
    ));
}

#[test]
fn empty_left_side_rejects() {
    let r: Result<MagicTypeId, _> = "_00000000000000000000000000".parse();
    assert!(matches!(
        r,
        Err(MagicTypeIdError::Prefix(ValidationError::InvalidStartCharacter))
    ));
}

#[test]
fn uppercase_suffix_rejects() {
    let r: Result<MagicTypeId, _> = "prefix_0123456789ABCDEFGHJKMNPQRS".parse();
    assert!(matches!(
        r,
        Err(MagicTypeIdError::Suffix(DecodeError::InvalidCharacter('A', 10)))
    ));
}

#[test]
fn nil_round_trip() {
    let id: MagicTypeId = "00000000000000000000000000".parse().unwrap();
    assert!(id.prefix().is_empty());
    assert_eq!(id.suffix().to_uuid(), 0);
    assert_eq!(id.as_str(), "00000000000000000000000000");
}

#[test]
fn maximum_suffix() {
    let id: MagicTypeId = "7zzzzzzzzzzzzzzzzzzzzzzzzz".parse().unwrap();
    assert_eq!(
        id.suffix().uuid_str(),
        "ffffffff-ffff-ffff-ffff-ffffffffffff"
    );
}

#[test]
fn prefixed_v7_vector() {
    let id: MagicTypeId = "prefix_01h455vb4pex5vsknk084sn02q".parse().unwrap();
    assert_eq!(id.prefix().as_str(), "prefix");
    assert_eq!(
        id.suffix().uuid_str(),
        "01890a5d-ac96-774b-bcce-b302099a8057"
    );
    assert_eq!(version_of(id.suffix().to_uuid()), 7);
}

#[test]
fn v5_dns_determinism_vector() {
    let suffix = TypeIdSuffix::new_v5(NamespaceId::dns(), b"example.com");
    assert_eq!(suffix.uuid_str(), "cfbff0d1-9375-5685-968c-48ce8b15ae17");
    let id = "domain".create_type_id_with_suffix::<V5>(suffix.clone());
    let mut expected = String::from("domain_");
    expected.push_str(suffix.as_str());
    assert_eq!(id.as_str(), expected);
}

#[test]
fn sanitization_scenarios() {
    assert_eq!(
        mti::create_prefix_sanitized("Invalid Prefix!123").as_str(),
        "invalidprefix"
    );
    assert_eq!(
        mti::create_prefix_sanitized("  _USER_NAME_  ").as_str(),
        "user_name"
    );
    let long = "a".repeat(100);
    assert_eq!(mti::create_prefix_sanitized(&long).as_str().len(), 63);
}

#[test]
fn ordering_scenario() {
    let prefix1 = mti::try_create_prefix("user").unwrap();
    let prefix2 = mti::try_create_prefix("admin").unwrap();

    let id1 = MagicTypeId::new(prefix1.clone(), TypeIdSuffix::new::<V7>());
    busy_wait_millis(10);
    let id2 = MagicTypeId::new(prefix1.clone(), TypeIdSuffix::new::<V7>());
    let id3 = MagicTypeId::new(
        prefix2,
        TypeIdSuffix::parse_str(id2.suffix().as_str()).unwrap(),
    );

    assert!(id1 < id2, "expected the earlier identifier below the later");
    assert_eq!(id2.suffix(), id3.suffix(), "the suffixes should be shared");
    assert!(id3 < id2, "the smaller prefix breaks the tie on equal suffixes");
    assert!(id1 < id3, "the suffix stays the primary key across prefixes");
}

#[test]
fn error_variant_invalid_length() {
    assert_eq!(
        TypeIdSuffix::parse_str("0000000000000000000000000"),
        Err(DecodeError::InvalidLength(25))
    );
}

#[test]
fn error_variant_invalid_character_suffix() {
    assert_eq!(
        TypeIdSuffix::parse_str("00000000000000000000000u00"),
        Err(DecodeError::InvalidCharacter('u', 23))
    );
}

#[test]
fn error_variant_invalid_variant() {
    // Version 4 in the version nibble, but variant bits zero.
    let bits: u128 = 4u128 << 76;
    let text = TypeIdSuffix::from_uuid(bits).as_str().to_string();
    assert_eq!(TypeIdSuffix::parse_str(&text), Err(DecodeError::InvalidVariant));
    let r: Result<MagicTypeId, _> = text.parse();
    assert_eq!(r, Err(MagicTypeIdError::Suffix(DecodeError::InvalidVariant)));
}

#[test]
fn error_variant_invalid_suffix_umbrella() {
    assert_eq!(
        "".suffix().err(),
        Some(MagicTypeIdError::Suffix(DecodeError::InvalidSuffix(
            InvalidSuffixReason::InvalidLength
        )))
    );
}

#[test]
fn error_variant_invalid_namespace() {
    assert_eq!(
        NamespaceId::parse("not-a-uuid").err(),
        Some(DecodeError::InvalidNamespace("not-a-uuid".to_string()))
    );
}

#[test]
fn error_variant_prefix_characters() {
    assert_eq!(
        mti::try_create_prefix("pre.fix").err(),
        Some(ValidationError::InvalidCharacter('.', 3))
    );
    assert_eq!(
        mti::try_create_prefix("_abc").err(),
        Some(ValidationError::InvalidStartCharacter)
    );
    assert_eq!(
        mti::try_create_prefix("abc_").err(),
        Some(ValidationError::InvalidEndCharacter)
    );
}

#[test]
fn error_messages_name_the_failing_half() {
    let prefix_err: MagicTypeIdError =
        "Bad Prefix_00000000000000000000000000".parse::<MagicTypeId>().unwrap_err();
    assert!(prefix_err.message().starts_with("Prefix error: "));
    let suffix_err: MagicTypeIdError =
        "prefix_not_a_suffix".parse::<MagicTypeId>().unwrap_err();
    assert!(suffix_err.message().starts_with("Suffix error: "));
}

#[test]
fn namespace_parse_accepts_uppercase_hex() {
    let upper = NamespaceId::parse("6BA7B810-9DAD-11D1-80B4-00C04FD430C8").unwrap();
    assert_eq!(upper, NamespaceId::dns());
}

#[test]
fn unrecognized_version_bypasses_variant_check() {
    // Version nibble 15 with variant bits 11 decodes, as the maximum
    // suffix shows; version nibble 0 with arbitrary low bits decodes too.
    assert!(TypeIdSuffix::parse_str("7zzzzzzzzzzzzzzzzzzzzzzzzz").is_ok());
    let low_bits_only = TypeIdSuffix::from_uuid(0x1234_5678_9abc_def0);
    let text = low_bits_only.as_str().to_string();
    let back = TypeIdSuffix::parse_str(&text).unwrap();
    assert_eq!(back.to_uuid(), 0x1234_5678_9abc_def0);
}

#[test]
fn generated_versions_carry_version_and_variant() {
    let v4 = TypeIdSuffix::new::<V4>().to_uuid();
    assert_eq!(version_of(v4), 4);
    assert_eq!(variant_of(v4), 2);
    let v6 = TypeIdSuffix::new::<V6>().to_uuid();
    assert_eq!(version_of(v6), 6);
    assert_eq!(variant_of(v6), 2);
    let v7 = TypeIdSuffix::new::<V7>().to_uuid();
    assert_eq!(version_of(v7), 7);
    assert_eq!(variant_of(v7), 2);
    let nil = TypeIdSuffix::new::<Nil>().to_uuid();
    assert_eq!(nil, 0);
    assert_eq!(version_of(nil), 0);
    assert_eq!(variant_of(nil), 0);
}

#[test]
fn v3_digest_differs_from_inputs() {
    // The MD5 wrapper must hash, not echo: the result differs from the
    // namespace it was given and carries version 3.
    let s = TypeIdSuffix::new_v3(NamespaceId::dns(), b"example.com");
    assert_ne!(s.to_uuid(), NamespaceId::dns().as_uuid());
    assert_eq!(version_of(s.to_uuid()), 3);
    // Cross-check the digest against the uuid crate directly.
    let expected = uuid::Uuid::new_v3(
        &uuid::Uuid::from_u128(NamespaceId::dns().as_uuid()),
        b"example.com",
    )
    .as_u128();
    assert_eq!(s.to_uuid(), expected);
}
