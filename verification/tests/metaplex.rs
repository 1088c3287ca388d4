use lumos_core::ir::{
    FieldDefinition, Metadata, StructDefinition, TypeDefinition, TypeInfo, Visibility,
};
use lumos_core::metaplex::constraints;
use lumos_core::metaplex::{
    generate_standard_types, MetaplexAttribute, MetaplexType, MetaplexValidator,
    ParsedMetaplexAttrs, Severity, TokenStandard, UseMethod, ValidationError, ValidationResult,
};

fn prim(name: &str, ty: &str) -> FieldDefinition {
    FieldDefinition {
        name: name.to_string(),
        type_info: TypeInfo::Primitive(ty.to_string()),
        optional: false,
        deprecated: None,
        anchor_attrs: vec![],
    }
}

fn create_metadata_struct() -> StructDefinition {
    StructDefinition {
        name: "TokenMetadata".to_string(),
        generic_params: vec![],
        fields: vec![
            prim("name", "String"),
            prim("symbol", "String"),
            prim("uri", "String"),
            prim("seller_fee_basis_points", "u16"),
        ],
        metadata: Metadata::default(),
        visibility: Visibility::Public,
        module_segments: vec![],
    }
}

fn create_creator_struct() -> StructDefinition {
    StructDefinition {
        name: "Creator".to_string(),
        generic_params: vec![],
        fields: vec![
            prim("address", "PublicKey"),
            prim("verified", "bool"),
            prim("share", "u8"),
        ],
        metadata: Metadata::default(),
        visibility: Visibility::Public,
        module_segments: vec![],
    }
}

#[test]
fn test_token_standard_discriminant() {
    assert_eq!(TokenStandard::NonFungible.discriminant(), 0);
    assert_eq!(TokenStandard::FungibleAsset.discriminant(), 1);
    assert_eq!(TokenStandard::Fungible.discriminant(), 2);
    assert_eq!(TokenStandard::NonFungibleEdition.discriminant(), 3);
    assert_eq!(TokenStandard::ProgrammableNonFungible.discriminant(), 4);
}

#[test]
fn test_token_standard_from_discriminant() {
    assert_eq!(
        TokenStandard::from_discriminant(0),
        Some(TokenStandard::NonFungible)
    );
    assert_eq!(
        TokenStandard::from_discriminant(4),
        Some(TokenStandard::ProgrammableNonFungible)
    );
    assert_eq!(TokenStandard::from_discriminant(99), None);
}

#[test]
fn test_metaplex_attribute_parsing() {
    assert_eq!(
        MetaplexAttribute::parse_from_str("metadata"),
        Some(MetaplexAttribute::Metadata)
    );
    assert_eq!(
        MetaplexAttribute::parse_from_str("creator"),
        Some(MetaplexAttribute::Creator)
    );
    assert_eq!(
        MetaplexAttribute::parse_from_str("name"),
        Some(MetaplexAttribute::Name)
    );
    assert_eq!(
        MetaplexAttribute::parse_from_str("seller_fee_basis_points"),
        Some(MetaplexAttribute::SellerFeeBasisPoints)
    );
}

#[test]
fn test_metaplex_attribute_validate() {
    let attr = MetaplexAttribute::parse_from_str("validate = \"len <= 32\"");
    assert!(matches!(attr, Some(MetaplexAttribute::Validate(_))));
    if let Some(MetaplexAttribute::Validate(rule)) = attr {
        assert_eq!(rule, "len <= 32");
    }
}

#[test]
fn test_metaplex_type_struct_names() {
    assert_eq!(MetaplexType::TokenMetadata.struct_name(), "Metadata");
    assert_eq!(MetaplexType::Creator.struct_name(), "Creator");
    assert_eq!(MetaplexType::Collection.struct_name(), "Collection");
    assert_eq!(MetaplexType::MasterEditionV2.struct_name(), "MasterEditionV2");
}

#[test]
fn test_constraints() {
    assert_eq!(constraints::MAX_NAME_LENGTH, 32);
    assert_eq!(constraints::MAX_SYMBOL_LENGTH, 10);
    assert_eq!(constraints::MAX_URI_LENGTH, 200);
    assert_eq!(constraints::MAX_CREATORS, 5);
    assert_eq!(constraints::MAX_SELLER_FEE_BASIS_POINTS, 10000);
    assert_eq!(constraints::CREATOR_SHARES_TOTAL, 100);
}

#[test]
fn test_validate_valid_metadata_struct() {
    let validator = MetaplexValidator::new();
    let struct_def = create_metadata_struct();
    let types = vec![TypeDefinition::Struct(struct_def)];

    let result = validator.validate(&types);

    assert!(result.is_valid());
    assert!(result.has_warnings());
}

#[test]
fn test_validate_valid_creator_struct() {
    let validator = MetaplexValidator::new();
    let struct_def = create_creator_struct();
    let types = vec![TypeDefinition::Struct(struct_def)];

    let result = validator.validate(&types);

    assert!(result.is_valid());
}

#[test]
fn test_validate_invalid_creator_missing_fields() {
    let validator = MetaplexValidator::new();
    let struct_def = StructDefinition {
        name: "Creator".to_string(),
        generic_params: vec![],
        fields: vec![prim("address", "PublicKey")],
        metadata: Metadata::default(),
        visibility: Visibility::Public,
        module_segments: vec![],
    };
    let types = vec![TypeDefinition::Struct(struct_def)];

    let result = validator.validate(&types);

    assert!(!result.is_valid());
    assert_eq!(result.errors.len(), 2);
}

#[test]
fn test_validate_wrong_seller_fee_type() {
    let validator = MetaplexValidator::new();
    let mut struct_def = create_metadata_struct();
    struct_def.fields[3].type_info = TypeInfo::Primitive("u64".to_string());

    let types = vec![TypeDefinition::Struct(struct_def)];
    let result = validator.validate(&types);

    assert!(!result.is_valid());
    assert!(result
        .errors
        .iter()
        .any(|e| e.message.contains("seller_fee_basis_points must be u16")));
}

#[test]
fn test_generate_standard_types() {
    let types = generate_standard_types();

    assert!(types.contains("struct Creator"));
    assert!(types.contains("struct Collection"));
    assert!(types.contains("struct TokenMetadata"));
    assert!(types.contains("enum TokenStandard"));
    assert!(types.contains("seller_fee_basis_points: u16"));
}

#[test]
fn test_validation_result_merge() {
    let mut result1 = ValidationResult::new();
    result1.add_error("loc1".to_string(), "error1".to_string(), None);

    let mut result2 = ValidationResult::new();
    result2.add_warning("loc2".to_string(), "warning1".to_string(), None);

    result1.merge(result2);

    assert_eq!(result1.errors.len(), 1);
    assert_eq!(result1.warnings.len(), 1);
}

#[test]
fn discriminants_read_back() {
    for code in 0u8..=5 {
        let t = TokenStandard::from_discriminant(code).unwrap();
        assert_eq!(t.discriminant(), code);
    }
    assert_eq!(TokenStandard::from_discriminant(6), None);
    assert_eq!(UseMethod::Burn.discriminant(), 0);
    assert_eq!(UseMethod::Multiple.discriminant(), 1);
    assert_eq!(UseMethod::Single.discriminant(), 2);
    assert_eq!(MetaplexType::all().len(), 7);
}

#[test]
fn attribute_parsing_edge_cases() {
    assert_eq!(
        MetaplexAttribute::parse_from_str("  share  "),
        Some(MetaplexAttribute::Share)
    );
    assert_eq!(MetaplexAttribute::parse_from_str("validate \"x\""), None);
    assert_eq!(
        MetaplexAttribute::parse_from_str("validate=x > 1"),
        Some(MetaplexAttribute::Validate("x > 1".to_string()))
    );
    assert_eq!(MetaplexAttribute::parse_from_str("unknown"), None);
    let p = ParsedMetaplexAttrs {
        struct_type: Some(MetaplexAttribute::Creator),
        ..Default::default()
    };
    assert!(p.is_creator());
    assert!(!p.is_metadata());
    assert!(!p.is_collection());
}

#[test]
fn metadata_findings_in_order() {
    let s = StructDefinition {
        name: "NftMetadata".to_string(),
        generic_params: vec![],
        fields: vec![
            prim("name", "u8"),
            FieldDefinition {
                name: "creators".to_string(),
                type_info: TypeInfo::UserDefined("Creator".to_string()),
                optional: false,
                deprecated: None,
                anchor_attrs: vec![],
            },
        ],
        metadata: Metadata::default(),
        visibility: Visibility::Public,
        module_segments: vec![],
    };
    let r = MetaplexValidator::new().validate(&vec![TypeDefinition::Struct(s)]);
    assert_eq!(r.errors.len(), 1);
    assert_eq!(r.errors[0].location, "NftMetadata.name");
    assert_eq!(r.errors[0].message, "name field must be String type");
    let w: Vec<String> = r.warnings.iter().map(|e| e.message.clone()).collect();
    assert_eq!(
        w,
        vec![
            "Missing recommended field 'symbol'".to_string(),
            "Missing recommended field 'uri'".to_string(),
            "Metaplex limits name to 32 characters".to_string(),
            "creators is typically a Vec<Creator>".to_string(),
            "Metaplex limits to 5 creators".to_string(),
        ]
    );
    assert_eq!(
        r.warnings[0].to_display_string(),
        "warning: NftMetadata: Missing recommended field 'symbol' (suggestion: Add 'symbol: String' field)"
    );
}

#[test]
fn collection_missing_fields_and_plain_structs() {
    let c = StructDefinition {
        name: "Collection".to_string(),
        generic_params: vec![],
        fields: vec![],
        metadata: Metadata::default(),
        visibility: Visibility::Public,
        module_segments: vec![],
    };
    let plain = StructDefinition {
        name: "Plain".to_string(),
        generic_params: vec![],
        fields: vec![],
        metadata: Metadata::default(),
        visibility: Visibility::Public,
        module_segments: vec![],
    };
    let v = MetaplexValidator::default();
    let r = v.validate(&vec![TypeDefinition::Struct(c), TypeDefinition::Struct(plain.clone())]);
    assert_eq!(r.errors.len(), 2);
    assert_eq!(r.errors[0].severity, Severity::Error);
    let e = ValidationError {
        location: "A".to_string(),
        message: "m".to_string(),
        severity: Severity::Error,
        suggestion: None,
    };
    assert_eq!(e.to_display_string(), "error: A: m");
    let r2 = v.validate(&vec![TypeDefinition::Struct(plain)]);
    assert!(r2.is_valid());
    assert!(!r2.has_warnings());
}

#[test]
fn strict_mode_reports_warnings_as_errors() {
    let types = vec![TypeDefinition::Struct(create_metadata_struct())];
    let normal = MetaplexValidator::new().validate(&types);
    assert!(normal.is_valid());
    assert_eq!(normal.warnings.len(), 3);

    let strict = MetaplexValidator::strict().validate(&types);
    assert!(!strict.is_valid());
    assert!(strict.warnings.is_empty());
    assert_eq!(strict.errors.len(), normal.errors.len() + normal.warnings.len());
    for (e, w) in strict.errors.iter().zip(normal.warnings.iter()) {
        assert_eq!(e.severity, Severity::Error);
        assert_eq!(e.location, w.location);
        assert_eq!(e.message, w.message);
        assert_eq!(e.suggestion, w.suggestion);
    }
}
